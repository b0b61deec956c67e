//! The retained-mode context: plane bookkeeping, piles, z-order, and the
//! per-pile render state machine.
//!
//! The context owns what no single plane can know: which planes exist,
//! which plane each one is bound to, which pile (tree of planes sharing a
//! rendering root) each belongs to, the z-order, and how far each pile
//! has come along `unrendered -> rendered -> rasterized`. A pile is named
//! by the id its root plane was created with. The z-order is one list
//! over all planes, bottom first; the order of a pile is its restriction
//! to that pile's planes.

use vstd::prelude::*;
use crate::cell::{blank_cell, NcCell};
use crate::plane::NcPlane;
use crate::plane_opts::{NcPlaneOptions, NcResizeCb, NCPLANE_OPTION_HORALIGNED};
use crate::result::{NcError, NcResult, NCRESULT_ERR};
use crate::types::{notcurses_align, spec_align_pos, NcDim, NcOffset};

verus! {

/// How far a pile has come toward the terminal: content changed since
/// the last render, a frame rendered in memory, or that frame written
/// out.
#[derive(Clone, Copy, PartialEq, Eq, Structural, Debug)]
pub enum NcPileState {
    /// No current in-memory frame.
    Unrendered,
    /// An in-memory frame reflects the pile's content.
    Rendered,
    /// The last rendered frame has been written out.
    Rasterized,
}

/// What the context tracks of one plane: its id, the plane it is bound
/// to (none for a pile root), its pile, and that pile's render state
/// (kept on every member of the pile alike).
#[derive(Clone, Copy, PartialEq, Eq, Structural, Debug)]
pub struct NcTopo {
    /// The plane's id.
    pub id: u64,
    /// The plane this one is bound to; a pile root has none.
    pub parent: Option<u64>,
    /// The pile: the id its root was created with.
    pub pile: u64,
    /// The render state of the pile this plane belongs to.
    pub state: NcPileState,
}

/// The retained-mode context.
pub struct Nc {
    /// Rows of the terminal this context was opened on.
    pub term_rows: NcDim,
    /// Columns of the terminal this context was opened on.
    pub term_cols: NcDim,
    /// The id of the standard plane.
    pub std_id: u64,
    /// The id the next created plane receives; ids are never reused.
    pub next_id: u64,
    /// One entry per live plane.
    pub topo: Vec<NcTopo>,
    /// All planes, bottom first, top last.
    pub zorder: Vec<u64>,
}

/// The position of the first entry with the given id, searching from
/// `j`; -1 when there is none.
pub open spec fn topo_index_from(t: Seq<NcTopo>, j: int, id: u64) -> int
    decreases t.len() - j,
{
    if j < 0 || j >= t.len() {
        -1
    } else if t[j].id == id {
        j
    } else {
        topo_index_from(t, j + 1, id)
    }
}

/// The position of the entry with the given id; -1 when there is none.
pub open spec fn topo_index(t: Seq<NcTopo>, id: u64) -> int {
    topo_index_from(t, 0, id)
}

/// The position of the first occurrence of `v`, searching from `j`; -1
/// when there is none.
pub open spec fn id_index_from(s: Seq<u64>, j: int, v: u64) -> int
    decreases s.len() - j,
{
    if j < 0 || j >= s.len() {
        -1
    } else if s[j] == v {
        j
    } else {
        id_index_from(s, j + 1, v)
    }
}

/// The position of the first occurrence of `v`; -1 when there is none.
pub open spec fn id_index(s: Seq<u64>, v: u64) -> int {
    id_index_from(s, 0, v)
}

/// `s` without the first occurrence of `v` (unchanged when absent).
pub open spec fn remove_id(s: Seq<u64>, v: u64) -> Seq<u64> {
    if id_index(s, v) < 0 {
        s
    } else {
        s.remove(id_index(s, v))
    }
}

/// `s` with the first occurrence of `v` moved to the back (unchanged
/// when absent).
pub open spec fn move_back(s: Seq<u64>, v: u64) -> Seq<u64> {
    if id_index(s, v) < 0 {
        s
    } else {
        s.remove(id_index(s, v)).push(v)
    }
}

/// `s` with the first occurrence of `v` moved to the front (unchanged
/// when absent).
pub open spec fn move_front(s: Seq<u64>, v: u64) -> Seq<u64> {
    if id_index(s, v) < 0 {
        s
    } else {
        s.remove(id_index(s, v)).insert(0, v)
    }
}

/// `t` with every plane bound to `dead` rebound to `np`.
pub open spec fn promoted_topo(t: Seq<NcTopo>, dead: u64, np: Option<u64>) -> Seq<NcTopo> {
    Seq::new(
        t.len(),
        |k: int|
            if t[k].parent == Some(dead) {
                NcTopo { parent: np, ..t[k] }
            } else {
                t[k]
            },
    )
}

/// A search that finds something found an entry with the id, and nothing
/// before it; a search that finds nothing saw no such entry.
pub proof fn lemma_topo_index_from(t: Seq<NcTopo>, j: int, id: u64)
    requires
        0 <= j <= t.len(),
    ensures
        topo_index_from(t, j, id) == -1 || topo_index_from(t, j, id) >= 0,
        topo_index_from(t, j, id) == -1 ==> forall|k: int| j <= k < t.len() ==> t[k].id != id,
        topo_index_from(t, j, id) >= 0 ==> j <= topo_index_from(t, j, id) < t.len() && t[
            topo_index_from(t, j, id)
        ].id == id,
    decreases t.len() - j,
{
    if j < t.len() && t[j].id != id {
        lemma_topo_index_from(t, j + 1, id);
    }
}

/// Two plane tables that agree on every id are searched alike.
pub proof fn lemma_topo_index_same_ids(a: Seq<NcTopo>, b: Seq<NcTopo>, j: int, id: u64)
    requires
        a.len() == b.len(),
        forall|k: int| 0 <= k < a.len() ==> a[k].id == b[k].id,
    ensures
        topo_index_from(a, j, id) == topo_index_from(b, j, id),
    decreases a.len() - j,
{
    if 0 <= j < a.len() && a[j].id != id {
        lemma_topo_index_same_ids(a, b, j + 1, id);
    }
}

/// A fresh entry pushed at the back is found there, nothing before it
/// matching its id.
proof fn lemma_topo_index_push_fresh(t: Seq<NcTopo>, e: NcTopo, j: int)
    requires
        0 <= j <= t.len(),
        forall|k: int| 0 <= k < t.len() ==> t[k].id != e.id,
    ensures
        topo_index_from(t.push(e), j, e.id) == t.len(),
    decreases t.len() - j,
{
    if j < t.len() {
        assert(t.push(e)[j] == t[j]);
        lemma_topo_index_push_fresh(t, e, j + 1);
    } else {
        assert(t.push(e)[j] == e);
    }
}

/// A fresh id pushed at the back of the z-order is found there.
proof fn lemma_id_index_push_fresh(s: Seq<u64>, v: u64, j: int)
    requires
        0 <= j <= s.len(),
        forall|k: int| 0 <= k < s.len() ==> s[k] != v,
    ensures
        id_index_from(s.push(v), j, v) == s.len(),
    decreases s.len() - j,
{
    if j < s.len() {
        assert(s.push(v)[j] == s[j]);
        lemma_id_index_push_fresh(s, v, j + 1);
    } else {
        assert(s.push(v)[j] == v);
    }
}

/// Whether the plane with id `id` belongs to the family of `root`:
/// either it is `root` itself, or it is bound, through at most `fuel`
/// binding steps, to `root`.
pub open spec fn in_family(t: Seq<NcTopo>, root: u64, id: u64, fuel: nat) -> bool
    decreases fuel,
{
    if id == root {
        true
    } else if fuel == 0 {
        false
    } else {
        let k = topo_index(t, id);
        &&& k >= 0
        &&& t[k].parent matches Some(p)
        &&& in_family(t, root, (t[k].parent)->0, (fuel - 1) as nat)
    }
}

/// Whether the plane with id `id` belongs to the family of `root`. As
/// many binding steps as there are planes cover every chain.
pub open spec fn family_member(t: Seq<NcTopo>, root: u64, id: u64) -> bool {
    in_family(t, root, id, t.len() as nat)
}

/// Family membership is monotone in the allowed number of steps.
proof fn lemma_in_family_mono(t: Seq<NcTopo>, root: u64, id: u64, f: nat, g: nat)
    requires
        in_family(t, root, id, f),
        f <= g,
    ensures
        in_family(t, root, id, g),
    decreases f,
{
    if id != root && f > 0 {
        let k = topo_index(t, id);
        lemma_in_family_mono(t, root, (t[k].parent)->0, (f - 1) as nat, (g - 1) as nat);
    }
}

/// How many of the first `j` marks are set.
spec fn count_marked(m: Seq<bool>, j: int) -> int
    decreases j,
{
    if j <= 0 {
        0
    } else {
        count_marked(m, j - 1) + (if m[j - 1] {
            1int
        } else {
            0int
        })
    }
}

/// Setting one unset mark raises the count by one; counts never exceed
/// the number of marks, and never fall.
proof fn lemma_count_marked_update(m: Seq<bool>, k: int, j: int)
    requires
        0 <= k < m.len(),
        j <= m.len(),
        !m[k],
    ensures
        count_marked(m.update(k, true), j) == count_marked(m, j) + (if k < j {
            1int
        } else {
            0int
        }),
    decreases j,
{
    if j > 0 {
        lemma_count_marked_update(m, k, j - 1);
    }
}

/// A count of marks stays within the positions counted.
proof fn lemma_count_marked_bound(m: Seq<bool>, j: int)
    requires
        0 <= j <= m.len(),
    ensures
        count_marked(m, j) <= j,
        0 <= count_marked(m, j),
    decreases j,
{
    if j > 0 {
        lemma_count_marked_bound(m, j - 1);
    }
}

/// With unique ids, an entry's position is where the search finds its id.
proof fn lemma_topo_index_unique(t: Seq<NcTopo>, j: int)
    requires
        0 <= j < t.len(),
        forall|a: int, b: int| 0 <= a < b < t.len() ==> t[a].id != t[b].id,
    ensures
        topo_index(t, t[j].id) == j,
{
    lemma_topo_index_from(t, 0, t[j].id);
    let i0 = topo_index(t, t[j].id);
    if i0 < 0 {
        assert(t[j].id != t[j].id);
    }
    if i0 != j {
        assert(t[i0].id == t[j].id);
    }
}

/// Whether any entry with the given id is marked.
fn id_marked(nc: &Nc, marks: &Vec<bool>, id: u64) -> (b: bool)
    requires
        nc.wf(),
        marks@.len() == nc.topo@.len(),
    ensures
        b <==> (topo_index(nc.topo@, id) >= 0 && marks@[topo_index(nc.topo@, id)]),
{
    let n = nc.topo.len();
    let mut j: usize = 0;
    while j < n
        invariant
            nc.wf(),
            j <= n,
            n == nc.topo@.len(),
            marks@.len() == nc.topo@.len(),
            forall|q: int| 0 <= q < j ==> !(nc.topo@[q].id == id && marks@[q]),
        decreases n - j,
    {
        if nc.topo[j].id == id && marks[j] {
            proof {
                lemma_topo_index_unique(nc.topo@, j as int);
            }
            return true;
        }
        j = j + 1;
    }
    proof {
        lemma_topo_index_from(nc.topo@, 0, id);
        if topo_index(nc.topo@, id) >= 0 && marks@[topo_index(nc.topo@, id)] {
            assert(nc.topo@[topo_index(nc.topo@, id)].id == id);
        }
    }
    false
}

/// Marks, by plane-table position, every member of the family of `root`.
fn family_marks(nc: &Nc, root: u64) -> (marks: Vec<bool>)
    requires
        nc.wf(),
    ensures
        marks@.len() == nc.topo@.len(),
        forall|k: int|
            0 <= k < marks@.len() ==> (marks@[k] <==> family_member(
                nc.topo@,
                root,
                nc.topo@[k].id,
            )),
{
    let ghost t = nc.topo@;
    let n = nc.topo.len();
    let mut marks: Vec<bool> = Vec::new();
    let mut k: usize = 0;
    while k < n
        invariant
            nc.wf(),
            t == nc.topo@,
            k <= n,
            n == t.len(),
            marks@.len() == k,
            forall|q: int| 0 <= q < k ==> (marks@[q] <==> t[q].id == root),
        decreases n - k,
    {
        marks.push(nc.topo[k].id == root);
        k = k + 1;
    }
    let mut pass: usize = 0;
    while pass < n
        invariant
            nc.wf(),
            t == nc.topo@,
            pass <= n,
            n == t.len(),
            marks@.len() == n,
            forall|q: int|
                0 <= q < n ==> (marks@[q] ==> in_family(t, root, t[q].id, count_marked(
                    marks@,
                    n as int,
                ) as nat)),
            forall|q: int|
                0 <= q < n ==> (in_family(t, root, t[q].id, pass as nat) ==> marks@[q]),
        decreases n - pass,
    {
        let mut k: usize = 0;
        while k < n
            invariant
                nc.wf(),
                t == nc.topo@,
                pass < n,
                k <= n,
                n == t.len(),
                marks@.len() == n,
                forall|q: int|
                    0 <= q < n ==> (marks@[q] ==> in_family(t, root, t[q].id, count_marked(
                        marks@,
                        n as int,
                    ) as nat)),
                forall|q: int|
                    0 <= q < n ==> (in_family(t, root, t[q].id, pass as nat) ==> marks@[q]),
                forall|q: int|
                    0 <= q < k ==> (in_family(t, root, t[q].id, pass as nat + 1) ==> marks@[q]),
            decreases n - k,
        {
            let already = marks[k];
            let e = nc.topo[k];
            let hit: bool = if already {
                false
            } else {
                match e.parent {
                    Some(par) => par == root || id_marked(nc, &marks, par),
                    None => false,
                }
            };
            if hit {
                let ghost before = marks@;
                let ghost cnt = count_marked(before, n as int);
                marks.set(k, true);
                proof {
                    lemma_count_marked_update(before, k as int, n as int);
                    lemma_count_marked_bound(before, n as int);
                    lemma_topo_index_unique(t, k as int);
                    if t[k as int].id == root {
                        assert(in_family(t, root, t[k as int].id, pass as nat));
                        assert(false);
                    }
                    let par = (t[k as int].parent)->0;
                    if par != root {
                        let pi = topo_index(t, par);
                        lemma_topo_index_from(t, 0, par);
                        assert(before[pi] && 0 <= pi < n);
                        assert(in_family(t, root, t[pi].id, cnt as nat));
                        assert(t[pi].id == par);
                        assert(in_family(t, root, par, cnt as nat));
                    } else {
                        assert(in_family(t, root, par, cnt as nat));
                    }
                    assert(in_family(t, root, t[k as int].id, (cnt + 1) as nat));
                    assert forall|q: int|
                        0 <= q < n && marks@[q] implies in_family(
                        t,
                        root,
                        t[q].id,
                        count_marked(marks@, n as int) as nat,
                    ) by {
                        if q != k {
                            assert(before[q]);
                            lemma_in_family_mono(t, root, t[q].id, cnt as nat, (cnt + 1) as nat);
                        }
                    }
                }
            }
            proof {
                assert forall|q: int|
                    0 <= q < k + 1 && in_family(t, root, t[q].id, pass as nat + 1) implies marks@[q]
                by {
                    if q == k && !marks@[q] && in_family(t, root, t[q].id, pass as nat + 1) {
                        if t[q].id == root {
                            assert(in_family(t, root, t[q].id, pass as nat));
                        } else {
                            lemma_topo_index_unique(t, q);
                            let par2 = (t[q].parent)->0;
                            assert(in_family(t, root, par2, pass as nat));
                            if par2 != root {
                                let pi2 = topo_index(t, par2);
                                lemma_topo_index_from(t, 0, par2);
                                assert(t[pi2].id == par2);
                                assert(in_family(t, root, t[pi2].id, pass as nat));
                            }
                        }
                    }
                }
            }
            k = k + 1;
        }
        pass = pass + 1;
    }
    proof {
        lemma_count_marked_bound(marks@, n as int);
        assert forall|q: int| 0 <= q < n implies (marks@[q] <==> family_member(
            t,
            root,
            t[q].id,
        )) by {
            if marks@[q] {
                lemma_in_family_mono(
                    t,
                    root,
                    t[q].id,
                    count_marked(marks@, n as int) as nat,
                    n as nat,
                );
            }
        }
    }
    marks
}

/// The members (or, with `want` false, the non-members) of the family of
/// `root` among the first `j` planes of the z-order, in their order.
pub open spec fn family_split(
    s: Seq<u64>,
    t: Seq<NcTopo>,
    root: u64,
    j: int,
    want: bool,
) -> Seq<u64>
    decreases j,
{
    if j <= 0 {
        Seq::<u64>::empty()
    } else {
        family_split(s, t, root, j - 1, want) + (if family_member(t, root, s[j - 1]) == want {
            seq![s[j - 1]]
        } else {
            Seq::<u64>::empty()
        })
    }
}

/// Splits the z-order into the non-members and the members of the
/// family of `root`, each in their old relative order.
fn split_zorder(nc: &Nc, root: u64) -> (out: (Vec<u64>, Vec<u64>))
    requires
        nc.wf(),
    ensures
        out.0@ == family_split(nc.zorder@, nc.topo@, root, nc.zorder@.len() as int, false),
        out.1@ == family_split(nc.zorder@, nc.topo@, root, nc.zorder@.len() as int, true),
{
    let ghost t = nc.topo@;
    let ghost s = nc.zorder@;
    let marks = family_marks(nc, root);
    let n = nc.zorder.len();
    let mut rest: Vec<u64> = Vec::new();
    let mut fam: Vec<u64> = Vec::new();
    let mut i: usize = 0;
    while i < n
        invariant
            nc.wf(),
            t == nc.topo@,
            s == nc.zorder@,
            i <= n,
            n == s.len(),
            marks@.len() == t.len(),
            forall|k: int|
                0 <= k < marks@.len() ==> (marks@[k] <==> family_member(t, root, t[k].id)),
            rest@ == family_split(s, t, root, i as int, false),
            fam@ == family_split(s, t, root, i as int, true),
        decreases n - i,
    {
        let v = nc.zorder[i];
        let member: bool = if v == root {
            true
        } else {
            match nc.topo_find(v) {
                Some(k) => marks[k],
                None => false,
            }
        };
        proof {
            if v != root {
                lemma_topo_index_from(t, 0, v);
                if topo_index(t, v) < 0 {
                    assert(!in_family(t, root, v, t.len() as nat));
                }
            }
            assert(member == family_member(t, root, v));
        }
        if member {
            fam.push(v);
        } else {
            rest.push(v);
        }
        i = i + 1;
    }
    (rest, fam)
}

impl NcPlane {
    /// Moves this plane and every plane bound to it, directly or
    /// through others, to the top of the z-order, keeping the moved
    /// planes' relative order and the other planes' relative order.
    pub fn move_family_top(&self, nc: &mut Nc)
        requires
            old(nc).wf(),
        ensures
            final(nc).wf(),
            *final(nc) == (Nc { zorder: final(nc).zorder, ..*old(nc) }),
            final(nc).zorder@ == family_split(
                old(nc).zorder@,
                old(nc).topo@,
                self.id,
                old(nc).zorder@.len() as int,
                false,
            ) + family_split(
                old(nc).zorder@,
                old(nc).topo@,
                self.id,
                old(nc).zorder@.len() as int,
                true,
            ),
    {
        let (mut rest, mut fam) = split_zorder(nc, self.id);
        rest.append(&mut fam);
        proof {
            lemma_family_split_lens(old(nc).zorder@, old(nc).topo@, self.id);
        }
        nc.zorder = rest;
    }

    /// Moves this plane and every plane bound to it, directly or
    /// through others, to the bottom of the z-order, keeping the moved
    /// planes' relative order and the other planes' relative order.
    pub fn move_family_bottom(&self, nc: &mut Nc)
        requires
            old(nc).wf(),
        ensures
            final(nc).wf(),
            *final(nc) == (Nc { zorder: final(nc).zorder, ..*old(nc) }),
            final(nc).zorder@ == family_split(
                old(nc).zorder@,
                old(nc).topo@,
                self.id,
                old(nc).zorder@.len() as int,
                true,
            ) + family_split(
                old(nc).zorder@,
                old(nc).topo@,
                self.id,
                old(nc).zorder@.len() as int,
                false,
            ),
    {
        let (mut rest, mut fam) = split_zorder(nc, self.id);
        fam.append(&mut rest);
        proof {
            lemma_family_split_lens(old(nc).zorder@, old(nc).topo@, self.id);
        }
        nc.zorder = fam;
    }
}

/// Whether the plane with id `id` belongs to pile `pile`.
pub open spec fn is_pile_member(t: Seq<NcTopo>, id: u64, pile: u64) -> bool {
    topo_index(t, id) >= 0 && t[topo_index(t, id)].pile == pile
}

/// The greatest position at or below `j` in the z-order holding a member
/// of `pile`; -1 when there is none.
pub open spec fn pile_member_at_or_below(z: Seq<u64>, t: Seq<NcTopo>, pile: u64, j: int) -> int
    decreases j + 1,
{
    if j < 0 || j >= z.len() {
        -1
    } else if is_pile_member(t, z[j], pile) {
        j
    } else {
        pile_member_at_or_below(z, t, pile, j - 1)
    }
}

/// The least position at or above `j` in the z-order holding a member of
/// `pile`; -1 when there is none.
pub open spec fn pile_member_at_or_above(z: Seq<u64>, t: Seq<NcTopo>, pile: u64, j: int) -> int
    decreases z.len() - j,
{
    if j < 0 || j >= z.len() {
        -1
    } else if is_pile_member(t, z[j], pile) {
        j
    } else {
        pile_member_at_or_above(z, t, pile, j + 1)
    }
}

impl Nc {
    /// Whether the plane with id `id` belongs to pile `pile`.
    fn pile_member(&self, id: u64, pile: u64) -> (b: bool)
        ensures
            b == is_pile_member(self.topo@, id, pile),
    {
        match self.topo_find(id) {
            Some(k) => self.topo[k].pile == pile,
            None => false,
        }
    }

    /// The greatest z-order position at or below `from` holding a member
    /// of `pile`, as an executable scan.
    fn scan_pile_down(&self, from: usize, pile: u64) -> (o: Option<usize>)
        requires
            from < self.zorder@.len(),
        ensures
            o matches Some(m) ==> pile_member_at_or_below(
                self.zorder@,
                self.topo@,
                pile,
                from as int,
            ) == m && m < self.zorder@.len(),
            o is None ==> pile_member_at_or_below(self.zorder@, self.topo@, pile, from as int)
                == -1,
    {
        let mut j: usize = from;
        loop
            invariant
                j <= from < self.zorder@.len(),
                pile_member_at_or_below(self.zorder@, self.topo@, pile, from as int)
                    == pile_member_at_or_below(self.zorder@, self.topo@, pile, j as int),
            decreases j,
        {
            if self.pile_member(self.zorder[j], pile) {
                return Some(j);
            }
            if j == 0 {
                proof {
                    assert(pile_member_at_or_below(self.zorder@, self.topo@, pile, -1) == -1);
                    assert(pile_member_at_or_below(self.zorder@, self.topo@, pile, 0) == -1);
                }
                return None;
            }
            j = j - 1;
        }
    }

    /// The least z-order position at or above `from` holding a member of
    /// `pile`, as an executable scan.
    fn scan_pile_up(&self, from: usize, pile: u64) -> (o: Option<usize>)
        ensures
            o matches Some(m) ==> pile_member_at_or_above(
                self.zorder@,
                self.topo@,
                pile,
                from as int,
            ) == m && m < self.zorder@.len(),
            o is None ==> pile_member_at_or_above(self.zorder@, self.topo@, pile, from as int)
                == -1,
    {
        let n = self.zorder.len();
        let mut j: usize = from;
        while j < n
            invariant
                n == self.zorder@.len(),
                pile_member_at_or_above(self.zorder@, self.topo@, pile, from as int)
                    == pile_member_at_or_above(self.zorder@, self.topo@, pile, j as int),
            decreases n - j,
        {
            if self.pile_member(self.zorder[j], pile) {
                return Some(j);
            }
            j = j + 1;
        }
        None
    }
}

impl NcPlane {
    /// The id of the plane this one is bound to; a pile root, or a plane
    /// the context does not know, is an error.
    pub fn parent(&self, nc: &Nc) -> (r: NcResult<u64>)
        ensures
            ({
                let ti = topo_index(nc.topo@, self.id);
                &&& (r is Ok <==> ti >= 0 && nc.topo@[ti].parent is Some)
                &&& (r is Ok ==> r == Ok::<u64, NcError>((nc.topo@[ti].parent)->0))
            }),
    {
        let ti = match nc.topo_find(self.id) {
            Some(v) => v,
            None => {
                return Err(NcError::with_msg(NCRESULT_ERR, "unknown plane"));
            },
        };
        match nc.topo[ti].parent {
            Some(p) => Ok(p),
            None => Err(NcError::with_msg(NCRESULT_ERR, "a pile root is bound to nothing")),
        }
    }

    /// The id of the topmost plane of this plane's pile; an error for a
    /// plane the context does not know, or a pile absent from the
    /// z-order.
    pub fn top(&self, nc: &Nc) -> (r: NcResult<u64>)
        ensures
            ({
                let ti = topo_index(nc.topo@, self.id);
                let m = pile_member_at_or_below(
                    nc.zorder@,
                    nc.topo@,
                    nc.topo@[ti].pile,
                    nc.zorder@.len() - 1,
                );
                &&& (r is Ok <==> ti >= 0 && nc.zorder@.len() > 0 && m >= 0)
                &&& (r is Ok ==> r == Ok::<u64, NcError>(nc.zorder@[m]))
            }),
    {
        let ti = match nc.topo_find(self.id) {
            Some(v) => v,
            None => {
                return Err(NcError::with_msg(NCRESULT_ERR, "unknown plane"));
            },
        };
        let pile = nc.topo[ti].pile;
        let n = nc.zorder.len();
        if n == 0 {
            return Err(NcError::with_msg(NCRESULT_ERR, "empty z-order"));
        }
        match nc.scan_pile_down(n - 1, pile) {
            Some(m) => Ok(nc.zorder[m]),
            None => Err(NcError::with_msg(NCRESULT_ERR, "pile absent from the z-order")),
        }
    }

    /// The id of the bottommost plane of this plane's pile, under the
    /// same terms as [`top`](Self::top).
    pub fn bottom(&self, nc: &Nc) -> (r: NcResult<u64>)
        ensures
            ({
                let ti = topo_index(nc.topo@, self.id);
                let m = pile_member_at_or_above(nc.zorder@, nc.topo@, nc.topo@[ti].pile, 0);
                &&& (r is Ok <==> ti >= 0 && m >= 0)
                &&& (r is Ok ==> r == Ok::<u64, NcError>(nc.zorder@[m]))
            }),
    {
        let ti = match nc.topo_find(self.id) {
            Some(v) => v,
            None => {
                return Err(NcError::with_msg(NCRESULT_ERR, "unknown plane"));
            },
        };
        let pile = nc.topo[ti].pile;
        match nc.scan_pile_up(0, pile) {
            Some(m) => Ok(nc.zorder[m]),
            None => Err(NcError::with_msg(NCRESULT_ERR, "pile absent from the z-order")),
        }
    }

    /// The id of the nearest plane of this plane's pile above it in the
    /// z-order, or nothing when it is the topmost (or unknown).
    pub fn above(&self, nc: &Nc) -> (r: Option<u64>)
        ensures
            ({
                let ti = topo_index(nc.topo@, self.id);
                let ps = id_index(nc.zorder@, self.id);
                let m = pile_member_at_or_above(nc.zorder@, nc.topo@, nc.topo@[ti].pile, ps + 1);
                &&& (r is Some <==> ti >= 0 && ps >= 0 && m >= 0)
                &&& (r is Some ==> r == Some(nc.zorder@[m]))
            }),
    {
        let ti = match nc.topo_find(self.id) {
            Some(v) => v,
            None => {
                return None;
            },
        };
        let pile = nc.topo[ti].pile;
        let ps = match nc.zorder_find(self.id) {
            Some(v) => v,
            None => {
                return None;
            },
        };
        let zn = nc.zorder.len();
        proof {
            assert(ps < zn);
        }
        match nc.scan_pile_up(ps + 1, pile) {
            Some(m) => Some(nc.zorder[m]),
            None => None,
        }
    }

    /// The id of the nearest plane of this plane's pile below it in the
    /// z-order, or nothing when it is the bottommost (or unknown).
    pub fn below(&self, nc: &Nc) -> (r: Option<u64>)
        ensures
            ({
                let ti = topo_index(nc.topo@, self.id);
                let ps = id_index(nc.zorder@, self.id);
                let m = pile_member_at_or_below(nc.zorder@, nc.topo@, nc.topo@[ti].pile, ps - 1);
                &&& (r is Some <==> ti >= 0 && ps >= 1 && m >= 0)
                &&& (r is Some ==> r == Some(nc.zorder@[m]))
            }),
    {
        let ti = match nc.topo_find(self.id) {
            Some(v) => v,
            None => {
                return None;
            },
        };
        let pile = nc.topo[ti].pile;
        let ps = match nc.zorder_find(self.id) {
            Some(v) => v,
            None => {
                return None;
            },
        };
        if ps == 0 {
            return None;
        }
        match nc.scan_pile_down(ps - 1, pile) {
            Some(m) => Some(nc.zorder[m]),
            None => None,
        }
    }
}

/// The position of the first occurrence of `v` in a plain id list.
fn ids_find(ids: &Vec<u64>, v: u64) -> (o: Option<usize>)
    ensures
        o matches Some(i) ==> i < ids@.len() && id_index(ids@, v) == i,
        o is None ==> id_index(ids@, v) == -1,
{
    let n = ids.len();
    let mut i: usize = 0;
    while i < n
        invariant
            i <= n,
            n == ids@.len(),
            id_index(ids@, v) == id_index_from(ids@, i as int, v),
        decreases n - i,
    {
        if ids[i] == v {
            return Some(i);
        }
        i = i + 1;
    }
    None
}

impl NcPlane {
    /// Moves this plane and every plane bound to it, directly or through
    /// others, to sit directly above the plane whose id is `above`: the
    /// family is spliced out of the z-order and reinserted right after
    /// the target, both groups keeping their relative order. A target
    /// inside the family, or absent from the remaining z-order, is an
    /// error, and nothing changes.
    pub fn move_family_above(&self, nc: &mut Nc, above: u64) -> (r: NcResult<()>)
        requires
            old(nc).wf(),
        ensures
            final(nc).wf(),
            r is Err ==> *final(nc) == *old(nc),
            ({
                let rest = family_split(
                    old(nc).zorder@,
                    old(nc).topo@,
                    self.id,
                    old(nc).zorder@.len() as int,
                    false,
                );
                let fam = family_split(
                    old(nc).zorder@,
                    old(nc).topo@,
                    self.id,
                    old(nc).zorder@.len() as int,
                    true,
                );
                let k = id_index(rest, above);
                &&& (r is Ok <==> k >= 0)
                &&& (r is Ok ==> *final(nc) == (Nc { zorder: final(nc).zorder, ..*old(nc) })
                    && final(nc).zorder@ == rest.take(k + 1) + fam + rest.skip(k + 1))
            }),
    {
        let ghost z = nc.zorder@;
        let ghost t = nc.topo@;
        let (rest, mut fam) = split_zorder(nc, self.id);
        let k = match ids_find(&rest, above) {
            Some(v) => v,
            None => {
                return Err(
                    NcError::with_msg(NCRESULT_ERR, "target not among the unmoved planes"),
                );
            },
        };
        let mut out: Vec<u64> = Vec::new();
        let rn = rest.len();
        let mut i: usize = 0;
        while i < k + 1
            invariant
                i <= k + 1,
                k < rn,
                rn == rest@.len(),
                out@ == rest@.take(i as int),
            decreases k + 1 - i,
        {
            out.push(rest[i]);
            proof {
                assert(out@ =~= rest@.take(i as int + 1));
            }
            i = i + 1;
        }
        out.append(&mut fam);
        let mut j: usize = k + 1;
        while j < rn
            invariant
                k + 1 <= j <= rn,
                rn == rest@.len(),
                out@ == rest@.take(k as int + 1) + family_split(z, t, self.id, z.len() as int, true)
                    + rest@.subrange(k as int + 1, j as int),
            decreases rn - j,
        {
            out.push(rest[j]);
            proof {
                assert(out@ =~= rest@.take(k as int + 1) + family_split(
                    z,
                    t,
                    self.id,
                    z.len() as int,
                    true,
                ) + rest@.subrange(k as int + 1, j as int + 1));
            }
            j = j + 1;
        }
        proof {
            assert(rest@.subrange(k as int + 1, rn as int) =~= rest@.skip(k as int + 1));
            lemma_family_split_lens(z, t, self.id);
            assert forall|q: int| 0 <= q < out@.len() implies out@[q] < old(nc).next_id by {
                assert(out@[q] == (rest@.take(k as int + 1) + family_split(
                    z,
                    t,
                    self.id,
                    z.len() as int,
                    true,
                ) + rest@.skip(k as int + 1))[q]);
            }
        }
        nc.zorder = out;
        Ok(())
    }

    /// Moves this plane and every plane bound to it, directly or through
    /// others, to sit directly below the plane whose id is `below`,
    /// under the same terms as
    /// [`move_family_above`](Self::move_family_above).
    pub fn move_family_below(&self, nc: &mut Nc, below: u64) -> (r: NcResult<()>)
        requires
            old(nc).wf(),
        ensures
            final(nc).wf(),
            r is Err ==> *final(nc) == *old(nc),
            ({
                let rest = family_split(
                    old(nc).zorder@,
                    old(nc).topo@,
                    self.id,
                    old(nc).zorder@.len() as int,
                    false,
                );
                let fam = family_split(
                    old(nc).zorder@,
                    old(nc).topo@,
                    self.id,
                    old(nc).zorder@.len() as int,
                    true,
                );
                let k = id_index(rest, below);
                &&& (r is Ok <==> k >= 0)
                &&& (r is Ok ==> *final(nc) == (Nc { zorder: final(nc).zorder, ..*old(nc) })
                    && final(nc).zorder@ == rest.take(k) + fam + rest.skip(k))
            }),
    {
        let ghost z = nc.zorder@;
        let ghost t = nc.topo@;
        let (rest, mut fam) = split_zorder(nc, self.id);
        let k = match ids_find(&rest, below) {
            Some(v) => v,
            None => {
                return Err(
                    NcError::with_msg(NCRESULT_ERR, "target not among the unmoved planes"),
                );
            },
        };
        let mut out: Vec<u64> = Vec::new();
        let rn = rest.len();
        let mut i: usize = 0;
        while i < k
            invariant
                i <= k,
                k < rn,
                rn == rest@.len(),
                out@ == rest@.take(i as int),
            decreases k - i,
        {
            out.push(rest[i]);
            proof {
                assert(out@ =~= rest@.take(i as int + 1));
            }
            i = i + 1;
        }
        out.append(&mut fam);
        let mut j: usize = k;
        while j < rn
            invariant
                k <= j <= rn,
                rn == rest@.len(),
                out@ == rest@.take(k as int) + family_split(z, t, self.id, z.len() as int, true)
                    + rest@.subrange(k as int, j as int),
            decreases rn - j,
        {
            out.push(rest[j]);
            proof {
                assert(out@ =~= rest@.take(k as int) + family_split(
                    z,
                    t,
                    self.id,
                    z.len() as int,
                    true,
                ) + rest@.subrange(k as int, j as int + 1));
            }
            j = j + 1;
        }
        proof {
            assert(rest@.subrange(k as int, rn as int) =~= rest@.skip(k as int));
            lemma_family_split_lens(z, t, self.id);
            assert forall|q: int| 0 <= q < out@.len() implies out@[q] < old(nc).next_id by {
                assert(out@[q] == (rest@.take(k as int) + family_split(
                    z,
                    t,
                    self.id,
                    z.len() as int,
                    true,
                ) + rest@.skip(k as int))[q]);
            }
        }
        nc.zorder = out;
        Ok(())
    }
}

/// Both halves of a split hold only values of the split z-order, so a
/// reordered z-order keeps every id below the next to be handed out.
proof fn lemma_family_split_lens(s: Seq<u64>, t: Seq<NcTopo>, root: u64)
    ensures
        forall|want: bool, q: int|
            0 <= q < family_split(s, t, root, s.len() as int, want).len()
                ==> exists|j: int|
                0 <= j < s.len() && s[j] == #[trigger] family_split(
                    s,
                    t,
                    root,
                    s.len() as int,
                    want,
                )[q],
{
    assert forall|want: bool, q: int|
        0 <= q < family_split(s, t, root, s.len() as int, want).len() implies exists|j: int|
        0 <= j < s.len() && s[j] == #[trigger] family_split(s, t, root, s.len() as int, want)[q]
    by {
        lemma_family_split_sub(s, t, root, s.len() as int, want, q);
    }
}

/// Every value of a split half comes from the split z-order.
proof fn lemma_family_split_sub(
    s: Seq<u64>,
    t: Seq<NcTopo>,
    root: u64,
    j: int,
    want: bool,
    q: int,
)
    requires
        j <= s.len(),
        0 <= q < family_split(s, t, root, j, want).len(),
    ensures
        exists|i: int| 0 <= i < s.len() && s[i] == family_split(s, t, root, j, want)[q],
    decreases j,
{
    let whole = family_split(s, t, root, j, want);
    let pre = family_split(s, t, root, j - 1, want);
    if j > 0 {
        if q < pre.len() {
            lemma_family_split_sub(s, t, root, j - 1, want, q);
            assert(whole[q] == pre[q]);
        } else {
            assert(whole[q] == s[j - 1]);
        }
    }
}

/// Creating a plane and destroying it at once returns the context's
/// plane table and z-order to exactly what they were: one create is
/// undone by exactly one destroy, and nothing else of the session is
/// touched. `mid` is the context after a pile-root plane was created on
/// `pre` (as [`NcPlane::new`] leaves it), and `post` the context after
/// that plane was destroyed (as [`NcPlane::destroy`] leaves it).
pub proof fn lemma_create_then_destroy_round_trip(pre: Nc, mid: Nc, post: Nc, e: NcTopo)
    requires
        pre.wf(),
        pre.next_id < u64::MAX,
        e.id == pre.next_id,
        e.parent is None,
        mid.topo@ == pre.topo@.push(e),
        mid.zorder@ == pre.zorder@.push(e.id),
        post.topo@ == promoted_topo(mid.topo@, e.id, mid.topo@[topo_index(mid.topo@, e.id)].parent)
            .remove(topo_index(mid.topo@, e.id)),
        post.zorder@ == remove_id(mid.zorder@, e.id),
    ensures
        post.topo@ == pre.topo@,
        post.zorder@ == pre.zorder@,
{
    lemma_topo_index_push_fresh(pre.topo@, e, 0);
    assert(topo_index(mid.topo@, e.id) == pre.topo@.len());
    assert(mid.topo@[pre.topo@.len() as int] == e);
    assert(promoted_topo(mid.topo@, e.id, e.parent) =~= mid.topo@);
    assert(promoted_topo(mid.topo@, e.id, e.parent).remove(pre.topo@.len() as int)
        =~= pre.topo@);
    lemma_id_index_push_fresh(pre.zorder@, e.id, 0);
    assert(id_index(mid.zorder@, e.id) == pre.zorder@.len());
    assert(mid.zorder@.remove(pre.zorder@.len() as int) =~= pre.zorder@);
}

impl Nc {
    /// Well-formedness: the terminal has at least one cell with an area
    /// that fits the cell-index space, every plane id is unique, and all
    /// of them are below the next id to be handed out.
    pub open spec fn wf(self) -> bool {
        &&& self.term_rows >= 1
        &&& self.term_cols >= 1
        &&& self.term_rows * self.term_cols <= u32::MAX
        &&& forall|i: int, j: int|
            0 <= i < j < self.topo@.len() ==> self.topo@[i].id != self.topo@[j].id
        &&& forall|i: int| 0 <= i < self.topo@.len() ==> self.topo@[i].id < self.next_id
        &&& forall|i: int|
            0 <= i < self.topo@.len() ==> (#[trigger] self.topo@[i].parent matches Some(p) ==> p
                < self.next_id)
        &&& forall|i: int| 0 <= i < self.zorder@.len() ==> self.zorder@[i] < self.next_id
    }

    /// Opens a retained-mode context on a terminal of `rows` by `cols`
    /// cells, returning it with its standard plane: the plane covering
    /// the whole terminal, which can never be destroyed, resized or
    /// moved. A terminal without at least one cell, or whose area
    /// cannot be indexed, is an error.
    pub fn new(rows: NcDim, cols: NcDim) -> (r: NcResult<(Nc, NcPlane)>)
        ensures
            r is Ok <==> rows >= 1 && cols >= 1 && rows * cols <= u32::MAX,
            r matches Ok(p) ==> {
                &&& p.0.wf()
                &&& p.1.wf()
                &&& p.0.term_rows == rows
                &&& p.0.term_cols == cols
                &&& p.0.std_id == 0
                &&& p.0.next_id == 1
                &&& p.0.topo@ == seq![
                    NcTopo {
                        id: 0u64,
                        parent: None::<u64>,
                        pile: 0u64,
                        state: NcPileState::Unrendered,
                    },
                ]
                &&& p.0.zorder@ == seq![0u64]
                &&& p.1.id == 0
                &&& p.1.is_std
                &&& p.1.rows == rows
                &&& p.1.cols == cols
                &&& p.1.y == 0
                &&& p.1.x == 0
                &&& p.1.cursor_y == 0
                &&& p.1.cursor_x == 0
                &&& p.1.channels == 0
                &&& p.1.styles == 0
                &&& p.1.base == blank_cell()
                &&& !p.1.scrolling
                &&& forall|i: int|
                    0 <= i < p.1.cells@.len() ==> p.1.cells@[i] == blank_cell()
            },
    {
        if rows == 0 || cols == 0 {
            return Err(NcError::with_msg(NCRESULT_ERR, "terminal without cells"));
        }
        if grid_area(rows, cols) > u32::MAX as u64 {
            return Err(NcError::with_msg(NCRESULT_ERR, "terminal area too large"));
        }
        let std_plane = build_plane(0, true, 0, 0, rows, cols);
        let mut topo: Vec<NcTopo> = Vec::new();
        topo.push(NcTopo { id: 0, parent: None, pile: 0, state: NcPileState::Unrendered });
        let mut zorder: Vec<u64> = Vec::new();
        zorder.push(0);
        let nc = Nc { term_rows: rows, term_cols: cols, std_id: 0, next_id: 1, topo, zorder };
        proof {
            assert(nc.topo@ =~= seq![
                NcTopo {
                    id: 0u64,
                    parent: None::<u64>,
                    pile: 0u64,
                    state: NcPileState::Unrendered,
                },
            ]);
            assert(nc.zorder@ =~= seq![0u64]);
        }
        Ok((nc, std_plane))
    }

    /// Closes this context. Taking the context by value, the release can
    /// happen only once, and no handle survives it.
    pub fn stop(self) -> (r: NcResult<()>)
        ensures
            r is Ok,
    {
        Ok(())
    }

    /// The position of the entry for `id` in the plane table.
    fn topo_find(&self, id: u64) -> (o: Option<usize>)
        ensures
            o matches Some(i) ==> i < self.topo@.len() && topo_index(self.topo@, id) == i
                && self.topo@[i as int].id == id,
            o is None ==> topo_index(self.topo@, id) == -1,
    {
        let n = self.topo.len();
        let mut i: usize = 0;
        while i < n
            invariant
                i <= n,
                n == self.topo@.len(),
                topo_index(self.topo@, id) == topo_index_from(self.topo@, i as int, id),
            decreases n - i,
        {
            if self.topo[i].id == id {
                return Some(i);
            }
            i = i + 1;
        }
        None
    }

    /// The position of the first occurrence of `id` in the z-order.
    fn zorder_find(&self, id: u64) -> (o: Option<usize>)
        ensures
            o matches Some(i) ==> i < self.zorder@.len() && id_index(self.zorder@, id) == i
                && self.zorder@[i as int] == id,
            o is None ==> id_index(self.zorder@, id) == -1,
    {
        let n = self.zorder.len();
        let mut i: usize = 0;
        while i < n
            invariant
                i <= n,
                n == self.zorder@.len(),
                id_index(self.zorder@, id) == id_index_from(self.zorder@, i as int, id),
            decreases n - i,
        {
            if self.zorder[i] == id {
                return Some(i);
            }
            i = i + 1;
        }
        None
    }

    /// The position of the first occurrence of `id` in the z-order as it
    /// would stand with the entry at `skip` taken out.
    fn zorder_find_excluding(&self, skip: usize, id: u64) -> (o: Option<usize>)
        requires
            skip < self.zorder@.len(),
        ensures
            o matches Some(k) ==> k < self.zorder@.remove(skip as int).len() && id_index(
                self.zorder@.remove(skip as int),
                id,
            ) == k,
            o is None ==> id_index(self.zorder@.remove(skip as int), id) == -1,
    {
        let ghost z1 = self.zorder@.remove(skip as int);
        let n = self.zorder.len();
        let mut j: usize = 0;
        while j < n - 1
            invariant
                j <= n - 1,
                n == self.zorder@.len(),
                n >= 1,
                skip < n,
                z1 == self.zorder@.remove(skip as int),
                z1.len() == n - 1,
                id_index(z1, id) == id_index_from(z1, j as int, id),
            decreases n - 1 - j,
        {
            let at: usize = if j < skip {
                j
            } else {
                j + 1
            };
            if self.zorder[at] == id {
                proof {
                    assert(z1[j as int] == id);
                }
                return Some(j);
            }
            proof {
                assert(z1[j as int] != id);
            }
            j = j + 1;
        }
        None
    }

    /// Registers a plane: a fresh id, an entry bound as given, and a spot
    /// at the top of the z-order.
    fn register(&mut self, parent: Option<u64>, pile: u64, state: NcPileState) -> (id: u64)
        requires
            old(self).wf(),
            old(self).next_id < u64::MAX,
            parent matches Some(p) ==> p < old(self).next_id,
        ensures
            final(self).wf(),
            id == old(self).next_id,
            *final(self) == (Nc {
                next_id: (old(self).next_id + 1) as u64,
                topo: final(self).topo,
                zorder: final(self).zorder,
                ..*old(self)
            }),
            final(self).topo@ == old(self).topo@.push(NcTopo { id, parent, pile, state }),
            final(self).zorder@ == old(self).zorder@.push(id),
    {
        let id = self.next_id;
        self.topo.push(NcTopo { id, parent, pile, state });
        self.zorder.push(id);
        self.next_id = id + 1;
        id
    }
}

/// The area of a grid, computed without overflow.
fn grid_area(rows: NcDim, cols: NcDim) -> (a: u64)
    ensures
        a == rows * cols,
{
    let r64: u64 = rows as u64;
    let c64: u64 = cols as u64;
    proof {
        assert(r64 * c64 <= 0xffff_ffff_0000_0000u64) by (nonlinear_arith)
            requires
                r64 <= 0xffff_ffffu64,
                c64 <= 0xffff_ffffu64,
        ;
    }
    r64 * c64
}

/// A fresh plane value: blank cells, homed cursor, zero channels, no
/// styles, a blank base cell, and scrolling off.
fn build_plane(id: u64, is_std: bool, y: NcOffset, x: NcOffset, rows: NcDim, cols: NcDim) -> (p:
    NcPlane)
    requires
        rows >= 1,
        cols >= 1,
        rows * cols <= u32::MAX,
    ensures
        p.wf(),
        p == (NcPlane {
            id,
            is_std,
            rows,
            cols,
            y,
            x,
            cells: p.cells,
            cursor_y: 0u32,
            cursor_x: 0u32,
            channels: 0u64,
            styles: 0u16,
            base: blank_cell(),
            scrolling: false,
            resizecb: None::<NcResizeCb>,
        }),
        p.cells@.len() == rows * cols,
        forall|i: int| 0 <= i < p.cells@.len() ==> p.cells@[i] == blank_cell(),
{
    let total: u64 = grid_area(rows, cols);
    let mut cells: Vec<NcCell> = Vec::new();
    let mut i: u64 = 0;
    while i < total
        invariant
            i <= total,
            total <= u32::MAX,
            cells@.len() == i,
            forall|k: int| 0 <= k < cells@.len() ==> cells@[k] == blank_cell(),
        decreases total - i,
    {
        cells.push(NcCell::new());
        i = i + 1;
    }
    NcPlane {
        id,
        is_std,
        rows,
        cols,
        y,
        x,
        cells,
        cursor_y: 0,
        cursor_x: 0,
        channels: 0,
        styles: 0,
        base: NcCell::new(),
        scrolling: false,
        resizecb: None,
    }
}

/// Whether a plane of the given extents can be created at all.
pub open spec fn plane_geometry_ok(rows: int, cols: int) -> bool {
    rows >= 1 && cols >= 1 && rows * cols <= u32::MAX
}

impl NcPlane {
    /// Creates a plane that is the root (and sole member) of a new pile.
    ///
    /// The plane is placed at (`y`, `x`) with `rows` by `cols` cells and
    /// goes on top of the z-order. Extents without at least one cell, an
    /// area that cannot be indexed, or an exhausted id space are errors,
    /// and the context is unchanged.
    pub fn new(nc: &mut Nc, y: NcOffset, x: NcOffset, rows: NcDim, cols: NcDim) -> (r: NcResult<
        NcPlane,
    >)
        requires
            old(nc).wf(),
        ensures
            final(nc).wf(),
            r is Ok <==> plane_geometry_ok(rows as int, cols as int) && old(nc).next_id
                < u64::MAX,
            r is Err ==> *final(nc) == *old(nc),
            r matches Ok(p) ==> {
                &&& p.wf()
                &&& p == (NcPlane {
                    id: old(nc).next_id,
                    is_std: false,
                    rows,
                    cols,
                    y,
                    x,
                    cells: p.cells,
                    cursor_y: 0u32,
                    cursor_x: 0u32,
                    channels: 0u64,
                    styles: 0u16,
                    base: blank_cell(),
                    scrolling: false,
                    resizecb: None::<NcResizeCb>,
                })
                &&& forall|i: int| 0 <= i < p.cells@.len() ==> p.cells@[i] == blank_cell()
                &&& *final(nc) == (Nc {
                    next_id: (old(nc).next_id + 1) as u64,
                    topo: final(nc).topo,
                    zorder: final(nc).zorder,
                    ..*old(nc)
                })
                &&& final(nc).topo@ == old(nc).topo@.push(
                    NcTopo {
                        id: old(nc).next_id,
                        parent: None::<u64>,
                        pile: old(nc).next_id,
                        state: NcPileState::Unrendered,
                    },
                )
                &&& final(nc).zorder@ == old(nc).zorder@.push(old(nc).next_id)
            },
    {
        if rows == 0 || cols == 0 {
            return Err(NcError::with_msg(NCRESULT_ERR, "a plane needs at least one cell"));
        }
        if grid_area(rows, cols) > u32::MAX as u64 {
            return Err(NcError::with_msg(NCRESULT_ERR, "plane area too large"));
        }
        if nc.next_id == u64::MAX {
            return Err(NcError::with_msg(NCRESULT_ERR, "plane ids exhausted"));
        }
        let pile = nc.next_id;
        let id = nc.register(None, pile, NcPileState::Unrendered);
        Ok(build_plane(id, false, y, x, rows, cols))
    }

    /// Creates a plane bound to `bound_to`: a member of the same pile,
    /// placed relative to it, on top of the z-order. The bound-to plane
    /// must be known to the context.
    pub fn new_bound(
        nc: &mut Nc,
        bound_to: &NcPlane,
        y: NcOffset,
        x: NcOffset,
        rows: NcDim,
        cols: NcDim,
    ) -> (r: NcResult<NcPlane>)
        requires
            old(nc).wf(),
        ensures
            final(nc).wf(),
            r is Ok <==> plane_geometry_ok(rows as int, cols as int) && old(nc).next_id < u64::MAX
                && topo_index(old(nc).topo@, bound_to.id) >= 0,
            r is Err ==> *final(nc) == *old(nc),
            r matches Ok(p) ==> {
                let pe = old(nc).topo@[topo_index(old(nc).topo@, bound_to.id)];
                &&& p.wf()
                &&& p == (NcPlane {
                    id: old(nc).next_id,
                    is_std: false,
                    rows,
                    cols,
                    y,
                    x,
                    cells: p.cells,
                    cursor_y: 0u32,
                    cursor_x: 0u32,
                    channels: 0u64,
                    styles: 0u16,
                    base: blank_cell(),
                    scrolling: false,
                    resizecb: None::<NcResizeCb>,
                })
                &&& forall|i: int| 0 <= i < p.cells@.len() ==> p.cells@[i] == blank_cell()
                &&& *final(nc) == (Nc {
                    next_id: (old(nc).next_id + 1) as u64,
                    topo: final(nc).topo,
                    zorder: final(nc).zorder,
                    ..*old(nc)
                })
                &&& final(nc).topo@ == old(nc).topo@.push(
                    NcTopo {
                        id: old(nc).next_id,
                        parent: Some(bound_to.id),
                        pile: pe.pile,
                        state: pe.state,
                    },
                )
                &&& final(nc).zorder@ == old(nc).zorder@.push(old(nc).next_id)
            },
    {
        if rows == 0 || cols == 0 {
            return Err(NcError::with_msg(NCRESULT_ERR, "a plane needs at least one cell"));
        }
        if grid_area(rows, cols) > u32::MAX as u64 {
            return Err(NcError::with_msg(NCRESULT_ERR, "plane area too large"));
        }
        if nc.next_id == u64::MAX {
            return Err(NcError::with_msg(NCRESULT_ERR, "plane ids exhausted"));
        }
        let ti = match nc.topo_find(bound_to.id) {
            Some(v) => v,
            None => {
                return Err(NcError::with_msg(NCRESULT_ERR, "unknown binding plane"));
            },
        };
        let pe = nc.topo[ti];
        let id = nc.register(Some(bound_to.id), pe.pile, pe.state);
        Ok(build_plane(id, false, y, x, rows, cols))
    }

    /// Creates a pile-root plane from an options record. Options asking
    /// for horizontal alignment place the plane against the terminal's
    /// columns; an unaligned alignment is then an error.
    pub fn with_options(nc: &mut Nc, options: &NcPlaneOptions) -> (r: NcResult<NcPlane>)
        requires
            old(nc).wf(),
        ensures
            final(nc).wf(),
            r is Err ==> *final(nc) == *old(nc),
            options.flags & NCPLANE_OPTION_HORALIGNED == 0 ==> (r is Ok <==> plane_geometry_ok(
                options.rows as int,
                options.cols as int,
            ) && old(nc).next_id < u64::MAX),
            options.flags & NCPLANE_OPTION_HORALIGNED != 0 ==> (r is Ok <==> plane_geometry_ok(
                options.rows as int,
                options.cols as int,
            ) && old(nc).next_id < u64::MAX && !(options.halign is Unaligned) && spec_align_pos(
                old(nc).term_cols as int,
                options.halign,
                options.cols as int,
            ) <= i32::MAX),
            r matches Ok(p) ==> {
                &&& p.wf()
                &&& p.id == old(nc).next_id
                &&& !p.is_std
                &&& p.rows == options.rows
                &&& p.cols == options.cols
                &&& p.y == options.y
                &&& (options.flags & NCPLANE_OPTION_HORALIGNED == 0 ==> p.x == options.x)
                &&& (options.flags & NCPLANE_OPTION_HORALIGNED != 0 ==> p.x == spec_align_pos(
                    old(nc).term_cols as int,
                    options.halign,
                    options.cols as int,
                ))
                &&& p.resizecb == options.resizecb
                &&& final(nc).topo@ == old(nc).topo@.push(
                    NcTopo {
                        id: old(nc).next_id,
                        parent: None::<u64>,
                        pile: old(nc).next_id,
                        state: NcPileState::Unrendered,
                    },
                )
                &&& final(nc).zorder@ == old(nc).zorder@.push(old(nc).next_id)
            },
    {
        if options.is_horaligned() {
            let term_cols = nc.term_cols;
            let xpos = match notcurses_align(term_cols, options.halign, options.cols) {
                Ok(v) => v,
                Err(e) => {
                    return Err(e);
                },
            };
            if xpos > i32::MAX as u32 {
                return Err(NcError::with_msg(NCRESULT_ERR, "aligned origin out of range"));
            }
            let mut p = Self::new(nc, options.y, xpos as i32, options.rows, options.cols)?;
            p.resizecb = options.resizecb;
            Ok(p)
        } else {
            let mut p = Self::new(nc, options.y, options.x, options.rows, options.cols)?;
            p.resizecb = options.resizecb;
            Ok(p)
        }
    }

    /// Creates a bound plane from an options record. Options asking for
    /// horizontal alignment place the plane against the binding plane's
    /// columns.
    pub fn with_options_bound(nc: &mut Nc, bound_to: &NcPlane, options: &NcPlaneOptions) -> (r:
        NcResult<NcPlane>)
        requires
            old(nc).wf(),
        ensures
            final(nc).wf(),
            r is Err ==> *final(nc) == *old(nc),
            options.flags & NCPLANE_OPTION_HORALIGNED == 0 ==> (r is Ok <==> plane_geometry_ok(
                options.rows as int,
                options.cols as int,
            ) && old(nc).next_id < u64::MAX && topo_index(old(nc).topo@, bound_to.id) >= 0),
            options.flags & NCPLANE_OPTION_HORALIGNED != 0 ==> (r is Ok <==> plane_geometry_ok(
                options.rows as int,
                options.cols as int,
            ) && old(nc).next_id < u64::MAX && topo_index(old(nc).topo@, bound_to.id) >= 0 && !(
            options.halign is Unaligned) && spec_align_pos(
                bound_to.cols as int,
                options.halign,
                options.cols as int,
            ) <= i32::MAX),
            r matches Ok(p) ==> {
                let pe = old(nc).topo@[topo_index(old(nc).topo@, bound_to.id)];
                &&& p.wf()
                &&& p.id == old(nc).next_id
                &&& !p.is_std
                &&& p.rows == options.rows
                &&& p.cols == options.cols
                &&& p.y == options.y
                &&& (options.flags & NCPLANE_OPTION_HORALIGNED == 0 ==> p.x == options.x)
                &&& (options.flags & NCPLANE_OPTION_HORALIGNED != 0 ==> p.x == spec_align_pos(
                    bound_to.cols as int,
                    options.halign,
                    options.cols as int,
                ))
                &&& p.resizecb == options.resizecb
                &&& final(nc).topo@ == old(nc).topo@.push(
                    NcTopo {
                        id: old(nc).next_id,
                        parent: Some(bound_to.id),
                        pile: pe.pile,
                        state: pe.state,
                    },
                )
                &&& final(nc).zorder@ == old(nc).zorder@.push(old(nc).next_id)
            },
    {
        if options.is_horaligned() {
            let xpos = match notcurses_align(bound_to.cols, options.halign, options.cols) {
                Ok(v) => v,
                Err(e) => {
                    return Err(e);
                },
            };
            if xpos > i32::MAX as u32 {
                return Err(NcError::with_msg(NCRESULT_ERR, "aligned origin out of range"));
            }
            let mut p = Self::new_bound(
                nc,
                bound_to,
                options.y,
                xpos as i32,
                options.rows,
                options.cols,
            )?;
            p.resizecb = options.resizecb;
            Ok(p)
        } else {
            let mut p = Self::new_bound(
                nc,
                bound_to,
                options.y,
                options.x,
                options.rows,
                options.cols,
            )?;
            p.resizecb = options.resizecb;
            Ok(p)
        }
    }

    /// Creates a pile-root plane covering the whole terminal.
    pub fn with_termsize(nc: &mut Nc) -> (r: NcResult<NcPlane>)
        requires
            old(nc).wf(),
        ensures
            final(nc).wf(),
            r is Ok <==> old(nc).next_id < u64::MAX,
            r is Err ==> *final(nc) == *old(nc),
            r matches Ok(p) ==> p.wf() && p.rows == old(nc).term_rows && p.cols == old(
                nc,
            ).term_cols && p.y == 0 && p.x == 0 && !p.is_std && p.id == old(nc).next_id,
    {
        let rows = nc.term_rows;
        let cols = nc.term_cols;
        Self::new(nc, 0, 0, rows, cols)
    }

    /// Destroys this plane: its entry leaves the context, every plane
    /// bound to it is rebound to its parent (to nothing where it was a
    /// pile root), and it leaves the z-order. The standard plane cannot
    /// be destroyed; a plane the context does not know is nothing to
    /// release, and the context stays as it is. Taking the plane by
    /// value, the release can happen only once, and no handle survives
    /// it.
    pub fn destroy(self, nc: &mut Nc) -> (r: NcResult<()>)
        requires
            old(nc).wf(),
        ensures
            final(nc).wf(),
            r is Ok <==> !self.is_std,
            r is Err ==> *final(nc) == *old(nc),
            r is Ok && topo_index(old(nc).topo@, self.id) < 0 ==> *final(nc) == *old(nc),
            r is Ok && topo_index(old(nc).topo@, self.id) >= 0 ==> ({
                let ti = topo_index(old(nc).topo@, self.id);
                let np = old(nc).topo@[ti].parent;
                &&& *final(nc) == (Nc {
                    topo: final(nc).topo,
                    zorder: final(nc).zorder,
                    ..*old(nc)
                })
                &&& final(nc).topo@ == promoted_topo(old(nc).topo@, self.id, np).remove(ti)
                &&& final(nc).zorder@ == remove_id(old(nc).zorder@, self.id)
            }),
    {
        if self.is_std {
            return Err(NcError::with_msg(NCRESULT_ERR, "the standard plane cannot be destroyed"));
        }
        let ti = match nc.topo_find(self.id) {
            Some(v) => v,
            None => {
                return Ok(());
            },
        };
        let np = nc.topo[ti].parent;
        let n = nc.topo.len();
        let mut k: usize = 0;
        while k < n
            invariant
                k <= n,
                n == nc.topo@.len(),
                nc.topo@.len() == old(nc).topo@.len(),
                *nc == (Nc { topo: nc.topo, ..*old(nc) }),
                ti < n,
                old(nc).topo@[ti as int].id == self.id,
                np == old(nc).topo@[ti as int].parent,
                forall|q: int|
                    0 <= q < n ==> nc.topo@[q] == (if q < k && old(nc).topo@[q].parent == Some(
                        self.id,
                    ) {
                        NcTopo { parent: np, ..old(nc).topo@[q] }
                    } else {
                        old(nc).topo@[q]
                    }),
            decreases n - k,
        {
            let e = nc.topo[k];
            if match e.parent {
                Some(p) => p == self.id,
                None => false,
            } {
                nc.topo.set(k, NcTopo { parent: np, ..e });
            }
            k = k + 1;
        }
        proof {
            assert(nc.topo@ =~= promoted_topo(old(nc).topo@, self.id, np));
        }
        nc.topo.remove(ti);
        match nc.zorder_find(self.id) {
            Some(zi) => {
                nc.zorder.remove(zi);
            },
            None => {},
        }
        proof {
            lemma_topo_index_from(old(nc).topo@, 0, self.id);
        }
        Ok(())
    }

    /// Rebinds this plane to the plane whose id is `newparent`, rebinding
    /// every plane bound to this one to this one's old parent. Given its
    /// own id: a plane that is already a pile root stays exactly as it
    /// is, and any other becomes the root of a new pile (named by its own
    /// id and not yet rendered). The standard plane cannot be rebound,
    /// and both planes must be known to the context.
    pub fn reparent(&self, nc: &mut Nc, newparent: u64) -> (r: NcResult<()>)
        requires
            old(nc).wf(),
        ensures
            final(nc).wf(),
            self.is_std ==> r is Err,
            r is Err ==> *final(nc) == *old(nc),
            !self.is_std ==> (r is Ok <==> topo_index(old(nc).topo@, self.id) >= 0 && (newparent
                == self.id || topo_index(old(nc).topo@, newparent) >= 0)),
            !self.is_std && topo_index(old(nc).topo@, self.id) >= 0 && newparent == self.id
                ==> ({
                let ti = topo_index(old(nc).topo@, self.id);
                let e = old(nc).topo@[ti];
                &&& (e.parent is None ==> *final(nc) == *old(nc))
                &&& (e.parent is Some ==> *final(nc) == (Nc { topo: final(nc).topo, ..*old(nc) })
                    && final(nc).topo@ == promoted_topo(old(nc).topo@, self.id, e.parent).update(
                    ti,
                    NcTopo {
                        id: self.id,
                        parent: None::<u64>,
                        pile: self.id,
                        state: NcPileState::Unrendered,
                    },
                ))
            }),
            !self.is_std && topo_index(old(nc).topo@, self.id) >= 0 && newparent != self.id
                && topo_index(old(nc).topo@, newparent) >= 0 ==> ({
                let ti = topo_index(old(nc).topo@, self.id);
                let e = old(nc).topo@[ti];
                let pe = old(nc).topo@[topo_index(old(nc).topo@, newparent)];
                &&& *final(nc) == (Nc { topo: final(nc).topo, ..*old(nc) })
                &&& final(nc).topo@ == promoted_topo(old(nc).topo@, self.id, e.parent).update(
                    ti,
                    NcTopo {
                        id: self.id,
                        parent: Some(newparent),
                        pile: pe.pile,
                        state: pe.state,
                    },
                )
            }),
    {
        if self.is_std {
            return Err(NcError::with_msg(NCRESULT_ERR, "the standard plane cannot be rebound"));
        }
        let ti = match nc.topo_find(self.id) {
            Some(v) => v,
            None => {
                return Err(NcError::with_msg(NCRESULT_ERR, "unknown plane"));
            },
        };
        let e = nc.topo[ti];
        let target: NcTopo = if newparent == self.id {
            if match e.parent {
                Some(_) => false,
                None => true,
            } {
                return Ok(());
            }
            NcTopo {
                id: self.id,
                parent: None,
                pile: self.id,
                state: NcPileState::Unrendered,
            }
        } else {
            let pi = match nc.topo_find(newparent) {
                Some(v) => v,
                None => {
                    return Err(NcError::with_msg(NCRESULT_ERR, "unknown binding plane"));
                },
            };
            let pe = nc.topo[pi];
            NcTopo { id: self.id, parent: Some(newparent), pile: pe.pile, state: pe.state }
        };
        let np = e.parent;
        let n = nc.topo.len();
        let mut k: usize = 0;
        while k < n
            invariant
                k <= n,
                n == nc.topo@.len(),
                nc.topo@.len() == old(nc).topo@.len(),
                *nc == (Nc { topo: nc.topo, ..*old(nc) }),
                ti < n,
                old(nc).topo@[ti as int].id == self.id,
                np == old(nc).topo@[ti as int].parent,
                forall|q: int|
                    0 <= q < n ==> nc.topo@[q] == (if q < k && old(nc).topo@[q].parent == Some(
                        self.id,
                    ) {
                        NcTopo { parent: np, ..old(nc).topo@[q] }
                    } else {
                        old(nc).topo@[q]
                    }),
            decreases n - k,
        {
            let q = nc.topo[k];
            if match q.parent {
                Some(p) => p == self.id,
                None => false,
            } {
                nc.topo.set(k, NcTopo { parent: np, ..q });
            }
            k = k + 1;
        }
        proof {
            assert(nc.topo@ =~= promoted_topo(old(nc).topo@, self.id, np));
        }
        nc.topo.set(ti, target);
        Ok(())
    }

    /// Duplicates this plane: the copy carries the same geometry,
    /// content and attributes, is bound to the same plane, belongs to
    /// the same pile, and sits in the z-order directly above this plane.
    /// Planes bound to this one are not duplicated. The plane must be
    /// known to the context, and the id space must not be exhausted.
    pub fn dup(&self, nc: &mut Nc) -> (r: NcResult<NcPlane>)
        requires
            old(nc).wf(),
            self.wf(),
        ensures
            final(nc).wf(),
            r is Ok <==> old(nc).next_id < u64::MAX && topo_index(old(nc).topo@, self.id) >= 0,
            r is Err ==> *final(nc) == *old(nc),
            r matches Ok(p) ==> ({
                let e = old(nc).topo@[topo_index(old(nc).topo@, self.id)];
                let zi = id_index(old(nc).zorder@, self.id);
                &&& p.wf()
                &&& p == (NcPlane { id: old(nc).next_id, is_std: false, cells: p.cells, ..*self })
                &&& p.cells@ == self.cells@
                &&& *final(nc) == (Nc {
                    next_id: (old(nc).next_id + 1) as u64,
                    topo: final(nc).topo,
                    zorder: final(nc).zorder,
                    ..*old(nc)
                })
                &&& final(nc).topo@ == old(nc).topo@.push(
                    NcTopo {
                        id: old(nc).next_id,
                        parent: e.parent,
                        pile: e.pile,
                        state: e.state,
                    },
                )
                &&& final(nc).zorder@ == (if zi < 0 {
                    old(nc).zorder@.push(old(nc).next_id)
                } else {
                    old(nc).zorder@.insert(zi + 1, old(nc).next_id)
                })
            }),
    {
        if nc.next_id == u64::MAX {
            return Err(NcError::with_msg(NCRESULT_ERR, "plane ids exhausted"));
        }
        let ti = match nc.topo_find(self.id) {
            Some(v) => v,
            None => {
                return Err(NcError::with_msg(NCRESULT_ERR, "unknown plane"));
            },
        };
        let e = nc.topo[ti];
        let id = nc.next_id;
        nc.topo.push(NcTopo { id, parent: e.parent, pile: e.pile, state: e.state });
        match nc.zorder_find(self.id) {
            Some(zi) => {
                let zlen = nc.zorder.len();
                proof {
                    assert(zi < zlen);
                }
                nc.zorder.insert(zi + 1, id);
            },
            None => {
                nc.zorder.push(id);
            },
        }
        nc.next_id = id + 1;
        let n = self.cells.len();
        let mut cells: Vec<NcCell> = Vec::new();
        let mut i: usize = 0;
        while i < n
            invariant
                i <= n,
                n == self.cells@.len(),
                cells@.len() == i,
                forall|k: int| 0 <= k < i ==> cells@[k] == self.cells@[k],
            decreases n - i,
        {
            cells.push(self.cells[i]);
            i = i + 1;
        }
        let p = NcPlane { id, is_std: false, cells, ..*self };
        proof {
            assert(p.cells@ =~= self.cells@);
        }
        Ok(p)
    }

    /// Rebinds this plane to the plane whose id is `newparent`, taking
    /// every plane of its family along: the whole subtree joins the new
    /// parent's pile, relative bindings unchanged. Binding into the
    /// plane's own family (itself included) is an error, as are unknown
    /// planes; the standard plane cannot be rebound.
    pub fn reparent_family(&self, nc: &mut Nc, newparent: u64) -> (r: NcResult<()>)
        requires
            old(nc).wf(),
        ensures
            final(nc).wf(),
            self.is_std ==> r is Err,
            r is Err ==> *final(nc) == *old(nc),
            !self.is_std ==> (r is Ok <==> topo_index(old(nc).topo@, self.id) >= 0 && topo_index(
                old(nc).topo@,
                newparent,
            ) >= 0 && !family_member(old(nc).topo@, self.id, newparent)),
            r is Ok ==> ({
                let t = old(nc).topo@;
                let pe = t[topo_index(t, newparent)];
                &&& *final(nc) == (Nc { topo: final(nc).topo, ..*old(nc) })
                &&& final(nc).topo@.len() == t.len()
                &&& forall|k: int|
                    0 <= k < t.len() ==> final(nc).topo@[k] == (if family_member(
                        t,
                        self.id,
                        t[k].id,
                    ) {
                        NcTopo {
                            id: t[k].id,
                            parent: if t[k].id == self.id {
                                Some(newparent)
                            } else {
                                t[k].parent
                            },
                            pile: pe.pile,
                            state: pe.state,
                        }
                    } else {
                        t[k]
                    })
            }),
    {
        if self.is_std {
            return Err(NcError::with_msg(NCRESULT_ERR, "the standard plane cannot be rebound"));
        }
        let ghost t = nc.topo@;
        if nc.topo_find(self.id).is_none() {
            return Err(NcError::with_msg(NCRESULT_ERR, "unknown plane"));
        }
        let pi = match nc.topo_find(newparent) {
            Some(v) => v,
            None => {
                return Err(NcError::with_msg(NCRESULT_ERR, "unknown binding plane"));
            },
        };
        let marks = family_marks(nc, self.id);
        let np_marked: bool = marks[pi];
        proof {
            lemma_topo_index_unique(t, pi as int);
        }
        if np_marked {
            return Err(
                NcError::with_msg(NCRESULT_ERR, "cannot bind a plane into its own family"),
            );
        }
        let pe = nc.topo[pi];
        let n = nc.topo.len();
        let mut k: usize = 0;
        while k < n
            invariant
                nc.wf(),
                t == old(nc).topo@,
                k <= n,
                n == t.len(),
                nc.topo@.len() == n,
                *nc == (Nc { topo: nc.topo, ..*old(nc) }),
                marks@.len() == n,
                forall|q: int|
                    0 <= q < n ==> (marks@[q] <==> family_member(t, self.id, t[q].id)),
                pi < n,
                pe == t[pi as int],
                newparent < old(nc).next_id,
                topo_index(t, newparent) == pi,
                forall|q: int| 0 <= q < n ==> nc.topo@[q].id == t[q].id,
                forall|q: int|
                    0 <= q < n ==> (#[trigger] nc.topo@[q].parent matches Some(p) ==> p < old(
                        nc,
                    ).next_id),
                forall|q: int|
                    0 <= q < n ==> nc.topo@[q] == (if q < k && family_member(t, self.id, t[q].id) {
                        NcTopo {
                            id: t[q].id,
                            parent: if t[q].id == self.id {
                                Some(newparent)
                            } else {
                                t[q].parent
                            },
                            pile: pe.pile,
                            state: pe.state,
                        }
                    } else {
                        t[q]
                    }),
            decreases n - k,
        {
            if marks[k] {
                let e = nc.topo[k];
                let np: Option<u64> = if e.id == self.id {
                    Some(newparent)
                } else {
                    e.parent
                };
                nc.topo.set(k, NcTopo { id: e.id, parent: np, pile: pe.pile, state: pe.state });
            }
            k = k + 1;
        }
        Ok(())
    }

    /// Resizes this plane to the visual region's size: the whole
    /// terminal the context was opened on, keeping what content fits
    /// with the kept corner in place (see
    /// [`resized_cell`](crate::plane_cells::resized_cell)). The standard
    /// plane cannot be resized.
    pub fn resize_maximize(&mut self, nc: &Nc) -> (r: NcResult<()>)
        requires
            old(self).wf(),
            nc.wf(),
        ensures
            final(self).wf(),
            r is Ok <==> !old(self).is_std,
            r is Err ==> *final(self) == *old(self),
            r is Ok ==> final(self).rows == nc.term_rows && final(self).cols == nc.term_cols
                && final(self).cells@.len() == nc.term_rows * nc.term_cols && forall|
                ny: int,
                nx: int,
            |
                0 <= ny < nc.term_rows && 0 <= nx < nc.term_cols ==> final(self).cells@[ny
                    * nc.term_cols + nx] == crate::plane_cells::resized_cell(
                    *old(self),
                    0,
                    0,
                    crate::types::dim_min(old(self).rows as int, nc.term_rows as int),
                    crate::types::dim_min(old(self).cols as int, nc.term_cols as int),
                    0,
                    0,
                    ny,
                    nx,
                ),
    {
        let rows = nc.term_rows;
        let cols = nc.term_cols;
        let keep_len_y: NcDim = if self.rows < rows {
            self.rows
        } else {
            rows
        };
        let keep_len_x: NcDim = if self.cols < cols {
            self.cols
        } else {
            cols
        };
        self.resize(0, 0, keep_len_y, keep_len_x, 0, 0, rows, cols)
    }

    /// Scrolls this plane up just far enough that `child`, bound to it
    /// and placed relative to it, no longer reaches past its bottom
    /// edge; rows scroll as in [`scrollup`](Self::scrollup). Returns the
    /// number of rows scrolled (possibly zero). An error unless this
    /// plane is scrolling and the context shows `child` bound to it.
    pub fn scrollup_child(&mut self, nc: &Nc, child: &NcPlane) -> (r: NcResult<NcDim>)
        requires
            old(self).wf(),
        ensures
            final(self).wf(),
            ({
                let ti = topo_index(nc.topo@, child.id);
                let need = child.y + child.rows - old(self).rows;
                let n = if need < 0 {
                    0
                } else {
                    need
                };
                &&& (r is Ok <==> old(self).scrolling && ti >= 0 && nc.topo@[ti].parent == Some(
                    old(self).id,
                ) && n <= u32::MAX)
                &&& (r is Err ==> *final(self) == *old(self))
                &&& (r is Ok ==> {
                    &&& r == Ok::<NcDim, NcError>(n as u32)
                    &&& *final(self) == (NcPlane { cells: final(self).cells, ..*old(self) })
                    &&& forall|y: int, x: int|
                        old(self).spec_on_plane(y, x) ==> final(self).cell_at(y, x) == (if y + n
                            < old(self).rows {
                            old(self).cell_at(y + n, x)
                        } else {
                            crate::cell::blank_cell()
                        })
                })
            }),
    {
        if !self.scrolling {
            return Err(NcError::with_msg(NCRESULT_ERR, "the plane is not scrolling"));
        }
        let ti = match nc.topo_find(child.id) {
            Some(v) => v,
            None => {
                return Err(NcError::with_msg(NCRESULT_ERR, "unknown plane"));
            },
        };
        let bound_here: bool = match nc.topo[ti].parent {
            Some(p) => p == self.id,
            None => false,
        };
        if !bound_here {
            return Err(NcError::with_msg(NCRESULT_ERR, "not bound to this plane"));
        }
        let need: i64 = child.y as i64 + child.rows as i64 - self.rows as i64;
        let n: i64 = if need < 0 {
            0
        } else {
            need
        };
        if n > u32::MAX as i64 {
            return Err(NcError::with_msg(NCRESULT_ERR, "scroll count out of range"));
        }
        self.scrollup(n as u32)
    }

    /// Moves this plane directly above the plane whose id is `above` in
    /// the z-order. The two planes must differ and both stand in the
    /// z-order; a plane already in the desired place is an error (there
    /// is nothing to do), and on any error nothing changes.
    pub fn move_above(&self, nc: &mut Nc, above: u64) -> (r: NcResult<()>)
        requires
            old(nc).wf(),
        ensures
            final(nc).wf(),
            r is Err ==> *final(nc) == *old(nc),
            ({
                let z = old(nc).zorder@;
                let ps = id_index(z, self.id);
                let z1 = remove_id(z, self.id);
                let k = id_index(z1, above);
                &&& (r is Ok <==> self.id != above && ps >= 0 && k >= 0 && ps != k + 1)
                &&& (r is Ok ==> *final(nc) == (Nc { zorder: final(nc).zorder, ..*old(nc) })
                    && final(nc).zorder@ == z1.insert(k + 1, self.id))
            }),
    {
        if self.id == above {
            return Err(NcError::with_msg(NCRESULT_ERR, "a plane cannot sit above itself"));
        }
        let ps = match nc.zorder_find(self.id) {
            Some(v) => v,
            None => {
                return Err(NcError::with_msg(NCRESULT_ERR, "plane not in the z-order"));
            },
        };
        let k = match nc.zorder_find_excluding(ps, above) {
            Some(v) => v,
            None => {
                return Err(NcError::with_msg(NCRESULT_ERR, "target not in the z-order"));
            },
        };
        let zlen = nc.zorder.len();
        proof {
            assert(k + 1 < zlen);
        }
        if ps == k + 1 {
            return Err(NcError::with_msg(NCRESULT_ERR, "already in the desired place"));
        }
        nc.zorder.remove(ps);
        nc.zorder.insert(k + 1, self.id);
        Ok(())
    }

    /// Moves this plane directly below the plane whose id is `below` in
    /// the z-order, under the same terms as
    /// [`move_above`](Self::move_above).
    pub fn move_below(&self, nc: &mut Nc, below: u64) -> (r: NcResult<()>)
        requires
            old(nc).wf(),
        ensures
            final(nc).wf(),
            r is Err ==> *final(nc) == *old(nc),
            ({
                let z = old(nc).zorder@;
                let ps = id_index(z, self.id);
                let z1 = remove_id(z, self.id);
                let k = id_index(z1, below);
                &&& (r is Ok <==> self.id != below && ps >= 0 && k >= 0 && ps != k)
                &&& (r is Ok ==> *final(nc) == (Nc { zorder: final(nc).zorder, ..*old(nc) })
                    && final(nc).zorder@ == z1.insert(k, self.id))
            }),
    {
        if self.id == below {
            return Err(NcError::with_msg(NCRESULT_ERR, "a plane cannot sit below itself"));
        }
        let ps = match nc.zorder_find(self.id) {
            Some(v) => v,
            None => {
                return Err(NcError::with_msg(NCRESULT_ERR, "plane not in the z-order"));
            },
        };
        let k = match nc.zorder_find_excluding(ps, below) {
            Some(v) => v,
            None => {
                return Err(NcError::with_msg(NCRESULT_ERR, "target not in the z-order"));
            },
        };
        if ps == k {
            return Err(NcError::with_msg(NCRESULT_ERR, "already in the desired place"));
        }
        nc.zorder.remove(ps);
        nc.zorder.insert(k, self.id);
        Ok(())
    }

    /// Moves this plane to the top of the z-order.
    pub fn move_top(&self, nc: &mut Nc)
        requires
            old(nc).wf(),
        ensures
            final(nc).wf(),
            *final(nc) == (Nc { zorder: final(nc).zorder, ..*old(nc) }),
            final(nc).zorder@ == move_back(old(nc).zorder@, self.id),
    {
        match nc.zorder_find(self.id) {
            Some(zi) => {
                nc.zorder.remove(zi);
                nc.zorder.push(self.id);
            },
            None => {},
        }
    }

    /// Moves this plane to the bottom of the z-order.
    pub fn move_bottom(&self, nc: &mut Nc)
        requires
            old(nc).wf(),
        ensures
            final(nc).wf(),
            *final(nc) == (Nc { zorder: final(nc).zorder, ..*old(nc) }),
            final(nc).zorder@ == move_front(old(nc).zorder@, self.id),
    {
        match nc.zorder_find(self.id) {
            Some(zi) => {
                nc.zorder.remove(zi);
                nc.zorder.insert(0, self.id);
            },
            None => {},
        }
    }

    /// Renders the pile this plane belongs to: computes the pile's
    /// in-memory frame anew, discarding any previous one. The plane must
    /// be known to the context.
    pub fn render(&self, nc: &mut Nc) -> (r: NcResult<()>)
        requires
            old(nc).wf(),
        ensures
            final(nc).wf(),
            r is Ok <==> topo_index(old(nc).topo@, self.id) >= 0,
            r is Err ==> *final(nc) == *old(nc),
            r is Ok ==> pile_state_set(
                *old(nc),
                *final(nc),
                self.id,
                NcPileState::Rendered,
            ),
    {
        self.set_pile_state(nc, NcPileState::Rendered)
    }

    /// Writes the pile's last rendered frame out to the terminal. Called
    /// before any render, what goes out is a blank frame; ordering is the
    /// caller's contract, not enforced here.
    pub fn rasterize(&self, nc: &mut Nc) -> (r: NcResult<()>)
        requires
            old(nc).wf(),
        ensures
            final(nc).wf(),
            r is Ok <==> topo_index(old(nc).topo@, self.id) >= 0,
            r is Err ==> *final(nc) == *old(nc),
            r is Ok ==> pile_state_set(
                *old(nc),
                *final(nc),
                self.id,
                NcPileState::Rasterized,
            ),
    {
        self.set_pile_state(nc, NcPileState::Rasterized)
    }

    /// Renders and then rasterizes the pile this plane belongs to.
    pub fn render2(&self, nc: &mut Nc) -> (r: NcResult<()>)
        requires
            old(nc).wf(),
        ensures
            final(nc).wf(),
            r is Ok <==> topo_index(old(nc).topo@, self.id) >= 0,
            r is Err ==> *final(nc) == *old(nc),
            r is Ok ==> pile_state_set(
                *old(nc),
                *final(nc),
                self.id,
                NcPileState::Rasterized,
            ),
    {
        self.render(nc)?;
        let ghost mid = *nc;
        proof {
            lemma_topo_index_same_ids(old(nc).topo@, mid.topo@, 0, self.id);
            lemma_topo_index_from(old(nc).topo@, 0, self.id);
        }
        let r = self.rasterize(nc);
        proof {
            lemma_topo_index_from(mid.topo@, 0, self.id);
        }
        r
    }

    /// Sets the render state of every member of this plane's pile.
    fn set_pile_state(&self, nc: &mut Nc, state: NcPileState) -> (r: NcResult<()>)
        requires
            old(nc).wf(),
        ensures
            final(nc).wf(),
            r is Ok <==> topo_index(old(nc).topo@, self.id) >= 0,
            r is Err ==> *final(nc) == *old(nc),
            r is Ok ==> pile_state_set(*old(nc), *final(nc), self.id, state),
    {
        let ti = match nc.topo_find(self.id) {
            Some(v) => v,
            None => {
                return Err(NcError::with_msg(NCRESULT_ERR, "unknown plane"));
            },
        };
        let pile = nc.topo[ti].pile;
        let n = nc.topo.len();
        let mut k: usize = 0;
        while k < n
            invariant
                k <= n,
                n == nc.topo@.len(),
                nc.topo@.len() == old(nc).topo@.len(),
                *nc == (Nc { topo: nc.topo, ..*old(nc) }),
                ti < n,
                old(nc).topo@[ti as int].id == self.id,
                pile == old(nc).topo@[ti as int].pile,
                forall|q: int|
                    0 <= q < n ==> nc.topo@[q] == (if q < k && old(nc).topo@[q].pile == pile {
                        NcTopo { state, ..old(nc).topo@[q] }
                    } else {
                        old(nc).topo@[q]
                    }),
            decreases n - k,
        {
            let e = nc.topo[k];
            if e.pile == pile {
                nc.topo.set(k, NcTopo { state, ..e });
            }
            k = k + 1;
        }
        Ok(())
    }
}

/// Holds when `post` is `pre` with the render state of every member of
/// the pile of plane `id` set to `state` and nothing else changed.
pub open spec fn pile_state_set(pre: Nc, post: Nc, id: u64, state: NcPileState) -> bool {
    let ti = topo_index(pre.topo@, id);
    &&& post == (Nc { topo: post.topo, ..pre })
    &&& post.topo@.len() == pre.topo@.len()
    &&& forall|q: int|
        0 <= q < pre.topo@.len() ==> post.topo@[q] == (if pre.topo@[q].pile == pre.topo@[ti].pile {
            NcTopo { state, ..pre.topo@[q] }
        } else {
            pre.topo@[q]
        })
}

} // verus!
