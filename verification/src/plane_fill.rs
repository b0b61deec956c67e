//! Flood filling.
//!
//! A fill takes the glyph at its starting cell as the target and copies
//! the given cell over every cell reachable from the start through
//! cardinally adjacent cells carrying that same target glyph.

use vstd::prelude::*;
use crate::cell::NcCell;
use crate::plane::NcPlane;
use crate::result::{NcError, NcResult, NCRESULT_ERR};
use crate::types::NcDim;

verus! {

/// Whether (`y`, `x`) is reachable from the fill start (`sy`, `sx`)
/// through at most `fuel` steps over cardinally adjacent cells that all
/// carry the start cell's glyph.
pub open spec fn in_fill(p: NcPlane, sy: int, sx: int, y: int, x: int, fuel: nat) -> bool
    decreases fuel,
{
    if y == sy && x == sx {
        true
    } else if fuel == 0 {
        false
    } else {
        &&& p.spec_on_plane(y, x)
        &&& p.cell_at(y, x).gcluster == p.cell_at(sy, sx).gcluster
        &&& (in_fill(p, sy, sx, y - 1, x, (fuel - 1) as nat) || in_fill(
            p,
            sy,
            sx,
            y + 1,
            x,
            (fuel - 1) as nat,
        ) || in_fill(p, sy, sx, y, x - 1, (fuel - 1) as nat) || in_fill(
            p,
            sy,
            sx,
            y,
            x + 1,
            (fuel - 1) as nat,
        ))
    }
}

/// Whether (`y`, `x`) belongs to the fill region of (`sy`, `sx`). As
/// many steps as the plane has cells cover every path.
pub open spec fn fill_member(p: NcPlane, sy: int, sx: int, y: int, x: int) -> bool {
    in_fill(p, sy, sx, y, x, (p.rows * p.cols) as nat)
}

/// Fill reachability is monotone in the allowed number of steps.
proof fn lemma_in_fill_mono(p: NcPlane, sy: int, sx: int, y: int, x: int, f: nat, g: nat)
    requires
        in_fill(p, sy, sx, y, x, f),
        f <= g,
    ensures
        in_fill(p, sy, sx, y, x, g),
    decreases f,
{
    if !(y == sy && x == sx) && f > 0 {
        if in_fill(p, sy, sx, y - 1, x, (f - 1) as nat) {
            lemma_in_fill_mono(p, sy, sx, y - 1, x, (f - 1) as nat, (g - 1) as nat);
        } else if in_fill(p, sy, sx, y + 1, x, (f - 1) as nat) {
            lemma_in_fill_mono(p, sy, sx, y + 1, x, (f - 1) as nat, (g - 1) as nat);
        } else if in_fill(p, sy, sx, y, x - 1, (f - 1) as nat) {
            lemma_in_fill_mono(p, sy, sx, y, x - 1, (f - 1) as nat, (g - 1) as nat);
        } else {
            lemma_in_fill_mono(p, sy, sx, y, x + 1, (f - 1) as nat, (g - 1) as nat);
        }
    }
}

/// How many of the first `j` marks are set.
spec fn marks_count(m: Seq<bool>, j: int) -> int
    decreases j,
{
    if j <= 0 {
        0
    } else {
        marks_count(m, j - 1) + (if m[j - 1] {
            1int
        } else {
            0int
        })
    }
}

/// Setting one unset mark raises the count by one.
proof fn lemma_marks_count_update(m: Seq<bool>, k: int, j: int)
    requires
        0 <= k < m.len(),
        j <= m.len(),
        !m[k],
    ensures
        marks_count(m.update(k, true), j) == marks_count(m, j) + (if k < j {
            1int
        } else {
            0int
        }),
    decreases j,
{
    if j > 0 {
        lemma_marks_count_update(m, k, j - 1);
    }
}

/// A count of marks stays within the positions counted.
proof fn lemma_marks_count_bound(m: Seq<bool>, j: int)
    requires
        0 <= j <= m.len(),
    ensures
        0 <= marks_count(m, j) <= j,
    decreases j,
{
    if j > 0 {
        lemma_marks_count_bound(m, j - 1);
    }
}

impl NcPlane {
    /// Marks, by cell position, every member of the fill region of
    /// (`sy`, `sx`).
    fn fill_marks(&self, sy: NcDim, sx: NcDim) -> (marks: Vec<bool>)
        requires
            self.wf(),
            self.spec_on_plane(sy as int, sx as int),
        ensures
            marks@.len() == self.cells@.len(),
            forall|y: int, x: int|
                self.spec_on_plane(y, x) ==> (#[trigger] marks@[self.spec_idx(y, x)]
                    <==> fill_member(
                    *self,
                    sy as int,
                    sx as int,
                    y,
                    x,
                )),
    {
        let n = self.cells.len();
        let mut marks: Vec<bool> = Vec::new();
        let mut k: usize = 0;
        while k < n
            invariant
                k <= n,
                n == self.cells@.len(),
                marks@.len() == k,
                forall|q: int| 0 <= q < k ==> !marks@[q],
            decreases n - k,
        {
            marks.push(false);
            k = k + 1;
        }
        let start = self.index_of(sy, sx);
        marks.set(start, true);
        proof {
            lemma_marks_count_bound(marks@, n as int);
            assert forall|y: int, x: int|
                self.spec_on_plane(y, x) && #[trigger] marks@[self.spec_idx(y, x)] implies in_fill(
                *self,
                sy as int,
                sx as int,
                y,
                x,
                marks_count(marks@, n as int) as nat,
            ) by {
                self.lemma_idx_bounds(y, x);
                if y != sy || x != sx {
                    self.lemma_idx_injective(y, x, sy as int, sx as int);
                }
            }
            assert forall|y: int, x: int|
                self.spec_on_plane(y, x) && in_fill(*self, sy as int, sx as int, y, x, 0)
                    implies #[trigger] marks@[self.spec_idx(y, x)] by {
                self.lemma_idx_bounds(y, x);
            }
        }
        let mut pass: usize = 0;
        while pass < n
            invariant
                self.wf(),
                self.spec_on_plane(sy as int, sx as int),
                pass <= n,
                n == self.cells@.len(),
                marks@.len() == n,
                forall|y: int, x: int|
                    self.spec_on_plane(y, x) && #[trigger] marks@[self.spec_idx(y, x)]
                        ==> in_fill(
                        *self,
                        sy as int,
                        sx as int,
                        y,
                        x,
                        marks_count(marks@, n as int) as nat,
                    ),
                forall|y: int, x: int|
                    self.spec_on_plane(y, x) && in_fill(
                        *self,
                        sy as int,
                        sx as int,
                        y,
                        x,
                        pass as nat,
                    ) ==> #[trigger] marks@[self.spec_idx(y, x)],
            decreases n - pass,
        {
            let rows = self.rows;
            let cols = self.cols;
            let mut y: NcDim = 0;
            while y < rows
                invariant
                    self.wf(),
                    self.spec_on_plane(sy as int, sx as int),
                    pass < n,
                    y <= rows,
                    rows == self.rows,
                    cols == self.cols,
                    n == self.cells@.len(),
                    marks@.len() == n,
                    forall|qy: int, qx: int|
                        self.spec_on_plane(qy, qx) && #[trigger] marks@[self.spec_idx(qy, qx)]
                            ==> in_fill(
                            *self,
                            sy as int,
                            sx as int,
                            qy,
                            qx,
                            marks_count(marks@, n as int) as nat,
                        ),
                    forall|qy: int, qx: int|
                        self.spec_on_plane(qy, qx) && in_fill(
                            *self,
                            sy as int,
                            sx as int,
                            qy,
                            qx,
                            pass as nat,
                        ) ==> marks@[self.spec_idx(qy, qx)],
                    forall|qy: int, qx: int|
                        self.spec_on_plane(qy, qx) && qy < y && in_fill(
                            *self,
                            sy as int,
                            sx as int,
                            qy,
                            qx,
                            pass as nat + 1,
                        ) ==> marks@[self.spec_idx(qy, qx)],
                decreases rows - y,
            {
                let mut x: NcDim = 0;
                while x < cols
                    invariant
                        self.wf(),
                        self.spec_on_plane(sy as int, sx as int),
                        pass < n,
                        y < rows,
                        x <= cols,
                        rows == self.rows,
                        cols == self.cols,
                        n == self.cells@.len(),
                        marks@.len() == n,
                        forall|qy: int, qx: int|
                            self.spec_on_plane(qy, qx) && #[trigger] marks@[self.spec_idx(
                                qy,
                                qx,
                            )] ==> in_fill(
                                *self,
                                sy as int,
                                sx as int,
                                qy,
                                qx,
                                marks_count(marks@, n as int) as nat,
                            ),
                        forall|qy: int, qx: int|
                            self.spec_on_plane(qy, qx) && in_fill(
                                *self,
                                sy as int,
                                sx as int,
                                qy,
                                qx,
                                pass as nat,
                            ) ==> #[trigger] marks@[self.spec_idx(qy, qx)],
                        forall|qy: int, qx: int|
                            self.spec_on_plane(qy, qx) && (qy < y || (qy == y && qx < x))
                                && in_fill(
                                *self,
                                sy as int,
                                sx as int,
                                qy,
                                qx,
                                pass as nat + 1,
                            ) ==> #[trigger] marks@[self.spec_idx(qy, qx)],
                    decreases cols - x,
                {
                    let ki = self.index_of(y, x);
                    let already = marks[ki];
                    let matches_target: bool = {
                        let si = self.index_of(sy, sx);
                        self.cells[ki].gcluster == self.cells[si].gcluster
                    };
                    let up: bool = y > 0 && marks[self.index_of(y - 1, x)];
                    let down: bool = y + 1 < rows && marks[self.index_of(y + 1, x)];
                    let left: bool = x > 0 && marks[self.index_of(y, x - 1)];
                    let right: bool = x + 1 < cols && marks[self.index_of(y, x + 1)];
                    let hit: bool = !already && matches_target && (up || down || left || right);
                    let ghost before = marks@;
                    let ghost cnt = marks_count(before, n as int);
                    if hit {
                        marks.set(ki, true);
                        proof {
                            lemma_marks_count_update(before, ki as int, n as int);
                            lemma_marks_count_bound(before, n as int);
                            assert(self.cell_at(y as int, x as int).gcluster == self.cell_at(
                                sy as int,
                                sx as int,
                            ).gcluster);
                            if up {
                                assert(before[self.spec_idx(y as int - 1, x as int)]);
                                assert(in_fill(
                                    *self,
                                    sy as int,
                                    sx as int,
                                    y as int - 1,
                                    x as int,
                                    cnt as nat,
                                ));
                            } else if down {
                                assert(before[self.spec_idx(y as int + 1, x as int)]);
                                assert(in_fill(
                                    *self,
                                    sy as int,
                                    sx as int,
                                    y as int + 1,
                                    x as int,
                                    cnt as nat,
                                ));
                            } else if left {
                                assert(before[self.spec_idx(y as int, x as int - 1)]);
                                assert(in_fill(
                                    *self,
                                    sy as int,
                                    sx as int,
                                    y as int,
                                    x as int - 1,
                                    cnt as nat,
                                ));
                            } else {
                                assert(before[self.spec_idx(y as int, x as int + 1)]);
                                assert(in_fill(
                                    *self,
                                    sy as int,
                                    sx as int,
                                    y as int,
                                    x as int + 1,
                                    cnt as nat,
                                ));
                            }
                            assert(in_fill(
                                *self,
                                sy as int,
                                sx as int,
                                y as int,
                                x as int,
                                (cnt + 1) as nat,
                            ));
                            assert forall|qy: int, qx: int|
                                self.spec_on_plane(qy, qx) && #[trigger] marks@[self.spec_idx(
                                    qy,
                                    qx,
                                )] implies in_fill(
                                *self,
                                sy as int,
                                sx as int,
                                qy,
                                qx,
                                marks_count(marks@, n as int) as nat,
                            ) by {
                                self.lemma_idx_bounds(qy, qx);
                                if qy != y || qx != x {
                                    if self.spec_idx(qy, qx) == self.spec_idx(y as int, x as int) {
                                        self.lemma_idx_injective(qy, qx, y as int, x as int);
                                    }
                                    assert(before[self.spec_idx(qy, qx)]);
                                    lemma_in_fill_mono(
                                        *self,
                                        sy as int,
                                        sx as int,
                                        qy,
                                        qx,
                                        cnt as nat,
                                        (cnt + 1) as nat,
                                    );
                                }
                            }
                            assert forall|qy: int, qx: int|
                                self.spec_on_plane(qy, qx) && in_fill(
                                    *self,
                                    sy as int,
                                    sx as int,
                                    qy,
                                    qx,
                                    pass as nat,
                                ) implies #[trigger] marks@[self.spec_idx(qy, qx)] by {
                                self.lemma_idx_bounds(qy, qx);
                                assert(in_fill(*self, sy as int, sx as int, qy, qx, pass as nat));
                                assert(before[self.spec_idx(qy, qx)]);
                                assert(marks@ == before.update(ki as int, true));
                            }
                        }
                    }
                    proof {
                        assert forall|qy: int, qx: int|
                            self.spec_on_plane(qy, qx) && (qy < y || (qy == y && qx < x + 1))
                                && in_fill(
                                *self,
                                sy as int,
                                sx as int,
                                qy,
                                qx,
                                pass as nat + 1,
                            ) implies #[trigger] marks@[self.spec_idx(qy, qx)] by {
                            self.lemma_idx_bounds(qy, qx);
                            if qy == y && qx == x {
                                if !marks@[self.spec_idx(qy, qx)] {
                                    if qy == sy && qx == sx {
                                        assert(in_fill(
                                            *self,
                                            sy as int,
                                            sx as int,
                                            qy,
                                            qx,
                                            pass as nat,
                                        ));
                                    } else {
                                        assert(matches_target);
                                        if in_fill(
                                            *self,
                                            sy as int,
                                            sx as int,
                                            qy - 1,
                                            qx,
                                            pass as nat,
                                        ) {
                                            assert(self.spec_on_plane(qy - 1, qx) || (qy - 1 == sy
                                                && qx == sx));
                                            assert(marks@[self.spec_idx(qy - 1, qx)]);
                                            assert(up);
                                        } else if in_fill(
                                            *self,
                                            sy as int,
                                            sx as int,
                                            qy + 1,
                                            qx,
                                            pass as nat,
                                        ) {
                                            assert(self.spec_on_plane(qy + 1, qx) || (qy + 1 == sy
                                                && qx == sx));
                                            assert(marks@[self.spec_idx(qy + 1, qx)]);
                                            assert(down);
                                        } else if in_fill(
                                            *self,
                                            sy as int,
                                            sx as int,
                                            qy,
                                            qx - 1,
                                            pass as nat,
                                        ) {
                                            assert(self.spec_on_plane(qy, qx - 1) || (qy == sy
                                                && qx - 1 == sx));
                                            assert(marks@[self.spec_idx(qy, qx - 1)]);
                                            assert(left);
                                        } else {
                                            assert(in_fill(
                                                *self,
                                                sy as int,
                                                sx as int,
                                                qy,
                                                qx + 1,
                                                pass as nat,
                                            ));
                                            assert(self.spec_on_plane(qy, qx + 1) || (qy == sy
                                                && qx + 1 == sx));
                                            assert(marks@[self.spec_idx(qy, qx + 1)]);
                                            assert(right);
                                        }
                                    }
                                }
                            } else {
                                assert(in_fill(
                                    *self,
                                    sy as int,
                                    sx as int,
                                    qy,
                                    qx,
                                    pass as nat + 1,
                                ));
                                assert(before[self.spec_idx(qy, qx)]);
                            }
                        }
                    }
                    x = x + 1;
                }
                y = y + 1;
            }
            pass = pass + 1;
        }
        proof {
            lemma_marks_count_bound(marks@, n as int);
            assert forall|y: int, x: int| self.spec_on_plane(y, x) implies (marks@[self.spec_idx(
                y,
                x,
            )] <==> fill_member(*self, sy as int, sx as int, y, x)) by {
                self.lemma_idx_bounds(y, x);
                if marks@[self.spec_idx(y, x)] {
                    lemma_in_fill_mono(
                        *self,
                        sy as int,
                        sx as int,
                        y,
                        x,
                        marks_count(marks@, n as int) as nat,
                        (self.rows * self.cols) as nat,
                    );
                }
            }
        }
        marks
    }

    /// Copies `cell` over the cell at (`y`, `x`) and over every cell
    /// reachable from it through cardinally adjacent cells carrying the
    /// same glyph it carried; see [`fill_member`]. Returns how many
    /// cells were filled. A start outside the plane is an error, and
    /// the plane is then unchanged.
    pub fn polyfill_yx(&mut self, y: NcDim, x: NcDim, cell: &NcCell) -> (r: NcResult<usize>)
        requires
            old(self).wf(),
        ensures
            final(self).wf(),
            r is Ok <==> old(self).spec_on_plane(y as int, x as int),
            r is Err ==> *final(self) == *old(self),
            r is Ok ==> {
                &&& *final(self) == (NcPlane { cells: final(self).cells, ..*old(self) })
                &&& final(self).cells@.len() == old(self).cells@.len()
                &&& forall|qy: int, qx: int|
                    old(self).spec_on_plane(qy, qx) ==> final(self).cell_at(qy, qx) == (
                    if fill_member(*old(self), y as int, x as int, qy, qx) {
                        *cell
                    } else {
                        old(self).cell_at(qy, qx)
                    })
                &&& (r matches Ok(n) ==> n == fill_count(
                    *old(self),
                    y as int,
                    x as int,
                    old(self).rows as int,
                    old(self).cols as int,
                    0,
                ))
            },
    {
        if y >= self.rows || x >= self.cols {
            return Err(NcError::with_msg(NCRESULT_ERR, "fill start outside the plane"));
        }
        let marks = self.fill_marks(y, x);
        let rows = self.rows;
        let cols = self.cols;
        let mut count: usize = 0;
        let mut qy: NcDim = 0;
        while qy < rows
            invariant
                self.wf(),
                qy <= rows,
                rows == self.rows,
                cols == self.cols,
                y < rows,
                x < cols,
                *self == (NcPlane { cells: self.cells, ..*old(self) }),
                self.cells@.len() == old(self).cells@.len(),
                marks@.len() == old(self).cells@.len(),
                forall|py: int, px: int|
                    old(self).spec_on_plane(py, px) ==> (#[trigger] marks@[old(self).spec_idx(
                        py,
                        px,
                    )] <==> fill_member(*old(self), y as int, x as int, py, px)),
                forall|py: int, px: int|
                    old(self).spec_on_plane(py, px) ==> self.cell_at(py, px) == (if py < qy
                        && fill_member(*old(self), y as int, x as int, py, px) {
                        *cell
                    } else {
                        old(self).cell_at(py, px)
                    }),
                count == fill_count(
                    *old(self),
                    y as int,
                    x as int,
                    qy as int,
                    cols as int,
                    0,
                ),
                count <= qy * cols,
            decreases rows - qy,
        {
            let mut qx: NcDim = 0;
            while qx < cols
                invariant
                    self.wf(),
                    rows == self.rows,
                    cols == self.cols,
                    y < rows,
                    x < cols,
                    qy < rows,
                    qx <= cols,
                    *self == (NcPlane { cells: self.cells, ..*old(self) }),
                    self.cells@.len() == old(self).cells@.len(),
                    marks@.len() == old(self).cells@.len(),
                    forall|py: int, px: int|
                        old(self).spec_on_plane(py, px) ==> (#[trigger] marks@[old(
                            self,
                        ).spec_idx(py, px)] <==> fill_member(*old(self), y as int, x as int, py, px)),
                    forall|py: int, px: int|
                        old(self).spec_on_plane(py, px) ==> self.cell_at(py, px) == (if (py < qy
                            || (py == qy && px < qx)) && fill_member(
                            *old(self),
                            y as int,
                            x as int,
                            py,
                            px,
                        ) {
                            *cell
                        } else {
                            old(self).cell_at(py, px)
                        }),
                    count == fill_count(
                        *old(self),
                        y as int,
                        x as int,
                        qy as int,
                        cols as int,
                        qx as int,
                    ),
                    count <= qy * cols + qx,
                decreases cols - qx,
            {
                let ki = self.index_of(qy, qx);
                proof {
                    assert(old(self).spec_idx(qy as int, qx as int) == ki as int);
                    assert(marks@[old(self).spec_idx(qy as int, qx as int)] <==> fill_member(
                        *old(self),
                        y as int,
                        x as int,
                        qy as int,
                        qx as int,
                    ));
                }
                if marks[ki] {
                    self.set_cell(qy, qx, *cell);
                    count = count + 1;
                }
                proof {
                    assert(count <= (qy as int) * (cols as int) + qx as int + 1)
                        by (nonlinear_arith)
                        requires
                            count as int <= (qy as int) * (cols as int) + qx as int + 1,
                    ;
                }
                qx = qx + 1;
            }
            proof {
                assert((qy as int + 1) * (cols as int) == (qy as int) * (cols as int) + (
                cols as int)) by (nonlinear_arith);
            }
            qy = qy + 1;
        }
        proof {
            assert(count == fill_count(
                *old(self),
                y as int,
                x as int,
                old(self).rows as int,
                old(self).cols as int,
                0,
            ));
        }
        Ok(count)
    }
}

/// How many members the fill region of (`sy`, `sx`) has among the cells
/// before row `qy`, plus those of row `qy` before column `qx`, walking
/// the plane row by row.
pub open spec fn fill_count(p: NcPlane, sy: int, sx: int, qy: int, cols: int, qx: int) -> int
    decreases qy, qx,
{
    if qx > 0 {
        fill_count(p, sy, sx, qy, cols, qx - 1) + (if fill_member(p, sy, sx, qy, qx - 1) {
            1int
        } else {
            0int
        })
    } else if qy > 0 {
        fill_count(p, sy, sx, qy - 1, cols, cols)
    } else {
        0
    }
}

} // verus!
