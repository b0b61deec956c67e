//! Writing cells and text to a plane.
//!
//! All output goes through one step function: a character lands at the
//! cursor, advancing it, and wraps or scrolls at the end of a line when
//! (and only when) scrolling is enabled on the plane. The spec model of
//! the steps works on the triple of the cell grid and the two cursor
//! coordinates.

use vstd::prelude::*;
use crate::cell::{blank_cell, spec_utf8_len, utf8_len, NcCell};
use crate::plane::NcPlane;
use crate::plane_cells::resolve_coord;
use crate::result::{NcError, NcResult, NCRESULT_ERR};
use crate::types::{spec_align_pos, NcAlign, NcChannels, NcDim, NcStyle};

verus! {

/// The state that output steps act on: the cell grid, the cursor row and
/// the cursor column.
pub type PutState = (Seq<NcCell>, int, int);

/// What one or more output steps produce: the new state, the number of
/// columns written, and whether every step fit.
pub type PutOutcome = ((Seq<NcCell>, int, int), int, bool);

/// The output state of a plane.
pub open spec fn put_state(p: NcPlane) -> PutState {
    (p.cells@, p.cursor_y as int, p.cursor_x as int)
}

/// A grid scrolled up one row: every row moves up one place and a blank
/// row comes in at the bottom.
pub open spec fn scrolled_cells(cells: Seq<NcCell>, cols: int) -> Seq<NcCell> {
    Seq::new(
        cells.len(),
        |i: int|
            if i + cols < cells.len() {
                cells[i + cols]
            } else {
                blank_cell()
            },
    )
}

/// The state after a line feed: the cursor moves to the start of the next
/// row, scrolling the grid when it already stands on the last row.
pub open spec fn line_feed(rows: int, cols: int, st: PutState) -> PutState {
    if st.1 + 1 < rows {
        (st.0, st.1 + 1, 0)
    } else {
        (scrolled_cells(st.0, cols), rows - 1, 0)
    }
}

/// One output step on a `rows` by `cols` plane: a newline feeds the line
/// (only a scrolling plane can), and any other cell lands at the cursor,
/// wrapping first when the cursor rests past the end of its row. A
/// stained step keeps the styles and channels of the cell it lands on.
/// A step that cannot fit changes nothing and reports failure.
pub open spec fn put_cell1(
    rows: int,
    cols: int,
    scroll: bool,
    st: PutState,
    c: NcCell,
    stained: bool,
) -> PutOutcome {
    if c.gcluster == '\n' {
        if scroll {
            (line_feed(rows, cols, st), 0, true)
        } else {
            (st, 0, false)
        }
    } else if st.2 == cols && !scroll {
        (st, 0, false)
    } else {
        let st1 = if st.2 == cols {
            line_feed(rows, cols, st)
        } else {
            st
        };
        let idx = st1.1 * cols + st1.2;
        let w = if stained {
            NcCell {
                gcluster: c.gcluster,
                stylemask: st1.0[idx].stylemask,
                channels: st1.0[idx].channels,
            }
        } else {
            c
        };
        ((st1.0.update(idx, w), st1.1, st1.2 + 1), 1, true)
    }
}

/// The first `i` characters of `s` written from `st`, one step each,
/// stopping at the first step that does not fit.
pub open spec fn put_upto(
    rows: int,
    cols: int,
    scroll: bool,
    st: PutState,
    s: Seq<char>,
    i: int,
    sty: NcStyle,
    chans: NcChannels,
    stained: bool,
) -> PutOutcome
    decreases i,
{
    if i <= 0 {
        (st, 0, true)
    } else {
        let pre = put_upto(rows, cols, scroll, st, s, i - 1, sty, chans, stained);
        if !pre.2 {
            pre
        } else {
            let stp = put_cell1(
                rows,
                cols,
                scroll,
                pre.0,
                NcCell { gcluster: s[i - 1], stylemask: sty, channels: chans },
                stained,
            );
            (stp.0, pre.1 + stp.1, stp.2)
        }
    }
}

/// All of `s` written from `st`: the final state, the total columns
/// written, and whether every character fit.
pub open spec fn put_seq(
    rows: int,
    cols: int,
    scroll: bool,
    st: PutState,
    s: Seq<char>,
    sty: NcStyle,
    chans: NcChannels,
    stained: bool,
) -> PutOutcome {
    put_upto(rows, cols, scroll, st, s, s.len() as int, sty, chans, stained)
}

/// Once a prefix fails, writing more characters changes nothing.
proof fn lemma_put_upto_fail(
    rows: int,
    cols: int,
    scroll: bool,
    st: PutState,
    s: Seq<char>,
    i: int,
    j: int,
    sty: NcStyle,
    chans: NcChannels,
    stained: bool,
)
    requires
        0 <= i <= j,
        !put_upto(rows, cols, scroll, st, s, i, sty, chans, stained).2,
    ensures
        put_upto(rows, cols, scroll, st, s, j, sty, chans, stained) == put_upto(
            rows,
            cols,
            scroll,
            st,
            s,
            i,
            sty,
            chans,
            stained,
        ),
    decreases j - i,
{
    if j > i {
        lemma_put_upto_fail(rows, cols, scroll, st, s, i, j - 1, sty, chans, stained);
    }
}

/// Holds when writing the characters `s` from state `st` onto `pre`
/// produced `post` and `r`: only the grid and cursor changed, they ended
/// in the state the step model gives, a result is returned exactly when
/// every character fit, a success carries the columns written, and a
/// failure's code carries the columns written before it as `-1 - n`.
pub open spec fn put_text_post(
    pre: NcPlane,
    post: NcPlane,
    r: NcResult<NcDim>,
    st: PutState,
    s: Seq<char>,
    sty: NcStyle,
    chans: NcChannels,
    stained: bool,
) -> bool {
    let o = put_seq(pre.rows as int, pre.cols as int, pre.scrolling, st, s, sty, chans, stained);
    &&& post == (NcPlane {
        cells: post.cells,
        cursor_y: post.cursor_y,
        cursor_x: post.cursor_x,
        ..pre
    })
    &&& put_state(post) == o.0
    &&& (r is Ok <==> o.2)
    &&& (r matches Ok(n) ==> n == o.1)
    &&& (r matches Err(e) ==> e.code == -1 - o.1)
}

/// How many leading characters of `s`, taken from position `i` on, fit
/// within `budget` bytes of UTF-8.
pub open spec fn utf8_prefix_from(s: Seq<char>, i: int, budget: int) -> int
    decreases s.len() - i,
{
    if i < 0 || i >= s.len() {
        0
    } else if spec_utf8_len(s[i]) > budget {
        0
    } else {
        1 + utf8_prefix_from(s, i + 1, budget - spec_utf8_len(s[i]))
    }
}

/// How many leading characters of `s` fit within `budget` bytes of UTF-8.
pub open spec fn utf8_prefix(s: Seq<char>, budget: int) -> int {
    utf8_prefix_from(s, 0, budget)
}

/// The longest prefix of `string` whose UTF-8 encoding fits in
/// `num_bytes` bytes, as a count of characters.
fn utf8_take(string: &str, num_bytes: usize) -> (k: usize)
    ensures
        k == utf8_prefix(string@, num_bytes as int),
        k <= string@.len(),
{
    let n = string.unicode_len();
    let mut i: usize = 0;
    let mut rem: usize = num_bytes;
    while i < n
        invariant
            i <= n,
            n == string@.len(),
            rem <= num_bytes,
            utf8_prefix(string@, num_bytes as int) == i + utf8_prefix_from(
                string@,
                i as int,
                rem as int,
            ),
        decreases n - i,
    {
        let c = string.get_char(i);
        let l = utf8_len(c);
        if l > rem {
            proof {
                assert(utf8_prefix_from(string@, i as int, rem as int) == 0);
            }
            return i;
        }
        proof {
            assert(utf8_prefix_from(string@, i as int, rem as int) == 1 + utf8_prefix_from(
                string@,
                i as int + 1,
                rem as int - spec_utf8_len(string@[i as int]),
            ));
        }
        rem = rem - l;
        i = i + 1;
    }
    proof {
        assert(utf8_prefix_from(string@, n as int, rem as int) == 0);
    }
    n
}

impl NcPlane {
    /// Scrolls the grid up one row, leaving the cursor alone.
    fn scroll_once(&mut self)
        requires
            old(self).wf(),
        ensures
            final(self).wf(),
            *final(self) == (NcPlane { cells: final(self).cells, ..*old(self) }),
            final(self).cells@ == scrolled_cells(old(self).cells@, old(self).cols as int),
    {
        let n = self.cells.len();
        let cols = self.cols;
        let mut i: usize = 0;
        while i < n
            invariant
                self.wf(),
                i <= n,
                n == self.cells@.len(),
                cols == self.cols,
                *self == (NcPlane { cells: self.cells, ..*old(self) }),
                self.cells@.len() == old(self).cells@.len(),
                forall|k: int|
                    0 <= k < i ==> self.cells@[k] == (if k + cols < n {
                        old(self).cells@[k + cols]
                    } else {
                        blank_cell()
                    }),
                forall|k: int| i <= k < n ==> self.cells@[k] == old(self).cells@[k],
            decreases n - i,
        {
            let src: u64 = i as u64 + cols as u64;
            let c: NcCell = if src < n as u64 {
                self.cells[src as usize]
            } else {
                NcCell::new()
            };
            self.cells.set(i, c);
            i = i + 1;
        }
        proof {
            assert(self.cells@ =~= scrolled_cells(old(self).cells@, old(self).cols as int));
        }
    }

    /// Feeds the line: cursor to the start of the next row, scrolling the
    /// grid when the cursor already stands on the last row.
    fn advance_line(&mut self)
        requires
            old(self).wf(),
        ensures
            final(self).wf(),
            *final(self) == (NcPlane {
                cells: final(self).cells,
                cursor_y: final(self).cursor_y,
                cursor_x: final(self).cursor_x,
                ..*old(self)
            }),
            put_state(*final(self)) == line_feed(
                old(self).rows as int,
                old(self).cols as int,
                put_state(*old(self)),
            ),
    {
        self.cursor_x = 0;
        if self.cursor_y + 1 < self.rows {
            self.cursor_y = self.cursor_y + 1;
        } else {
            self.scroll_once();
        }
    }

    /// One output step: writes `c` at the cursor (or feeds the line for a
    /// newline), with the wrap-and-scroll behaviour of [`put_cell1`]. On
    /// success returns the columns written; a step that does not fit is
    /// an error and changes nothing.
    fn put_cell_step(&mut self, c: NcCell, stained: bool) -> (r: NcResult<NcDim>)
        requires
            old(self).wf(),
        ensures
            final(self).wf(),
            *final(self) == (NcPlane {
                cells: final(self).cells,
                cursor_y: final(self).cursor_y,
                cursor_x: final(self).cursor_x,
                ..*old(self)
            }),
            ({
                let o = put_cell1(
                    old(self).rows as int,
                    old(self).cols as int,
                    old(self).scrolling,
                    put_state(*old(self)),
                    c,
                    stained,
                );
                &&& put_state(*final(self)) == o.0
                &&& (r is Ok <==> o.2)
                &&& (r matches Ok(n) ==> n == o.1)
                &&& (r matches Err(e) ==> e.code == NCRESULT_ERR)
                &&& (!o.2 ==> *final(self) == *old(self))
            }),
    {
        if c.gcluster == '\n' {
            if !self.scrolling {
                return Err(NcError::with_msg(NCRESULT_ERR, "newline on a non-scrolling plane"));
            }
            self.advance_line();
            return Ok(0);
        }
        if self.cursor_x == self.cols {
            if !self.scrolling {
                return Err(NcError::with_msg(NCRESULT_ERR, "line full on a non-scrolling plane"));
            }
            self.advance_line();
        }
        let y = self.cursor_y;
        let x = self.cursor_x;
        let w: NcCell = if stained {
            let i = self.index_of(y, x);
            let t = self.cells[i];
            NcCell { gcluster: c.gcluster, stylemask: t.stylemask, channels: t.channels }
        } else {
            c
        };
        self.set_cell(y, x, w);
        self.cursor_x = x + 1;
        Ok(1)
    }

    /// Writes the first `upto` characters of `string`, one step each,
    /// stopping at the first that does not fit; see [`put_text_post`].
    fn put_str_core(&mut self, string: &str, upto: usize, stained: bool) -> (r: NcResult<NcDim>)
        requires
            old(self).wf(),
            upto <= string@.len(),
            upto <= 0x7fff_ffff,
        ensures
            final(self).wf(),
            put_text_post(
                *old(self),
                *final(self),
                r,
                put_state(*old(self)),
                string@.take(upto as int),
                old(self).styles,
                old(self).channels,
                stained,
            ),
    {
        let ghost s = string@.take(upto as int);
        let ghost rows = old(self).rows as int;
        let ghost cols = old(self).cols as int;
        let ghost scroll = old(self).scrolling;
        let ghost sty = old(self).styles;
        let ghost chans = old(self).channels;
        let ghost st0 = put_state(*old(self));
        let mut i: usize = 0;
        let mut count: u32 = 0;
        while i < upto
            invariant
                self.wf(),
                i <= upto,
                upto <= string@.len(),
                upto <= 0x7fff_ffff,
                count <= i,
                s == string@.take(upto as int),
                s.len() == upto,
                rows == old(self).rows as int,
                cols == old(self).cols as int,
                scroll == old(self).scrolling,
                sty == old(self).styles,
                chans == old(self).channels,
                st0 == put_state(*old(self)),
                *self == (NcPlane {
                    cells: self.cells,
                    cursor_y: self.cursor_y,
                    cursor_x: self.cursor_x,
                    ..*old(self)
                }),
                ({
                    let o = put_upto(rows, cols, scroll, st0, s, i as int, sty, chans, stained);
                    &&& o.2
                    &&& put_state(*self) == o.0
                    &&& count == o.1
                }),
            decreases upto - i,
        {
            let c = string.get_char(i);
            proof {
                assert(s[i as int] == string@[i as int]);
            }
            let ghost pre = put_upto(rows, cols, scroll, st0, s, i as int, sty, chans, stained);
            let cell = NcCell { gcluster: c, stylemask: self.styles, channels: self.channels };
            let step = self.put_cell_step(cell, stained);
            proof {
                let stp = put_cell1(
                    rows,
                    cols,
                    scroll,
                    pre.0,
                    NcCell { gcluster: s[i as int], stylemask: sty, channels: chans },
                    stained,
                );
                assert(put_upto(rows, cols, scroll, st0, s, i as int + 1, sty, chans, stained)
                    == (stp.0, pre.1 + stp.1, stp.2));
            }
            match step {
                Ok(w) => {
                    count = count + w;
                },
                Err(_) => {
                    proof {
                        lemma_put_upto_fail(
                            rows,
                            cols,
                            scroll,
                            st0,
                            s,
                            i as int + 1,
                            s.len() as int,
                            sty,
                            chans,
                            stained,
                        );
                    }
                    let code: i32 = -1 - (count as i32);
                    return Err(NcError::with_msg(code, "text does not fit on the plane"));
                },
            }
            i = i + 1;
        }
        Ok(count)
    }

    /// Moves the cursor to the coordinates given, keeping the cursor's
    /// own position on an axis given as `None`. A target outside the
    /// plane is an error and the cursor stays put.
    fn goto(&mut self, y: Option<NcDim>, x: Option<NcDim>) -> (r: NcResult<()>)
        requires
            old(self).wf(),
        ensures
            final(self).wf(),
            r is Ok <==> resolve_coord(y, old(self).cursor_y) < old(self).rows && resolve_coord(
                x,
                old(self).cursor_x,
            ) < old(self).cols,
            r is Err ==> *final(self) == *old(self),
            r is Ok ==> *final(self) == (NcPlane {
                cursor_y: resolve_coord(y, old(self).cursor_y),
                cursor_x: resolve_coord(x, old(self).cursor_x),
                ..*old(self)
            }),
    {
        let ty = match y {
            Some(v) => v,
            None => self.cursor_y,
        };
        let tx = match x {
            Some(v) => v,
            None => self.cursor_x,
        };
        self.cursor_move_yx(ty, tx)
    }
}

/// The largest number of characters one write accepts: counts are
/// reported in a signed 32-bit channel.
pub const NCPUT_MAX_CHARS: usize = 0x7fff_ffff;

impl NcPlane {
    /// Writes `cell` at the cursor, advancing it by the columns written
    /// (wrapping and scrolling only on a scrolling plane). An error when
    /// the cell does not fit; the plane is then unchanged.
    pub fn putc(&mut self, cell: &NcCell) -> (r: NcResult<NcDim>)
        requires
            old(self).wf(),
        ensures
            final(self).wf(),
            *final(self) == (NcPlane {
                cells: final(self).cells,
                cursor_y: final(self).cursor_y,
                cursor_x: final(self).cursor_x,
                ..*old(self)
            }),
            ({
                let o = put_cell1(
                    old(self).rows as int,
                    old(self).cols as int,
                    old(self).scrolling,
                    put_state(*old(self)),
                    *cell,
                    false,
                );
                &&& put_state(*final(self)) == o.0
                &&& (r is Ok <==> o.2)
                &&& (r matches Ok(n) ==> n == o.1)
            }),
    {
        self.put_cell_step(*cell, false)
    }

    /// Moves the cursor to (`y`, `x`) and writes `cell` there; an error
    /// when the position lies outside the plane or the cell does not fit.
    pub fn putc_yx(&mut self, y: NcDim, x: NcDim, cell: &NcCell) -> (r: NcResult<NcDim>)
        requires
            old(self).wf(),
        ensures
            final(self).wf(),
            y >= old(self).rows || x >= old(self).cols ==> r is Err && *final(self) == *old(self),
            y < old(self).rows && x < old(self).cols ==> ({
                let o = put_cell1(
                    old(self).rows as int,
                    old(self).cols as int,
                    old(self).scrolling,
                    (old(self).cells@, y as int, x as int),
                    *cell,
                    false,
                );
                &&& *final(self) == (NcPlane {
                    cells: final(self).cells,
                    cursor_y: final(self).cursor_y,
                    cursor_x: final(self).cursor_x,
                    ..*old(self)
                })
                &&& put_state(*final(self)) == o.0
                &&& (r is Ok <==> o.2)
                &&& (r matches Ok(n) ==> n == o.1)
            }),
    {
        self.cursor_move_yx(y, x)?;
        self.put_cell_step(*cell, false)
    }

    /// Writes `ch` at the cursor with the plane's current styles and
    /// channels, advancing the cursor.
    pub fn putchar(&mut self, ch: char) -> (r: NcResult<NcDim>)
        requires
            old(self).wf(),
        ensures
            final(self).wf(),
            *final(self) == (NcPlane {
                cells: final(self).cells,
                cursor_y: final(self).cursor_y,
                cursor_x: final(self).cursor_x,
                ..*old(self)
            }),
            ({
                let o = put_cell1(
                    old(self).rows as int,
                    old(self).cols as int,
                    old(self).scrolling,
                    put_state(*old(self)),
                    NcCell {
                        gcluster: ch,
                        stylemask: old(self).styles,
                        channels: old(self).channels,
                    },
                    false,
                );
                &&& put_state(*final(self)) == o.0
                &&& (r is Ok <==> o.2)
                &&& (r matches Ok(n) ==> n == o.1)
            }),
    {
        let cell = NcCell { gcluster: ch, stylemask: self.styles, channels: self.channels };
        self.put_cell_step(cell, false)
    }

    /// Writes `ch` at the cursor, keeping the styles and channels of the
    /// cell it lands on.
    pub fn putchar_stained(&mut self, ch: char) -> (r: NcResult<NcDim>)
        requires
            old(self).wf(),
        ensures
            final(self).wf(),
            *final(self) == (NcPlane {
                cells: final(self).cells,
                cursor_y: final(self).cursor_y,
                cursor_x: final(self).cursor_x,
                ..*old(self)
            }),
            ({
                let o = put_cell1(
                    old(self).rows as int,
                    old(self).cols as int,
                    old(self).scrolling,
                    put_state(*old(self)),
                    NcCell {
                        gcluster: ch,
                        stylemask: old(self).styles,
                        channels: old(self).channels,
                    },
                    true,
                );
                &&& put_state(*final(self)) == o.0
                &&& (r is Ok <==> o.2)
                &&& (r matches Ok(n) ==> n == o.1)
            }),
    {
        let cell = NcCell { gcluster: ch, stylemask: self.styles, channels: self.channels };
        self.put_cell_step(cell, true)
    }

    /// Moves the cursor to (`y`, `x`) and writes `ch` there with the
    /// current styles and channels.
    pub fn putchar_yx(&mut self, y: NcDim, x: NcDim, ch: char) -> (r: NcResult<NcDim>)
        requires
            old(self).wf(),
        ensures
            final(self).wf(),
            y >= old(self).rows || x >= old(self).cols ==> r is Err && *final(self) == *old(self),
            y < old(self).rows && x < old(self).cols ==> ({
                let o = put_cell1(
                    old(self).rows as int,
                    old(self).cols as int,
                    old(self).scrolling,
                    (old(self).cells@, y as int, x as int),
                    NcCell {
                        gcluster: ch,
                        stylemask: old(self).styles,
                        channels: old(self).channels,
                    },
                    false,
                );
                &&& *final(self) == (NcPlane {
                    cells: final(self).cells,
                    cursor_y: final(self).cursor_y,
                    cursor_x: final(self).cursor_x,
                    ..*old(self)
                })
                &&& put_state(*final(self)) == o.0
                &&& (r is Ok <==> o.2)
                &&& (r matches Ok(n) ==> n == o.1)
            }),
    {
        self.cursor_move_yx(y, x)?;
        let cell = NcCell { gcluster: ch, stylemask: self.styles, channels: self.channels };
        self.put_cell_step(cell, false)
    }

    /// Writes the first glyph of `egc` at the cursor with the current
    /// styles and channels, handing the glyph's UTF-8 byte count back
    /// through `sbytes` (0 when nothing is consumed). An empty `egc` is
    /// an error.
    pub fn putegc(&mut self, egc: &str, sbytes: &mut usize) -> (r: NcResult<NcDim>)
        requires
            old(self).wf(),
        ensures
            final(self).wf(),
            egc@.len() == 0 ==> r is Err && *final(self) == *old(self) && *final(sbytes) == 0,
            egc@.len() > 0 ==> *final(sbytes) == spec_utf8_len(egc@[0]) && ({
                let o = put_cell1(
                    old(self).rows as int,
                    old(self).cols as int,
                    old(self).scrolling,
                    put_state(*old(self)),
                    NcCell {
                        gcluster: egc@[0],
                        stylemask: old(self).styles,
                        channels: old(self).channels,
                    },
                    false,
                );
                &&& *final(self) == (NcPlane {
                    cells: final(self).cells,
                    cursor_y: final(self).cursor_y,
                    cursor_x: final(self).cursor_x,
                    ..*old(self)
                })
                &&& put_state(*final(self)) == o.0
                &&& (r is Ok <==> o.2)
                &&& (r matches Ok(n) ==> n == o.1)
            }),
    {
        if egc.unicode_len() == 0 {
            *sbytes = 0;
            return Err(NcError::with_msg(NCRESULT_ERR, "empty glyph cluster"));
        }
        let c = egc.get_char(0);
        *sbytes = utf8_len(c);
        let cell = NcCell { gcluster: c, stylemask: self.styles, channels: self.channels };
        self.put_cell_step(cell, false)
    }

    /// Writes the first glyph of `egc` at the cursor, keeping the styles
    /// and channels of the cell it lands on; the byte count goes out
    /// through `sbytes`.
    pub fn putegc_stained(&mut self, egc: &str, sbytes: &mut usize) -> (r: NcResult<NcDim>)
        requires
            old(self).wf(),
        ensures
            final(self).wf(),
            egc@.len() == 0 ==> r is Err && *final(self) == *old(self) && *final(sbytes) == 0,
            egc@.len() > 0 ==> *final(sbytes) == spec_utf8_len(egc@[0]) && ({
                let o = put_cell1(
                    old(self).rows as int,
                    old(self).cols as int,
                    old(self).scrolling,
                    put_state(*old(self)),
                    NcCell {
                        gcluster: egc@[0],
                        stylemask: old(self).styles,
                        channels: old(self).channels,
                    },
                    true,
                );
                &&& *final(self) == (NcPlane {
                    cells: final(self).cells,
                    cursor_y: final(self).cursor_y,
                    cursor_x: final(self).cursor_x,
                    ..*old(self)
                })
                &&& put_state(*final(self)) == o.0
                &&& (r is Ok <==> o.2)
                &&& (r matches Ok(n) ==> n == o.1)
            }),
    {
        if egc.unicode_len() == 0 {
            *sbytes = 0;
            return Err(NcError::with_msg(NCRESULT_ERR, "empty glyph cluster"));
        }
        let c = egc.get_char(0);
        *sbytes = utf8_len(c);
        let cell = NcCell { gcluster: c, stylemask: self.styles, channels: self.channels };
        self.put_cell_step(cell, true)
    }

    /// Moves the cursor (each axis optionally) and writes the first glyph
    /// of `egc` there with the current styles and channels; the byte
    /// count goes out through `sbytes`.
    pub fn putegc_yx(
        &mut self,
        y: Option<NcDim>,
        x: Option<NcDim>,
        egc: &str,
        sbytes: &mut usize,
    ) -> (r: NcResult<NcDim>)
        requires
            old(self).wf(),
        ensures
            final(self).wf(),
            !(resolve_coord(y, old(self).cursor_y) < old(self).rows && resolve_coord(
                x,
                old(self).cursor_x,
            ) < old(self).cols) ==> r is Err && *final(self) == *old(self) && *final(sbytes)
                == *old(sbytes),
            resolve_coord(y, old(self).cursor_y) < old(self).rows && resolve_coord(
                x,
                old(self).cursor_x,
            ) < old(self).cols ==> {
                &&& (egc@.len() == 0 ==> r is Err && *final(self) == (NcPlane {
                    cursor_y: resolve_coord(y, old(self).cursor_y),
                    cursor_x: resolve_coord(x, old(self).cursor_x),
                    ..*old(self)
                }) && *final(sbytes) == 0)
                &&& (egc@.len() > 0 ==> *final(sbytes) == spec_utf8_len(egc@[0]) && ({
                    let o = put_cell1(
                        old(self).rows as int,
                        old(self).cols as int,
                        old(self).scrolling,
                        (
                            old(self).cells@,
                            resolve_coord(y, old(self).cursor_y) as int,
                            resolve_coord(x, old(self).cursor_x) as int,
                        ),
                        NcCell {
                            gcluster: egc@[0],
                            stylemask: old(self).styles,
                            channels: old(self).channels,
                        },
                        false,
                    );
                    &&& *final(self) == (NcPlane {
                        cells: final(self).cells,
                        cursor_y: final(self).cursor_y,
                        cursor_x: final(self).cursor_x,
                        ..*old(self)
                    })
                    &&& put_state(*final(self)) == o.0
                    &&& (r is Ok <==> o.2)
                    &&& (r matches Ok(n) ==> n == o.1)
                }))
            },
    {
        self.goto(y, x)?;
        self.putegc(egc, sbytes)
    }

    /// Writes `string` at the cursor with the current styles and
    /// channels; see [`put_text_post`]. A string of more than
    /// [`NCPUT_MAX_CHARS`] characters is an error and changes nothing.
    pub fn putstr(&mut self, string: &str) -> (r: NcResult<NcDim>)
        requires
            old(self).wf(),
        ensures
            final(self).wf(),
            string@.len() > NCPUT_MAX_CHARS ==> r is Err && *final(self) == *old(self),
            string@.len() <= NCPUT_MAX_CHARS ==> put_text_post(
                *old(self),
                *final(self),
                r,
                put_state(*old(self)),
                string@,
                old(self).styles,
                old(self).channels,
                false,
            ),
    {
        let n = string.unicode_len();
        if n > NCPUT_MAX_CHARS {
            return Err(NcError::with_msg(NCRESULT_ERR, "text too long"));
        }
        proof {
            assert(string@.take(n as int) =~= string@);
        }
        self.put_str_core(string, n, false)
    }

    /// Writes `string` at the cursor, keeping the styles and channels of
    /// every cell it lands on; see [`put_text_post`].
    pub fn putstr_stained(&mut self, string: &str) -> (r: NcResult<NcDim>)
        requires
            old(self).wf(),
        ensures
            final(self).wf(),
            string@.len() > NCPUT_MAX_CHARS ==> r is Err && *final(self) == *old(self),
            string@.len() <= NCPUT_MAX_CHARS ==> put_text_post(
                *old(self),
                *final(self),
                r,
                put_state(*old(self)),
                string@,
                old(self).styles,
                old(self).channels,
                true,
            ),
    {
        let n = string.unicode_len();
        if n > NCPUT_MAX_CHARS {
            return Err(NcError::with_msg(NCRESULT_ERR, "text too long"));
        }
        proof {
            assert(string@.take(n as int) =~= string@);
        }
        self.put_str_core(string, n, true)
    }

    /// Feeds the line, which only a scrolling plane can; returns the
    /// columns written, which is zero.
    pub fn putln(&mut self) -> (r: NcResult<NcDim>)
        requires
            old(self).wf(),
        ensures
            final(self).wf(),
            r is Ok <==> old(self).scrolling,
            r is Err ==> *final(self) == *old(self),
            r is Ok ==> r == Ok::<NcDim, NcError>(0) && *final(self) == (NcPlane {
                cells: final(self).cells,
                cursor_y: final(self).cursor_y,
                cursor_x: final(self).cursor_x,
                ..*old(self)
            }) && put_state(*final(self)) == line_feed(
                old(self).rows as int,
                old(self).cols as int,
                put_state(*old(self)),
            ),
    {
        let cell = NcCell { gcluster: '\n', stylemask: self.styles, channels: self.channels };
        self.put_cell_step(cell, false)
    }

    /// Writes `string` and then feeds the line; only a scrolling plane
    /// can. Returns the columns written by the string.
    pub fn putstrln(&mut self, string: &str) -> (r: NcResult<NcDim>)
        requires
            old(self).wf(),
        ensures
            final(self).wf(),
            string@.len() > NCPUT_MAX_CHARS ==> r is Err && *final(self) == *old(self),
            string@.len() <= NCPUT_MAX_CHARS ==> ({
                let o = put_seq(
                    old(self).rows as int,
                    old(self).cols as int,
                    old(self).scrolling,
                    put_state(*old(self)),
                    string@,
                    old(self).styles,
                    old(self).channels,
                    false,
                );
                &&& *final(self) == (NcPlane {
                    cells: final(self).cells,
                    cursor_y: final(self).cursor_y,
                    cursor_x: final(self).cursor_x,
                    ..*old(self)
                })
                &&& (!o.2 ==> r is Err && put_state(*final(self)) == o.0)
                &&& (o.2 && !old(self).scrolling ==> r is Err && put_state(*final(self)) == o.0)
                &&& (o.2 && old(self).scrolling ==> r == Ok::<NcDim, NcError>(o.1 as u32)
                    && put_state(*final(self)) == line_feed(
                    old(self).rows as int,
                    old(self).cols as int,
                    o.0,
                ))
            }),
    {
        let cols = self.putstr(string)?;
        self.putln()?;
        Ok(cols)
    }

    /// Moves the cursor (each axis optionally) and writes `string` there
    /// with the current styles and channels.
    pub fn putstr_yx(&mut self, y: Option<NcDim>, x: Option<NcDim>, string: &str) -> (r: NcResult<
        NcDim,
    >)
        requires
            old(self).wf(),
        ensures
            final(self).wf(),
            string@.len() > NCPUT_MAX_CHARS ==> r is Err && *final(self) == *old(self),
            string@.len() <= NCPUT_MAX_CHARS && !(resolve_coord(y, old(self).cursor_y) < old(self).rows && resolve_coord(x, old(self).cursor_x) < old(self).cols) ==> r is Err && *final(self) == *old(self),
            string@.len() <= NCPUT_MAX_CHARS && resolve_coord(y, old(self).cursor_y) < old(self).rows && resolve_coord(x, old(self).cursor_x) < old(self).cols ==> put_text_post(
                *old(self),
                *final(self),
                r,
                (
                    old(self).cells@,
                    resolve_coord(y, old(self).cursor_y) as int,
                    resolve_coord(x, old(self).cursor_x) as int,
                ),
                string@,
                old(self).styles,
                old(self).channels,
                false,
            ),
    {
        let n = string.unicode_len();
        if n > NCPUT_MAX_CHARS {
            return Err(NcError::with_msg(NCRESULT_ERR, "text too long"));
        }
        self.goto(y, x)?;
        proof {
            assert(string@.take(n as int) =~= string@);
        }
        self.put_str_core(string, n, false)
    }

    /// Moves the cursor to (`y`, `x`) and writes `string` there, keeping
    /// the styles and channels of every cell it lands on.
    pub fn putstr_yx_stained(&mut self, y: NcDim, x: NcDim, string: &str) -> (r: NcResult<NcDim>)
        requires
            old(self).wf(),
        ensures
            final(self).wf(),
            string@.len() > NCPUT_MAX_CHARS ==> r is Err && *final(self) == *old(self),
            string@.len() <= NCPUT_MAX_CHARS && !(y < old(self).rows && x < old(self).cols)
                ==> r is Err && *final(self) == *old(self),
            string@.len() <= NCPUT_MAX_CHARS && y < old(self).rows && x < old(self).cols
                ==> put_text_post(
                *old(self),
                *final(self),
                r,
                (old(self).cells@, y as int, x as int),
                string@,
                old(self).styles,
                old(self).channels,
                true,
            ),
    {
        let n = string.unicode_len();
        if n > NCPUT_MAX_CHARS {
            return Err(NcError::with_msg(NCRESULT_ERR, "text too long"));
        }
        self.cursor_move_yx(y, x)?;
        proof {
            assert(string@.take(n as int) =~= string@);
        }
        self.put_str_core(string, n, true)
    }

    /// Writes the longest prefix of `string` that fits in `num_bytes`
    /// bytes of UTF-8, at the cursor, with the current styles and
    /// channels.
    pub fn putnstr(&mut self, num_bytes: usize, string: &str) -> (r: NcResult<NcDim>)
        requires
            old(self).wf(),
        ensures
            final(self).wf(),
            utf8_prefix(string@, num_bytes as int) > NCPUT_MAX_CHARS ==> r is Err && *final(self)
                == *old(self),
            utf8_prefix(string@, num_bytes as int) <= NCPUT_MAX_CHARS ==> put_text_post(
                *old(self),
                *final(self),
                r,
                put_state(*old(self)),
                string@.take(utf8_prefix(string@, num_bytes as int)),
                old(self).styles,
                old(self).channels,
                false,
            ),
    {
        let k = utf8_take(string, num_bytes);
        if k > NCPUT_MAX_CHARS {
            return Err(NcError::with_msg(NCRESULT_ERR, "text too long"));
        }
        self.put_str_core(string, k, false)
    }

    /// Moves the cursor (each axis optionally) and writes the longest
    /// prefix of `string` that fits in `num_bytes` bytes there.
    pub fn putnstr_yx(
        &mut self,
        y: Option<NcDim>,
        x: Option<NcDim>,
        num_bytes: usize,
        string: &str,
    ) -> (r: NcResult<NcDim>)
        requires
            old(self).wf(),
        ensures
            final(self).wf(),
            utf8_prefix(string@, num_bytes as int) > NCPUT_MAX_CHARS ==> r is Err && *final(self)
                == *old(self),
            utf8_prefix(string@, num_bytes as int) <= NCPUT_MAX_CHARS && !(resolve_coord(
                y,
                old(self).cursor_y,
            ) < old(self).rows && resolve_coord(x, old(self).cursor_x) < old(self).cols)
                ==> r is Err && *final(self) == *old(self),
            utf8_prefix(string@, num_bytes as int) <= NCPUT_MAX_CHARS && resolve_coord(
                y,
                old(self).cursor_y,
            ) < old(self).rows && resolve_coord(x, old(self).cursor_x) < old(self).cols
                ==> put_text_post(
                *old(self),
                *final(self),
                r,
                (
                    old(self).cells@,
                    resolve_coord(y, old(self).cursor_y) as int,
                    resolve_coord(x, old(self).cursor_x) as int,
                ),
                string@.take(utf8_prefix(string@, num_bytes as int)),
                old(self).styles,
                old(self).channels,
                false,
            ),
    {
        let k = utf8_take(string, num_bytes);
        if k > NCPUT_MAX_CHARS {
            return Err(NcError::with_msg(NCRESULT_ERR, "text too long"));
        }
        self.goto(y, x)?;
        self.put_str_core(string, k, false)
    }

    /// Writes `string` on row `y` (or the cursor's row), aligned within
    /// the plane's columns, with the current styles and channels.
    pub fn putstr_aligned(&mut self, y: Option<NcDim>, align: NcAlign, string: &str) -> (r:
        NcResult<NcDim>)
        requires
            old(self).wf(),
        ensures
            final(self).wf(),
            string@.len() > NCPUT_MAX_CHARS ==> r is Err && *final(self) == *old(self),
            string@.len() <= NCPUT_MAX_CHARS && align is Unaligned ==> r is Err && *final(self)
                == *old(self),
            string@.len() <= NCPUT_MAX_CHARS && !(align is Unaligned) ==> ({
                let ty = resolve_coord(y, old(self).cursor_y) as int;
                let tx = spec_align_pos(old(self).cols as int, align, string@.len() as int);
                &&& (!(ty < old(self).rows && tx < old(self).cols) ==> r is Err && *final(self)
                    == *old(self))
                &&& (ty < old(self).rows && tx < old(self).cols ==> put_text_post(
                    *old(self),
                    *final(self),
                    r,
                    (old(self).cells@, ty, tx),
                    string@,
                    old(self).styles,
                    old(self).channels,
                    false,
                ))
            }),
    {
        let n = string.unicode_len();
        if n > NCPUT_MAX_CHARS {
            return Err(NcError::with_msg(NCRESULT_ERR, "text too long"));
        }
        let xpos = self.halign(align, n as u32)?;
        self.goto(y, Some(xpos))?;
        proof {
            assert(string@.take(n as int) =~= string@);
        }
        self.put_str_core(string, n, false)
    }

    /// Writes `string` on row `y`, aligned within the plane's columns,
    /// keeping the styles and channels of every cell it lands on.
    pub fn putstr_aligned_stained(&mut self, y: NcDim, align: NcAlign, string: &str) -> (r:
        NcResult<NcDim>)
        requires
            old(self).wf(),
        ensures
            final(self).wf(),
            string@.len() > NCPUT_MAX_CHARS ==> r is Err && *final(self) == *old(self),
            string@.len() <= NCPUT_MAX_CHARS && align is Unaligned ==> r is Err && *final(self)
                == *old(self),
            string@.len() <= NCPUT_MAX_CHARS && !(align is Unaligned) ==> ({
                let tx = spec_align_pos(old(self).cols as int, align, string@.len() as int);
                &&& (!(y < old(self).rows && tx < old(self).cols) ==> r is Err && *final(self)
                    == *old(self))
                &&& (y < old(self).rows && tx < old(self).cols ==> put_text_post(
                    *old(self),
                    *final(self),
                    r,
                    (old(self).cells@, y as int, tx),
                    string@,
                    old(self).styles,
                    old(self).channels,
                    true,
                ))
            }),
    {
        let n = string.unicode_len();
        if n > NCPUT_MAX_CHARS {
            return Err(NcError::with_msg(NCRESULT_ERR, "text too long"));
        }
        let xpos = self.halign(align, n as u32)?;
        self.cursor_move_yx(y, xpos)?;
        proof {
            assert(string@.take(n as int) =~= string@);
        }
        self.put_str_core(string, n, true)
    }

    /// Writes, on row `y` and aligned within the plane's columns, the
    /// longest prefix of `string` that fits in `num_bytes` bytes.
    pub fn putnstr_aligned(
        &mut self,
        y: NcDim,
        align: NcAlign,
        num_bytes: usize,
        string: &str,
    ) -> (r: NcResult<NcDim>)
        requires
            old(self).wf(),
        ensures
            final(self).wf(),
            utf8_prefix(string@, num_bytes as int) > NCPUT_MAX_CHARS ==> r is Err && *final(self)
                == *old(self),
            utf8_prefix(string@, num_bytes as int) <= NCPUT_MAX_CHARS && align is Unaligned
                ==> r is Err && *final(self) == *old(self),
            utf8_prefix(string@, num_bytes as int) <= NCPUT_MAX_CHARS && !(align is Unaligned)
                ==> ({
                let k = utf8_prefix(string@, num_bytes as int);
                let tx = spec_align_pos(old(self).cols as int, align, k);
                &&& (!(y < old(self).rows && tx < old(self).cols) ==> r is Err && *final(self)
                    == *old(self))
                &&& (y < old(self).rows && tx < old(self).cols ==> put_text_post(
                    *old(self),
                    *final(self),
                    r,
                    (old(self).cells@, y as int, tx),
                    string@.take(k),
                    old(self).styles,
                    old(self).channels,
                    false,
                ))
            }),
    {
        let k = utf8_take(string, num_bytes);
        if k > NCPUT_MAX_CHARS {
            return Err(NcError::with_msg(NCRESULT_ERR, "text too long"));
        }
        let xpos = self.halign(align, k as u32)?;
        self.cursor_move_yx(y, xpos)?;
        self.put_str_core(string, k, false)
    }
}

} // verus!
