//! Reading, erasing and resizing plane content.

use vstd::prelude::*;
use crate::cell::{blank_cell, utf8_len, NcCell};
use crate::plane::NcPlane;
use crate::result::{NcError, NcResult, NCRESULT_ERR};
use crate::text::{char_string, string_push};
use crate::types::{NcChannels, NcDim, NcOffset, NcStyle};

verus! {

/// The first cell of the span that erasing with signed length `l` covers
/// along an axis of extent `d`, starting from origin `o`: a zero length
/// covers the whole axis, a positive length covers `l` cells from the
/// origin on, and a negative length covers the cells before (and not
/// including) the origin.
pub open spec fn span_lo(o: int, l: int, d: int) -> int {
    if l == 0 {
        0
    } else if l > 0 {
        o
    } else if o + l < 0 {
        0
    } else {
        o + l
    }
}

/// One past the last cell of the span that erasing with signed length `l`
/// covers along an axis of extent `d`, starting from origin `o`.
pub open spec fn span_end(o: int, l: int, d: int) -> int {
    if l == 0 {
        d
    } else if l > 0 {
        if o + l > d {
            d
        } else {
            o + l
        }
    } else {
        o
    }
}

/// The coordinate an optional argument names: the value given, or the
/// cursor's position on that axis.
pub open spec fn resolve_coord(o: Option<NcDim>, cursor: NcDim) -> NcDim {
    match o {
        Some(v) => v,
        None => cursor,
    }
}

/// The span bounds of an erase along one axis, as executable arithmetic.
fn erase_span(o: NcDim, l: NcOffset, d: NcDim) -> (s: (NcDim, NcDim))
    requires
        o < d,
    ensures
        s.0 == span_lo(o as int, l as int, d as int),
        s.1 == span_end(o as int, l as int, d as int),
        s.0 <= s.1 <= d,
{
    if l == 0 {
        (0, d)
    } else if l > 0 {
        let end: i64 = o as i64 + l as i64;
        if end > d as i64 {
            (o, d)
        } else {
            (o, end as u32)
        }
    } else {
        let lo: i64 = o as i64 + l as i64;
        if lo < 0 {
            (0, o)
        } else {
            (lo as u32, o)
        }
    }
}

/// What a cell contributes to a flat dump: nothing when undrawn, its
/// glyph otherwise.
pub open spec fn glyph_seq(c: NcCell) -> Seq<char> {
    if c.spec_undrawn() {
        Seq::<char>::empty()
    } else {
        seq![c.gcluster]
    }
}

/// The glyphs of row `y` from column `x0` up to (not including) `x1`.
pub open spec fn row_contents(p: NcPlane, y: int, x0: int, x1: int) -> Seq<char>
    decreases x1 - x0,
{
    if x0 >= x1 {
        Seq::<char>::empty()
    } else {
        glyph_seq(p.cell_at(y, x0)) + row_contents(p, y, x0 + 1, x1)
    }
}

/// The glyphs of the rows `y0` up to (not including) `y1`, columns `x0`
/// up to `x1`, row by row.
pub open spec fn region_contents(p: NcPlane, y0: int, y1: int, x0: int, x1: int) -> Seq<char>
    decreases y1 - y0,
{
    if y0 >= y1 {
        Seq::<char>::empty()
    } else {
        row_contents(p, y0, x0, x1) + region_contents(p, y0 + 1, y1, x0, x1)
    }
}

/// A row dump grows on the right, one cell at a time.
proof fn lemma_row_contents_snoc(p: NcPlane, y: int, x0: int, x1: int)
    requires
        x0 <= x1,
    ensures
        row_contents(p, y, x0, x1 + 1) == row_contents(p, y, x0, x1) + glyph_seq(
            p.cell_at(y, x1),
        ),
    decreases x1 - x0,
{
    if x0 == x1 {
        assert(row_contents(p, y, x0, x1 + 1) == glyph_seq(p.cell_at(y, x0)) + row_contents(
            p,
            y,
            x0 + 1,
            x1 + 1,
        ));
        assert(row_contents(p, y, x0, x1) + glyph_seq(p.cell_at(y, x1)) =~= glyph_seq(
            p.cell_at(y, x1),
        ));
        assert(row_contents(p, y, x0 + 1, x1 + 1) =~= Seq::<char>::empty());
        assert(row_contents(p, y, x0, x1 + 1) =~= glyph_seq(p.cell_at(y, x1)));
    } else {
        lemma_row_contents_snoc(p, y, x0 + 1, x1);
        assert(row_contents(p, y, x0, x1 + 1) =~= row_contents(p, y, x0, x1) + glyph_seq(
            p.cell_at(y, x1),
        ));
    }
}

/// A region dump grows at the bottom, one row at a time.
proof fn lemma_region_contents_snoc(p: NcPlane, y0: int, y1: int, x0: int, x1: int)
    requires
        y0 <= y1,
    ensures
        region_contents(p, y0, y1 + 1, x0, x1) == region_contents(p, y0, y1, x0, x1)
            + row_contents(p, y1, x0, x1),
    decreases y1 - y0,
{
    if y0 == y1 {
        assert(region_contents(p, y0 + 1, y1 + 1, x0, x1) =~= Seq::<char>::empty());
        assert(region_contents(p, y0, y1 + 1, x0, x1) =~= row_contents(p, y1, x0, x1));
        assert(region_contents(p, y0, y1, x0, x1) + row_contents(p, y1, x0, x1) =~= row_contents(
            p,
            y1,
            x0,
            x1,
        ));
    } else {
        lemma_region_contents_snoc(p, y0 + 1, y1, x0, x1);
        assert(region_contents(p, y0, y1 + 1, x0, x1) =~= region_contents(p, y0, y1, x0, x1)
            + row_contents(p, y1, x0, x1));
    }
}

/// Lexicographic order of grid positions orders their row-major indices.
pub(crate) proof fn lemma_rowmajor_lt(qy: int, qx: int, py: int, px: int, c: int)
    requires
        0 <= qx < c,
        0 <= px,
        qy >= 0,
        qy < py || (qy == py && qx < px),
    ensures
        qy * c + qx < py * c + px,
{
    if qy < py {
        assert(qy * c + qx < py * c + px) by (nonlinear_arith)
            requires
                0 <= qx < c,
                0 <= px,
                0 <= qy < py,
        ;
    }
}

/// What lands at position (`ny`, `nx`) of a resized plane: the kept cell
/// of the old content where the kept region covers the position, and a
/// blank cell everywhere else.
pub open spec fn resized_cell(
    pre: NcPlane,
    keep_y: int,
    keep_x: int,
    keep_len_y: int,
    keep_len_x: int,
    y_off: int,
    x_off: int,
    ny: int,
    nx: int,
) -> NcCell {
    if keep_len_y > 0 && 0 <= ny + y_off < keep_len_y && 0 <= nx + x_off < keep_len_x {
        pre.cell_at(keep_y + ny + y_off, keep_x + nx + x_off)
    } else {
        blank_cell()
    }
}

/// Whether a resize request is accepted: the plane is not the standard
/// plane, the new extents are positive with an area that fits the cell
/// index space, the kept lengths are zero or nonzero together and fit the
/// new extents, the kept region lies within the old plane, and the new
/// origin stays representable.
pub open spec fn resize_ok(
    pre: NcPlane,
    keep_y: int,
    keep_x: int,
    keep_len_y: int,
    keep_len_x: int,
    y_off: int,
    x_off: int,
    y_len: int,
    x_len: int,
) -> bool {
    &&& !pre.is_std
    &&& y_len >= 1
    &&& x_len >= 1
    &&& y_len * x_len <= u32::MAX
    &&& (keep_len_y == 0 <==> keep_len_x == 0)
    &&& y_len >= keep_len_y
    &&& x_len >= keep_len_x
    &&& keep_y < pre.rows
    &&& keep_x < pre.cols
    &&& keep_y + keep_len_y <= pre.rows
    &&& keep_x + keep_len_x <= pre.cols
    &&& i32::MIN <= pre.y + keep_y + y_off <= i32::MAX
    &&& i32::MIN <= pre.x + keep_x + x_off <= i32::MAX
}

impl NcPlane {
    /// Resizes this plane to `y_len` rows by `x_len` columns, keeping the
    /// `keep_len_y` by `keep_len_x` region of old content whose upper-left
    /// corner is (`keep_y`, `keep_x`).
    ///
    /// `y_off` and `x_off` are relative to the kept corner and place the
    /// upper-left corner of the resized plane; the plane's origin moves
    /// with them. Every cell the kept region does not cover comes out
    /// blank. The cursor is clamped into the new extents. The standard
    /// plane cannot be resized, a kept region must lie within the plane,
    /// and if either kept length is nonzero both must be.
    pub fn resize(
        &mut self,
        keep_y: NcDim,
        keep_x: NcDim,
        keep_len_y: NcDim,
        keep_len_x: NcDim,
        y_off: NcOffset,
        x_off: NcOffset,
        y_len: NcDim,
        x_len: NcDim,
    ) -> (r: NcResult<()>)
        requires
            old(self).wf(),
        ensures
            final(self).wf(),
            r is Ok <==> resize_ok(
                *old(self),
                keep_y as int,
                keep_x as int,
                keep_len_y as int,
                keep_len_x as int,
                y_off as int,
                x_off as int,
                y_len as int,
                x_len as int,
            ),
            r is Err ==> *final(self) == *old(self),
            r is Ok ==> {
                &&& *final(self) == (NcPlane {
                    rows: y_len,
                    cols: x_len,
                    y: (old(self).y + keep_y + y_off) as i32,
                    x: (old(self).x + keep_x + x_off) as i32,
                    cells: final(self).cells,
                    cursor_y: if old(self).cursor_y < y_len {
                        old(self).cursor_y
                    } else {
                        (y_len - 1) as u32
                    },
                    cursor_x: if old(self).cursor_x < x_len {
                        old(self).cursor_x
                    } else {
                        x_len
                    },
                    ..*old(self)
                })
                &&& final(self).cells@.len() == y_len * x_len
                &&& forall|ny: int, nx: int|
                    0 <= ny < y_len && 0 <= nx < x_len ==> final(self).cells@[ny * x_len + nx]
                        == resized_cell(
                        *old(self),
                        keep_y as int,
                        keep_x as int,
                        keep_len_y as int,
                        keep_len_x as int,
                        y_off as int,
                        x_off as int,
                        ny,
                        nx,
                    )
            },
    {
        if self.is_std {
            return Err(NcError::with_msg(NCRESULT_ERR, "the standard plane cannot be resized"));
        }
        if y_len == 0 || x_len == 0 {
            return Err(NcError::with_msg(NCRESULT_ERR, "a plane needs at least one cell"));
        }
        let area: u64 = {
            let y64: u64 = y_len as u64;
            let x64: u64 = x_len as u64;
            proof {
                assert(y64 * x64 <= 0xffff_ffff_0000_0000u64) by (nonlinear_arith)
                    requires
                        y64 <= 0xffff_ffffu64,
                        x64 <= 0xffff_ffffu64,
                ;
            }
            y64 * x64
        };
        if area > u32::MAX as u64 {
            return Err(NcError::with_msg(NCRESULT_ERR, "plane area too large"));
        }
        if (keep_len_y == 0) != (keep_len_x == 0) {
            return Err(
                NcError::with_msg(NCRESULT_ERR, "kept lengths must be zero or nonzero together"),
            );
        }
        if y_len < keep_len_y || x_len < keep_len_x {
            return Err(NcError::with_msg(NCRESULT_ERR, "kept region larger than the new plane"));
        }
        if keep_y >= self.rows || keep_x >= self.cols {
            return Err(NcError::with_msg(NCRESULT_ERR, "kept corner outside the plane"));
        }
        if keep_y as u64 + keep_len_y as u64 > self.rows as u64 || keep_x as u64
            + keep_len_x as u64 > self.cols as u64 {
            return Err(NcError::with_msg(NCRESULT_ERR, "kept region outside the plane"));
        }
        let ny64: i64 = self.y as i64 + keep_y as i64 + y_off as i64;
        let nx64: i64 = self.x as i64 + keep_x as i64 + x_off as i64;
        if ny64 < i32::MIN as i64 || ny64 > i32::MAX as i64 || nx64 < i32::MIN as i64 || nx64
            > i32::MAX as i64 {
            return Err(NcError::with_msg(NCRESULT_ERR, "origin out of range"));
        }
        let mut grid: Vec<NcCell> = Vec::new();
        let mut py: NcDim = 0;
        while py < y_len
            invariant
                self.wf(),
                *self == *old(self),
                py <= y_len,
                y_len >= 1,
                x_len >= 1,
                y_len * x_len <= u32::MAX,
                keep_y + keep_len_y <= self.rows,
                keep_x + keep_len_x <= self.cols,
                grid@.len() == py * x_len,
                forall|qy: int, qx: int|
                    0 <= qy < py && 0 <= qx < x_len ==> grid@[qy * x_len + qx] == resized_cell(
                        *old(self),
                        keep_y as int,
                        keep_x as int,
                        keep_len_y as int,
                        keep_len_x as int,
                        y_off as int,
                        x_off as int,
                        qy,
                        qx,
                    ),
            decreases y_len - py,
        {
            let mut px: NcDim = 0;
            proof {
                assert(py * x_len + x_len <= y_len * x_len) by (nonlinear_arith)
                    requires
                        0 <= py < y_len,
                        x_len >= 1,
                ;
                assert(py * x_len >= 0) by (nonlinear_arith)
                    requires
                        py >= 0,
                        x_len >= 1,
                ;
            }
            while px < x_len
                invariant
                    self.wf(),
                    *self == *old(self),
                    py < y_len,
                    px <= x_len,
                    y_len >= 1,
                    x_len >= 1,
                    y_len * x_len <= u32::MAX,
                    py * x_len + x_len <= y_len * x_len,
                    py * x_len >= 0,
                    keep_y + keep_len_y <= self.rows,
                    keep_x + keep_len_x <= self.cols,
                    grid@.len() == py * x_len + px,
                    forall|qy: int, qx: int|
                        (0 <= qy < py && 0 <= qx < x_len) || (qy == py && 0 <= qx < px)
                            ==> grid@[qy * x_len + qx] == resized_cell(
                            *old(self),
                            keep_y as int,
                            keep_x as int,
                            keep_len_y as int,
                            keep_len_x as int,
                            y_off as int,
                            x_off as int,
                            qy,
                            qx,
                        ),
                decreases x_len - px,
            {
                let dy: i64 = py as i64 + y_off as i64;
                let dx: i64 = px as i64 + x_off as i64;
                let c: NcCell = if keep_len_y > 0 && 0 <= dy && dy < keep_len_y as i64 && 0 <= dx
                    && dx < keep_len_x as i64 {
                    let i = self.index_of(keep_y + dy as u32, keep_x + dx as u32);
                    self.cells[i]
                } else {
                    NcCell::new()
                };
                grid.push(c);
                proof {
                    assert forall|qy: int, qx: int|
                        (0 <= qy < py && 0 <= qx < x_len) || (qy == py && 0 <= qx < px
                            + 1) implies grid@[qy * x_len + qx] == resized_cell(
                        *old(self),
                        keep_y as int,
                        keep_x as int,
                        keep_len_y as int,
                        keep_len_x as int,
                        y_off as int,
                        x_off as int,
                        qy,
                        qx,
                    ) by {
                        if qy == py && qx == px {
                        } else {
                            lemma_rowmajor_lt(qy, qx, py as int, px as int, x_len as int);
                        }
                    }
                }
                px = px + 1;
            }
            proof {
                assert((py as int + 1) * (x_len as int) == py as int * (x_len as int) + (
                x_len as int)) by (nonlinear_arith);
            }
            py = py + 1;
        }
        self.cells = grid;
        self.rows = y_len;
        self.cols = x_len;
        self.y = ny64 as i32;
        self.x = nx64 as i32;
        if self.cursor_y >= y_len {
            self.cursor_y = y_len - 1;
        }
        if self.cursor_x > x_len {
            self.cursor_x = x_len;
        }
        Ok(())
    }

    /// Resizes this plane to `y_len` rows by `x_len` columns, keeping all
    /// old content that still fits, with the kept corner and the plane's
    /// origin staying where they are.
    pub fn resize_simple(&mut self, y_len: NcDim, x_len: NcDim) -> (r: NcResult<()>)
        requires
            old(self).wf(),
        ensures
            final(self).wf(),
            r is Ok <==> !old(self).is_std && y_len >= 1 && x_len >= 1 && y_len * x_len
                <= u32::MAX,
            r is Err ==> *final(self) == *old(self),
            r is Ok ==> {
                &&& *final(self) == (NcPlane {
                    rows: y_len,
                    cols: x_len,
                    cells: final(self).cells,
                    cursor_y: if old(self).cursor_y < y_len {
                        old(self).cursor_y
                    } else {
                        (y_len - 1) as u32
                    },
                    cursor_x: if old(self).cursor_x < x_len {
                        old(self).cursor_x
                    } else {
                        x_len
                    },
                    ..*old(self)
                })
                &&& final(self).cells@.len() == y_len * x_len
                &&& forall|ny: int, nx: int|
                    0 <= ny < y_len && 0 <= nx < x_len ==> final(self).cells@[ny * x_len + nx]
                        == (if ny < old(self).rows && nx < old(self).cols {
                        old(self).cell_at(ny, nx)
                    } else {
                        blank_cell()
                    })
            },
    {
        if y_len == 0 || x_len == 0 {
            return Err(NcError::with_msg(NCRESULT_ERR, "a plane needs at least one cell"));
        }
        let keep_len_y: NcDim = if self.rows < y_len {
            self.rows
        } else {
            y_len
        };
        let keep_len_x: NcDim = if self.cols < x_len {
            self.cols
        } else {
            x_len
        };
        let r = self.resize(0, 0, keep_len_y, keep_len_x, 0, 0, y_len, x_len);
        proof {
            if r is Ok {
                assert forall|ny: int, nx: int|
                    0 <= ny < y_len && 0 <= nx < x_len implies #[trigger] self.cells@[ny * x_len
                    + nx] == (if ny < old(self).rows && nx < old(self).cols {
                    old(self).cell_at(ny, nx)
                } else {
                    blank_cell()
                }) by {
                    assert(0 <= ny * x_len + nx < y_len * x_len) by (nonlinear_arith)
                        requires
                            0 <= ny < y_len,
                            0 <= nx < x_len,
                    ;
                    assert(self.cells@[ny * x_len + nx] == resized_cell(
                        *old(self),
                        0,
                        0,
                        keep_len_y as int,
                        keep_len_x as int,
                        0,
                        0,
                        ny,
                        nx,
                    ));
                    assert(keep_len_y > 0);
                    assert((0 <= ny < keep_len_y && 0 <= nx < keep_len_x) <==> (ny < old(
                        self,
                    ).rows && nx < old(self).cols));
                }
            }
        }
        r
    }

    /// Erases every cell of this plane and homes the cursor. Styles,
    /// channels, the base cell and the scrolling flag are kept.
    pub fn erase(&mut self)
        requires
            old(self).wf(),
        ensures
            final(self).wf(),
            *final(self) == (NcPlane {
                cells: final(self).cells,
                cursor_y: 0,
                cursor_x: 0,
                ..*old(self)
            }),
            final(self).cells@.len() == old(self).cells@.len(),
            forall|i: int|
                0 <= i < final(self).cells@.len() ==> final(self).cells@[i] == blank_cell(),
    {
        let n = self.cells.len();
        let mut i: usize = 0;
        while i < n
            invariant
                n == self.cells@.len(),
                i <= n,
                *self == (NcPlane { cells: self.cells, cursor_y: 0, cursor_x: 0, ..*old(self) })
                    || *self == (NcPlane { cells: self.cells, ..*old(self) }),
                self.cells@.len() == old(self).cells@.len(),
                forall|k: int| 0 <= k < i ==> self.cells@[k] == blank_cell(),
            decreases n - i,
        {
            self.cells.set(i, NcCell::new());
            i = i + 1;
        }
        self.cursor_y = 0;
        self.cursor_x = 0;
    }

    /// Erases the region described by an origin and two signed lengths.
    ///
    /// The origin is (`beg_y`, `beg_x`), with `None` standing for the
    /// cursor's position on that axis. An origin outside the plane is an
    /// error whatever the lengths. Along each axis, a zero length erases
    /// the whole axis, a positive length erases that many cells from the
    /// origin on, and a negative length erases that many cells going
    /// backward from (and not including) the origin; the covered cells
    /// are clipped to the plane. In particular, both lengths zero with a
    /// legal origin erase the whole plane. The cursor does not move.
    pub fn erase_region(
        &mut self,
        beg_y: Option<NcDim>,
        beg_x: Option<NcDim>,
        len_y: NcOffset,
        len_x: NcOffset,
    ) -> (r: NcResult<()>)
        requires
            old(self).wf(),
        ensures
            final(self).wf(),
            r is Ok <==> resolve_coord(beg_y, old(self).cursor_y) < old(self).rows
                && resolve_coord(beg_x, old(self).cursor_x) < old(self).cols,
            r is Err ==> *final(self) == *old(self),
            r is Ok ==> {
                let oy = resolve_coord(beg_y, old(self).cursor_y) as int;
                let ox = resolve_coord(beg_x, old(self).cursor_x) as int;
                &&& *final(self) == (NcPlane { cells: final(self).cells, ..*old(self) })
                &&& final(self).cells@.len() == old(self).cells@.len()
                &&& forall|y: int, x: int|
                    old(self).spec_on_plane(y, x) ==> final(self).cell_at(y, x) == (if span_lo(
                        oy,
                        len_y as int,
                        old(self).rows as int,
                    ) <= y < span_end(oy, len_y as int, old(self).rows as int) && span_lo(
                        ox,
                        len_x as int,
                        old(self).cols as int,
                    ) <= x < span_end(ox, len_x as int, old(self).cols as int) {
                        blank_cell()
                    } else {
                        old(self).cell_at(y, x)
                    })
            },
    {
        let oy = match beg_y {
            Some(v) => v,
            None => self.cursor_y,
        };
        let ox = match beg_x {
            Some(v) => v,
            None => self.cursor_x,
        };
        if oy >= self.rows || ox >= self.cols {
            return Err(NcError::with_msg(NCRESULT_ERR, "erase origin outside the plane"));
        }
        let (ylo, yend) = erase_span(oy, len_y, self.rows);
        let (xlo, xend) = erase_span(ox, len_x, self.cols);
        let mut y: NcDim = ylo;
        while y < yend
            invariant
                self.wf(),
                ylo <= y <= yend,
                yend <= self.rows,
                xlo <= xend <= self.cols,
                *self == (NcPlane { cells: self.cells, ..*old(self) }),
                self.cells@.len() == old(self).cells@.len(),
                forall|yy: int, xx: int|
                    old(self).spec_on_plane(yy, xx) ==> self.cell_at(yy, xx) == (if ylo <= yy < y
                        && xlo <= xx < xend {
                        blank_cell()
                    } else {
                        old(self).cell_at(yy, xx)
                    }),
            decreases yend - y,
        {
            let mut x: NcDim = xlo;
            while x < xend
                invariant
                    self.wf(),
                    ylo <= y < yend,
                    yend <= self.rows,
                    xlo <= x <= xend,
                    xend <= self.cols,
                    *self == (NcPlane { cells: self.cells, ..*old(self) }),
                    self.cells@.len() == old(self).cells@.len(),
                    forall|yy: int, xx: int|
                        old(self).spec_on_plane(yy, xx) ==> self.cell_at(yy, xx) == (if (ylo <= yy
                            < y && xlo <= xx < xend) || (yy == y && xlo <= xx < x) {
                            blank_cell()
                        } else {
                            old(self).cell_at(yy, xx)
                        }),
                decreases xend - x,
            {
                self.set_cell(y, x, NcCell::new());
                x = x + 1;
            }
            y = y + 1;
        }
        Ok(())
    }

    /// The glyph of the cell at (`y`, `x`) as a string (empty for an
    /// undrawn cell), writing the cell's styles and channels out through
    /// `stylemask` and `channels`. A position outside the plane is an
    /// error, and the out-parameters are left alone.
    pub fn at_yx(
        &self,
        y: NcDim,
        x: NcDim,
        stylemask: &mut NcStyle,
        channels: &mut NcChannels,
    ) -> (r: NcResult<String>)
        requires
            self.wf(),
        ensures
            r is Ok <==> self.spec_on_plane(y as int, x as int),
            r matches Ok(s) ==> {
                &&& *final(stylemask) == self.cell_at(y as int, x as int).stylemask
                &&& *final(channels) == self.cell_at(y as int, x as int).channels
                &&& (self.cell_at(y as int, x as int).spec_undrawn() ==> s@ == Seq::<
                    char,
                >::empty())
                &&& (!self.cell_at(y as int, x as int).spec_undrawn() ==> s@ == seq![
                    self.cell_at(y as int, x as int).gcluster,
                ])
            },
            r is Err ==> *final(stylemask) == *old(stylemask) && *final(channels) == *old(
                channels,
            ),
    {
        if y >= self.rows || x >= self.cols {
            return Err(NcError::with_msg(NCRESULT_ERR, "cell position outside the plane"));
        }
        let i = self.index_of(y, x);
        let c = self.cells[i];
        *stylemask = c.stylemask;
        *channels = c.channels;
        if c.undrawn() {
            Ok(String::new())
        } else {
            Ok(char_string(c.gcluster))
        }
    }

    /// The glyph under the cursor as a string, writing styles and channels
    /// out; an error when the cursor rests past the end of its row.
    pub fn at_cursor(&self, stylemask: &mut NcStyle, channels: &mut NcChannels) -> (r: NcResult<
        String,
    >)
        requires
            self.wf(),
        ensures
            r is Ok <==> self.cursor_x < self.cols,
            r matches Ok(s) ==> {
                &&& *final(stylemask) == self.cell_at(
                    self.cursor_y as int,
                    self.cursor_x as int,
                ).stylemask
                &&& *final(channels) == self.cell_at(
                    self.cursor_y as int,
                    self.cursor_x as int,
                ).channels
                &&& (self.cell_at(self.cursor_y as int, self.cursor_x as int).spec_undrawn()
                    ==> s@ == Seq::<char>::empty())
                &&& (!self.cell_at(self.cursor_y as int, self.cursor_x as int).spec_undrawn()
                    ==> s@ == seq![self.cell_at(self.cursor_y as int, self.cursor_x as int).gcluster])
            },
            r is Err ==> *final(stylemask) == *old(stylemask) && *final(channels) == *old(
                channels,
            ),
    {
        let y = self.cursor_y;
        let x = self.cursor_x;
        self.at_yx(y, x, stylemask, channels)
    }

    /// Copies the cell at (`y`, `x`) into `cell`, returning how many bytes
    /// the glyph's encoding takes (0 for an undrawn cell). A position
    /// outside the plane is an error, and `cell` is left alone.
    pub fn at_yx_cell(&self, y: NcDim, x: NcDim, cell: &mut NcCell) -> (r: NcResult<u32>)
        requires
            self.wf(),
        ensures
            r is Ok <==> self.spec_on_plane(y as int, x as int),
            r is Ok ==> *final(cell) == self.cell_at(y as int, x as int),
            r matches Ok(n) ==> n == (if self.cell_at(y as int, x as int).spec_undrawn() {
                0
            } else {
                crate::cell::spec_utf8_len(self.cell_at(y as int, x as int).gcluster) as u32
            }),
            r is Err ==> *final(cell) == *old(cell),
    {
        if y >= self.rows || x >= self.cols {
            return Err(NcError::with_msg(NCRESULT_ERR, "cell position outside the plane"));
        }
        let i = self.index_of(y, x);
        let c = self.cells[i];
        *cell = c;
        if c.undrawn() {
            Ok(0)
        } else {
            Ok(utf8_len(c.gcluster) as u32)
        }
    }

    /// Copies the cell under the cursor into `cell`, returning how many
    /// bytes the glyph's encoding takes; an error when the cursor rests
    /// past the end of its row.
    pub fn at_cursor_cell(&self, cell: &mut NcCell) -> (r: NcResult<u32>)
        requires
            self.wf(),
        ensures
            r is Ok <==> self.cursor_x < self.cols,
            r is Ok ==> *final(cell) == self.cell_at(self.cursor_y as int, self.cursor_x as int),
            r is Err ==> *final(cell) == *old(cell),
    {
        let y = self.cursor_y;
        let x = self.cursor_x;
        self.at_yx_cell(y, x, cell)
    }

    /// Scrolls the plane up `r` times: every row moves up one place per
    /// scroll and blank rows come in at the bottom. An error unless
    /// scrolling is enabled; the cursor does not move.
    pub fn scrollup(&mut self, r: NcDim) -> (res: NcResult<NcDim>)
        requires
            old(self).wf(),
        ensures
            final(self).wf(),
            res is Ok <==> old(self).scrolling,
            res is Err ==> *final(self) == *old(self),
            res is Ok ==> {
                &&& res == Ok::<NcDim, NcError>(r)
                &&& *final(self) == (NcPlane { cells: final(self).cells, ..*old(self) })
                &&& final(self).cells@.len() == old(self).cells@.len()
                &&& forall|y: int, x: int|
                    old(self).spec_on_plane(y, x) ==> final(self).cell_at(y, x) == (if y + r
                        < old(self).rows {
                        old(self).cell_at(y + r, x)
                    } else {
                        blank_cell()
                    })
            },
    {
        if !self.scrolling {
            return Err(NcError::with_msg(NCRESULT_ERR, "the plane is not scrolling"));
        }
        if r == 0 {
            return Ok(0);
        }
        let rows = self.rows;
        let cols = self.cols;
        let mut y: NcDim = 0;
        while y < rows
            invariant
                self.wf(),
                old(self).scrolling,
                r >= 1,
                y <= rows,
                rows == self.rows,
                cols == self.cols,
                *self == (NcPlane { cells: self.cells, ..*old(self) }),
                self.cells@.len() == old(self).cells@.len(),
                forall|yy: int, xx: int|
                    old(self).spec_on_plane(yy, xx) ==> self.cell_at(yy, xx) == (if yy < y {
                        if yy + r < rows {
                            old(self).cell_at(yy + r, xx)
                        } else {
                            blank_cell()
                        }
                    } else {
                        old(self).cell_at(yy, xx)
                    }),
            decreases rows - y,
        {
            let mut x: NcDim = 0;
            while x < cols
                invariant
                    self.wf(),
                    old(self).scrolling,
                    r >= 1,
                    y < rows,
                    x <= cols,
                    rows == self.rows,
                    cols == self.cols,
                    *self == (NcPlane { cells: self.cells, ..*old(self) }),
                    self.cells@.len() == old(self).cells@.len(),
                    forall|yy: int, xx: int|
                        old(self).spec_on_plane(yy, xx) ==> self.cell_at(yy, xx) == (if yy < y || (
                        yy == y && xx < x) {
                            if yy + r < rows {
                                old(self).cell_at(yy + r, xx)
                            } else {
                                blank_cell()
                            }
                        } else {
                            old(self).cell_at(yy, xx)
                        }),
                decreases cols - x,
            {
                let src_y: i64 = y as i64 + r as i64;
                let c: NcCell = if src_y < rows as i64 {
                    let i = self.index_of(src_y as u32, x);
                    self.cells[i]
                } else {
                    NcCell::new()
                };
                proof {
                    if y + r < rows {
                        assert(old(self).spec_on_plane(y as int + r as int, x as int));
                        assert(c == self.cell_at(y as int + r as int, x as int));
                        assert(c == old(self).cell_at(y as int + r as int, x as int));
                    } else {
                        assert(c == blank_cell());
                    }
                }
                self.set_cell(y, x, c);
                x = x + 1;
            }
            y = y + 1;
        }
        Ok(r)
    }
}

impl NcPlane {
    /// Maps (`y`, `x`), relative to this plane's origin, to the same
    /// position relative to `target`'s origin, the two origins taken in
    /// the coordinate frame the planes share (as merges take them). A
    /// result outside the representable offset range is an error.
    pub fn translate(&self, target: &NcPlane, y: NcDim, x: NcDim) -> (r: NcResult<(
        NcOffset,
        NcOffset,
    )>)
        ensures
            r is Ok <==> i32::MIN <= self.y + y - target.y <= i32::MAX && i32::MIN <= self.x + x
                - target.x <= i32::MAX,
            r matches Ok(v) ==> v.0 == self.y + y - target.y && v.1 == self.x + x - target.x,
    {
        let ty: i64 = self.y as i64 + y as i64 - target.y as i64;
        let tx: i64 = self.x as i64 + x as i64 - target.x as i64;
        if ty < i32::MIN as i64 || ty > i32::MAX as i64 || tx < i32::MIN as i64 || tx
            > i32::MAX as i64 {
            return Err(NcError::with_msg(NCRESULT_ERR, "translated position out of range"));
        }
        Ok((ty as i32, tx as i32))
    }

    /// Maps (`y`, `x`), given in the coordinate frame the planes share,
    /// to the same position relative to this plane's origin, and tells
    /// whether that position lies on the plane. A result outside the
    /// representable offset range is an error.
    pub fn translate_abs(&self, y: NcOffset, x: NcOffset) -> (r: NcResult<(
        NcOffset,
        NcOffset,
        bool,
    )>)
        ensures
            r is Ok <==> i32::MIN <= y - self.y <= i32::MAX && i32::MIN <= x - self.x
                <= i32::MAX,
            r matches Ok(v) ==> v.0 == y - self.y && v.1 == x - self.x && (v.2 <==> 0 <= y
                - self.y < self.rows && 0 <= x - self.x < self.cols),
    {
        let ly: i64 = y as i64 - self.y as i64;
        let lx: i64 = x as i64 - self.x as i64;
        if ly < i32::MIN as i64 || ly > i32::MAX as i64 || lx < i32::MIN as i64 || lx
            > i32::MAX as i64 {
            return Err(NcError::with_msg(NCRESULT_ERR, "translated position out of range"));
        }
        let on = 0 <= ly && ly < self.rows as i64 && 0 <= lx && lx < self.cols as i64;
        Ok((ly as i32, lx as i32, on))
    }

    /// The center cell of this plane, in the coordinate frame the planes
    /// share: the origin plus half the extents, preferring the top and
    /// the left on even extents. A center outside the representable
    /// offset range is an error.
    pub fn center_abs(&self) -> (r: NcResult<(NcOffset, NcOffset)>)
        requires
            self.wf(),
        ensures
            r is Ok <==> self.y + (self.rows - 1) / 2 <= i32::MAX && self.x + (self.cols - 1) / 2
                <= i32::MAX,
            r matches Ok(v) ==> v.0 == self.y + (self.rows - 1) / 2 && v.1 == self.x + (self.cols
                - 1) / 2,
    {
        let cy: i64 = self.y as i64 + ((self.rows - 1) / 2) as i64;
        let cx: i64 = self.x as i64 + ((self.cols - 1) / 2) as i64;
        if cy > i32::MAX as i64 || cx > i32::MAX as i64 {
            return Err(NcError::with_msg(NCRESULT_ERR, "center out of range"));
        }
        Ok((cy as i32, cx as i32))
    }

    /// A flat string of the glyphs in the selected region, row by row,
    /// with undrawn cells contributing nothing.
    ///
    /// The region begins at (`beg_y`, `beg_x`), with `None` standing for
    /// the cursor's position on that axis, and continues for `len_y` by
    /// `len_x` cells, with `None` or zero standing for the whole rest of
    /// the plane along that axis. A region that does not lie on the plane
    /// yields the empty string.
    pub fn contents(
        &self,
        beg_y: Option<NcDim>,
        beg_x: Option<NcDim>,
        len_y: Option<NcDim>,
        len_x: Option<NcDim>,
    ) -> (s: String)
        requires
            self.wf(),
        ensures
            ({
                let oy = resolve_coord(beg_y, self.cursor_y) as int;
                let ox = resolve_coord(beg_x, self.cursor_x) as int;
                let yend = contents_end(len_y, oy, self.rows as int);
                let xend = contents_end(len_x, ox, self.cols as int);
                if oy < self.rows && ox < self.cols && yend <= self.rows && xend <= self.cols {
                    s@ == region_contents(*self, oy, yend, ox, xend)
                } else {
                    s@ == Seq::<char>::empty()
                }
            }),
    {
        let oy = match beg_y {
            Some(v) => v,
            None => self.cursor_y,
        };
        let ox = match beg_x {
            Some(v) => v,
            None => self.cursor_x,
        };
        if oy >= self.rows || ox >= self.cols {
            return String::new();
        }
        let yend64: u64 = match len_y {
            Some(l) => if l == 0 {
                self.rows as u64
            } else {
                oy as u64 + l as u64
            },
            None => self.rows as u64,
        };
        let xend64: u64 = match len_x {
            Some(l) => if l == 0 {
                self.cols as u64
            } else {
                ox as u64 + l as u64
            },
            None => self.cols as u64,
        };
        if yend64 > self.rows as u64 || xend64 > self.cols as u64 {
            return String::new();
        }
        let yend: NcDim = yend64 as u32;
        let xend: NcDim = xend64 as u32;
        let mut out = String::new();
        let mut y: NcDim = oy;
        proof {
            assert(out@ =~= region_contents(*self, oy as int, oy as int, ox as int, xend as int));
        }
        while y < yend
            invariant
                self.wf(),
                oy <= y <= yend,
                yend <= self.rows,
                ox < self.cols,
                ox <= xend <= self.cols,
                out@ == region_contents(*self, oy as int, y as int, ox as int, xend as int),
            decreases yend - y,
        {
            let mut x: NcDim = ox;
            proof {
                assert(row_contents(*self, y as int, ox as int, ox as int) =~= Seq::<
                    char,
                >::empty());
                assert(out@ =~= region_contents(*self, oy as int, y as int, ox as int, xend as int)
                    + row_contents(*self, y as int, ox as int, ox as int));
            }
            while x < xend
                invariant
                    self.wf(),
                    oy <= y < yend,
                    yend <= self.rows,
                    ox <= x <= xend,
                    xend <= self.cols,
                    out@ == region_contents(*self, oy as int, y as int, ox as int, xend as int)
                        + row_contents(*self, y as int, ox as int, x as int),
                decreases xend - x,
            {
                let i = self.index_of(y, x);
                let c = self.cells[i];
                proof {
                    lemma_row_contents_snoc(*self, y as int, ox as int, x as int);
                }
                if !c.undrawn() {
                    string_push(&mut out, c.gcluster);
                }
                proof {
                    assert(out@ =~= region_contents(
                        *self,
                        oy as int,
                        y as int,
                        ox as int,
                        xend as int,
                    ) + row_contents(*self, y as int, ox as int, x as int + 1));
                }
                x = x + 1;
            }
            proof {
                lemma_region_contents_snoc(*self, oy as int, y as int, ox as int, xend as int);
            }
            y = y + 1;
        }
        out
    }
}

/// One past the last coordinate of a dumped region along one axis: the
/// given length counted from the origin, with `None` or zero standing
/// for the axis boundary `d`.
pub open spec fn contents_end(l: Option<NcDim>, o: int, d: int) -> int {
    match l {
        Some(v) => if v == 0 {
            d
        } else {
            o + v
        },
        None => d,
    }
}

} // verus!
