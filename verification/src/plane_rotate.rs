//! Quarter-turn rotation of plane content.
//!
//! Cells are twice as tall as they are wide, so rotation treats one row
//! by two columns as a square: a plane of `r` rows and `c` columns (`c`
//! even) turns into one of `c / 2` rows and `2 * r` columns, and each
//! glyph is replaced by its quarter-turned form. Only glyphs with such a
//! form can be rotated: the space, the undrawn cell, full, half and
//! quarter-height blocks, and the light box-drawing set.

use vstd::prelude::*;
use crate::cell::NcCell;
use crate::plane::NcPlane;
use crate::result::{NcError, NcResult, NCRESULT_ERR};
use crate::types::NcDim;

verus! {

/// Whether a glyph has a quarter-turned form.
pub open spec fn spec_rotatable(ch: char) -> bool {
    ||| ch == '\0'
    ||| ch == ' '
    ||| ch == '\u{2500}'
    ||| ch == '\u{2502}'
    ||| ch == '\u{250c}'
    ||| ch == '\u{2510}'
    ||| ch == '\u{2518}'
    ||| ch == '\u{2514}'
    ||| ch == '\u{2588}'
    ||| ch == '\u{2580}'
    ||| ch == '\u{2590}'
    ||| ch == '\u{2584}'
    ||| ch == '\u{258c}'
}

/// The glyph a quarter turn clockwise produces.
pub open spec fn spec_rot_cw(ch: char) -> char {
    if ch == '\u{2500}' {
        '\u{2502}'
    } else if ch == '\u{2502}' {
        '\u{2500}'
    } else if ch == '\u{250c}' {
        '\u{2510}'
    } else if ch == '\u{2510}' {
        '\u{2518}'
    } else if ch == '\u{2518}' {
        '\u{2514}'
    } else if ch == '\u{2514}' {
        '\u{250c}'
    } else if ch == '\u{2580}' {
        '\u{2590}'
    } else if ch == '\u{2590}' {
        '\u{2584}'
    } else if ch == '\u{2584}' {
        '\u{258c}'
    } else if ch == '\u{258c}' {
        '\u{2580}'
    } else {
        ch
    }
}

/// The glyph a quarter turn counter-clockwise produces.
pub open spec fn spec_rot_ccw(ch: char) -> char {
    if ch == '\u{2500}' {
        '\u{2502}'
    } else if ch == '\u{2502}' {
        '\u{2500}'
    } else if ch == '\u{250c}' {
        '\u{2514}'
    } else if ch == '\u{2514}' {
        '\u{2518}'
    } else if ch == '\u{2518}' {
        '\u{2510}'
    } else if ch == '\u{2510}' {
        '\u{250c}'
    } else if ch == '\u{2580}' {
        '\u{258c}'
    } else if ch == '\u{258c}' {
        '\u{2584}'
    } else if ch == '\u{2584}' {
        '\u{2590}'
    } else if ch == '\u{2590}' {
        '\u{2580}'
    } else {
        ch
    }
}

/// Whether every cell of the plane carries a rotatable glyph.
pub open spec fn spec_all_rotatable(p: NcPlane) -> bool {
    forall|i: int| 0 <= i < p.cells@.len() ==> spec_rotatable(#[trigger] p.cells@[i].gcluster)
}

/// The cell a clockwise turn puts at (`ny`, `nx`) of the turned plane:
/// the quarter-turned glyph of the cell that stood at row
/// `rows - 1 - nx / 2`, column `2 * ny + nx % 2`.
pub open spec fn spec_rotated_cw_cell(pre: NcPlane, ny: int, nx: int) -> NcCell {
    let src = pre.cell_at(pre.rows - 1 - nx / 2, 2 * ny + nx % 2);
    NcCell { gcluster: spec_rot_cw(src.gcluster), ..src }
}

/// The cell a counter-clockwise turn puts at (`ny`, `nx`) of the turned
/// plane: the quarter-turned glyph of the cell that stood at row
/// `nx / 2`, column `pre.cols - 2 - 2 * ny + nx % 2`.
pub open spec fn spec_rotated_ccw_cell(pre: NcPlane, ny: int, nx: int) -> NcCell {
    let src = pre.cell_at(nx / 2, pre.cols - 2 - 2 * ny + nx % 2);
    NcCell { gcluster: spec_rot_ccw(src.gcluster), ..src }
}

/// Whether a plane can be rotated at all: not the standard plane, and an
/// even column count.
pub open spec fn spec_rotate_ok(p: NcPlane) -> bool {
    &&& !p.is_std
    &&& p.cols % 2 == 0
    &&& spec_all_rotatable(p)
}

/// The glyph a quarter turn clockwise produces.
fn rot_cw_glyph(ch: char) -> (r: char)
    ensures
        r == spec_rot_cw(ch),
{
    if ch == '\u{2500}' {
        '\u{2502}'
    } else if ch == '\u{2502}' {
        '\u{2500}'
    } else if ch == '\u{250c}' {
        '\u{2510}'
    } else if ch == '\u{2510}' {
        '\u{2518}'
    } else if ch == '\u{2518}' {
        '\u{2514}'
    } else if ch == '\u{2514}' {
        '\u{250c}'
    } else if ch == '\u{2580}' {
        '\u{2590}'
    } else if ch == '\u{2590}' {
        '\u{2584}'
    } else if ch == '\u{2584}' {
        '\u{258c}'
    } else if ch == '\u{258c}' {
        '\u{2580}'
    } else {
        ch
    }
}

/// The glyph a quarter turn counter-clockwise produces.
fn rot_ccw_glyph(ch: char) -> (r: char)
    ensures
        r == spec_rot_ccw(ch),
{
    if ch == '\u{2500}' {
        '\u{2502}'
    } else if ch == '\u{2502}' {
        '\u{2500}'
    } else if ch == '\u{250c}' {
        '\u{2514}'
    } else if ch == '\u{2514}' {
        '\u{2518}'
    } else if ch == '\u{2518}' {
        '\u{2510}'
    } else if ch == '\u{2510}' {
        '\u{250c}'
    } else if ch == '\u{2580}' {
        '\u{258c}'
    } else if ch == '\u{258c}' {
        '\u{2584}'
    } else if ch == '\u{2584}' {
        '\u{2590}'
    } else if ch == '\u{2590}' {
        '\u{2580}'
    } else {
        ch
    }
}

/// Whether a glyph has a quarter-turned form.
fn rotatable_glyph(ch: char) -> (r: bool)
    ensures
        r == spec_rotatable(ch),
{
    ch == '\0' || ch == ' ' || ch == '\u{2500}' || ch == '\u{2502}' || ch == '\u{250c}' || ch
        == '\u{2510}' || ch == '\u{2518}' || ch == '\u{2514}' || ch == '\u{2588}' || ch
        == '\u{2580}' || ch == '\u{2590}' || ch == '\u{2584}' || ch == '\u{258c}'
}

impl NcPlane {
    /// Whether every cell of this plane carries a rotatable glyph.
    fn all_rotatable(&self) -> (r: bool)
        ensures
            r == spec_all_rotatable(*self),
    {
        let n = self.cells.len();
        let mut i: usize = 0;
        while i < n
            invariant
                i <= n,
                n == self.cells@.len(),
                forall|k: int|
                    0 <= k < i ==> spec_rotatable(#[trigger] self.cells@[k].gcluster),
            decreases n - i,
        {
            if !rotatable_glyph(self.cells[i].gcluster) {
                return false;
            }
            i = i + 1;
        }
        true
    }

    /// Rotates this plane a quarter turn clockwise: `rows` by `cols`
    /// cells become `cols / 2` by `2 * rows`, each glyph replaced by its
    /// turned form (see [`spec_rotated_cw_cell`]), and the cursor is
    /// homed. The standard plane, an odd column count, or any glyph
    /// without a turned form is an error, and the plane is unchanged.
    pub fn rotate_cw(&mut self) -> (r: NcResult<()>)
        requires
            old(self).wf(),
        ensures
            final(self).wf(),
            r is Ok <==> spec_rotate_ok(*old(self)),
            r is Err ==> *final(self) == *old(self),
            r is Ok ==> {
                &&& *final(self) == (NcPlane {
                    rows: (old(self).cols / 2) as u32,
                    cols: (2 * old(self).rows) as u32,
                    cells: final(self).cells,
                    cursor_y: 0u32,
                    cursor_x: 0u32,
                    ..*old(self)
                })
                &&& final(self).cells@.len() == old(self).cells@.len()
                &&& forall|ny: int, nx: int|
                    0 <= ny < old(self).cols / 2 && 0 <= nx < 2 * old(self).rows ==> final(self).cells@[ny * (2 * old(self).rows) + nx] == spec_rotated_cw_cell(
                        *old(self),
                        ny,
                        nx,
                    )
            },
    {
        if self.is_std {
            return Err(NcError::with_msg(NCRESULT_ERR, "the standard plane cannot be rotated"));
        }
        if self.cols % 2 != 0 {
            return Err(NcError::with_msg(NCRESULT_ERR, "rotation needs an even column count"));
        }
        if !self.all_rotatable() {
            return Err(NcError::with_msg(NCRESULT_ERR, "a glyph has no turned form"));
        }
        let new_rows: NcDim = self.cols / 2;
        proof {
            let pr = old(self).rows as int;
            let pc = old(self).cols as int;
            assert(2 * pr <= u32::MAX && (pc / 2) * (2 * pr) == pr * pc) by (nonlinear_arith)
                requires
                    pr >= 1,
                    pc >= 2,
                    pc % 2 == 0,
                    pr * pc <= u32::MAX,
            ;
        }
        let new_cols: NcDim = 2 * self.rows;
        let mut grid: Vec<NcCell> = Vec::new();
        let mut ny: NcDim = 0;
        while ny < new_rows
            invariant
                self.wf(),
                *self == *old(self),
                ny <= new_rows,
                new_rows == old(self).cols / 2,
                new_cols == 2 * old(self).rows,
                new_rows >= 1,
                new_cols >= 2,
                old(self).cols % 2 == 0,
                (new_rows as int) * (new_cols as int) == (old(self).rows as int) * (old(self).cols as int),
                grid@.len() == ny * new_cols,
                forall|qy: int, qx: int|
                    0 <= qy < ny && 0 <= qx < new_cols ==> grid@[qy * new_cols + qx]
                        == spec_rotated_cw_cell(*old(self), qy, qx),
            decreases new_rows - ny,
        {
            let mut nx: NcDim = 0;
            proof {
                let nyi = ny as int;
                let nci = new_cols as int;
                let nri = new_rows as int;
                assert(nyi * nci + nci <= nri * nci && nyi * nci >= 0) by (nonlinear_arith)
                    requires
                        0 <= nyi < nri,
                        nci >= 1,
                ;
            }
            while nx < new_cols
                invariant
                    self.wf(),
                    *self == *old(self),
                    ny < new_rows,
                    nx <= new_cols,
                    new_rows == old(self).cols / 2,
                    new_cols == 2 * old(self).rows,
                    new_rows >= 1,
                    new_cols >= 2,
                    old(self).cols % 2 == 0,
                    ny * new_cols + new_cols <= new_rows * new_cols,
                    ny * new_cols >= 0,
                    grid@.len() == ny * new_cols + nx,
                    forall|qy: int, qx: int|
                        (0 <= qy < ny && 0 <= qx < new_cols) || (qy == ny && 0 <= qx < nx)
                            ==> grid@[qy * new_cols + qx] == spec_rotated_cw_cell(
                            *old(self),
                            qy,
                            qx,
                        ),
                decreases new_cols - nx,
            {
                let sy: NcDim = self.rows - 1 - nx / 2;
                let sx: NcDim = 2 * ny + nx % 2;
                proof {
                    let pr = old(self).rows as int;
                    let pc = old(self).cols as int;
                    let nyi = ny as int;
                    let nxi = nx as int;
                    assert(nxi / 2 < pr && 2 * nyi + nxi % 2 < pc) by (nonlinear_arith)
                        requires
                            0 <= nxi < 2 * pr,
                            0 <= nyi < pc / 2,
                            pc % 2 == 0,
                            pr >= 1,
                            pc >= 2,
                    ;
                }
                let i = self.index_of(sy, sx);
                let src = self.cells[i];
                let turned = NcCell { gcluster: rot_cw_glyph(src.gcluster), ..src };
                grid.push(turned);
                proof {
                    assert forall|qy: int, qx: int|
                        (0 <= qy < ny && 0 <= qx < new_cols) || (qy == ny && 0 <= qx < nx
                            + 1) implies grid@[qy * new_cols + qx] == spec_rotated_cw_cell(
                        *old(self),
                        qy,
                        qx,
                    ) by {
                        if qy == ny && qx == nx {
                        } else {
                            crate::plane_cells::lemma_rowmajor_lt(
                                qy,
                                qx,
                                ny as int,
                                nx as int,
                                new_cols as int,
                            );
                        }
                    }
                }
                nx = nx + 1;
            }
            proof {
                assert((ny as int + 1) * (new_cols as int) == (ny as int) * (new_cols as int) + (
                new_cols as int)) by (nonlinear_arith);
            }
            ny = ny + 1;
        }
        self.cells = grid;
        self.rows = new_rows;
        self.cols = new_cols;
        self.cursor_y = 0;
        self.cursor_x = 0;
        Ok(())
    }

    /// Rotates this plane a quarter turn counter-clockwise; see
    /// [`rotate_cw`](Self::rotate_cw) and [`spec_rotated_ccw_cell`].
    pub fn rotate_ccw(&mut self) -> (r: NcResult<()>)
        requires
            old(self).wf(),
        ensures
            final(self).wf(),
            r is Ok <==> spec_rotate_ok(*old(self)),
            r is Err ==> *final(self) == *old(self),
            r is Ok ==> {
                &&& *final(self) == (NcPlane {
                    rows: (old(self).cols / 2) as u32,
                    cols: (2 * old(self).rows) as u32,
                    cells: final(self).cells,
                    cursor_y: 0u32,
                    cursor_x: 0u32,
                    ..*old(self)
                })
                &&& final(self).cells@.len() == old(self).cells@.len()
                &&& forall|ny: int, nx: int|
                    0 <= ny < old(self).cols / 2 && 0 <= nx < 2 * old(self).rows ==> final(self).cells@[ny * (2 * old(self).rows) + nx] == spec_rotated_ccw_cell(
                        *old(self),
                        ny,
                        nx,
                    )
            },
    {
        if self.is_std {
            return Err(NcError::with_msg(NCRESULT_ERR, "the standard plane cannot be rotated"));
        }
        if self.cols % 2 != 0 {
            return Err(NcError::with_msg(NCRESULT_ERR, "rotation needs an even column count"));
        }
        if !self.all_rotatable() {
            return Err(NcError::with_msg(NCRESULT_ERR, "a glyph has no turned form"));
        }
        let new_rows: NcDim = self.cols / 2;
        proof {
            let pr = old(self).rows as int;
            let pc = old(self).cols as int;
            assert(2 * pr <= u32::MAX && (pc / 2) * (2 * pr) == pr * pc) by (nonlinear_arith)
                requires
                    pr >= 1,
                    pc >= 2,
                    pc % 2 == 0,
                    pr * pc <= u32::MAX,
            ;
        }
        let new_cols: NcDim = 2 * self.rows;
        let mut grid: Vec<NcCell> = Vec::new();
        let mut ny: NcDim = 0;
        while ny < new_rows
            invariant
                self.wf(),
                *self == *old(self),
                ny <= new_rows,
                new_rows == old(self).cols / 2,
                new_cols == 2 * old(self).rows,
                new_rows >= 1,
                new_cols >= 2,
                old(self).cols % 2 == 0,
                (new_rows as int) * (new_cols as int) == (old(self).rows as int) * (old(self).cols as int),
                grid@.len() == ny * new_cols,
                forall|qy: int, qx: int|
                    0 <= qy < ny && 0 <= qx < new_cols ==> grid@[qy * new_cols + qx]
                        == spec_rotated_ccw_cell(*old(self), qy, qx),
            decreases new_rows - ny,
        {
            let mut nx: NcDim = 0;
            proof {
                let nyi = ny as int;
                let nci = new_cols as int;
                let nri = new_rows as int;
                assert(nyi * nci + nci <= nri * nci && nyi * nci >= 0) by (nonlinear_arith)
                    requires
                        0 <= nyi < nri,
                        nci >= 1,
                ;
            }
            while nx < new_cols
                invariant
                    self.wf(),
                    *self == *old(self),
                    ny < new_rows,
                    nx <= new_cols,
                    new_rows == old(self).cols / 2,
                    new_cols == 2 * old(self).rows,
                    new_rows >= 1,
                    new_cols >= 2,
                    old(self).cols % 2 == 0,
                    ny * new_cols + new_cols <= new_rows * new_cols,
                    ny * new_cols >= 0,
                    grid@.len() == ny * new_cols + nx,
                    forall|qy: int, qx: int|
                        (0 <= qy < ny && 0 <= qx < new_cols) || (qy == ny && 0 <= qx < nx)
                            ==> grid@[qy * new_cols + qx] == spec_rotated_ccw_cell(
                            *old(self),
                            qy,
                            qx,
                        ),
                decreases new_cols - nx,
            {
                let sy: NcDim = nx / 2;
                proof {
                    let pr = old(self).rows as int;
                    let pc = old(self).cols as int;
                    let nyi = ny as int;
                    let nxi = nx as int;
                    assert(nxi / 2 < pr && 0 <= pc - 2 - 2 * nyi + nxi % 2 < pc)
                        by (nonlinear_arith)
                        requires
                            0 <= nxi < 2 * pr,
                            0 <= nyi < pc / 2,
                            pc % 2 == 0,
                            pr >= 1,
                            pc >= 2,
                    ;
                }
                let sx: NcDim = self.cols - 2 - 2 * ny + nx % 2;
                let i = self.index_of(sy, sx);
                let src = self.cells[i];
                let turned = NcCell { gcluster: rot_ccw_glyph(src.gcluster), ..src };
                grid.push(turned);
                proof {
                    assert forall|qy: int, qx: int|
                        (0 <= qy < ny && 0 <= qx < new_cols) || (qy == ny && 0 <= qx < nx
                            + 1) implies grid@[qy * new_cols + qx] == spec_rotated_ccw_cell(
                        *old(self),
                        qy,
                        qx,
                    ) by {
                        if qy == ny && qx == nx {
                        } else {
                            crate::plane_cells::lemma_rowmajor_lt(
                                qy,
                                qx,
                                ny as int,
                                nx as int,
                                new_cols as int,
                            );
                        }
                    }
                }
                nx = nx + 1;
            }
            proof {
                assert((ny as int + 1) * (new_cols as int) == (ny as int) * (new_cols as int) + (
                new_cols as int)) by (nonlinear_arith);
            }
            ny = ny + 1;
        }
        self.cells = grid;
        self.rows = new_rows;
        self.cols = new_cols;
        self.cursor_y = 0;
        self.cursor_x = 0;
        Ok(())
    }
}

} // verus!
