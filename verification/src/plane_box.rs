//! Boxes and perimeters.
//!
//! A box is drawn from six cells: four corners, a horizontal line cell
//! and a vertical line cell. Mask bits leave chosen sides undrawn,
//! gradient bits blend a side between its two corner cells' channels,
//! and the corner bits hold how many drawn sides a corner must touch to
//! be drawn itself.

use vstd::prelude::*;
use crate::cell::NcCell;
use crate::plane::NcPlane;
use crate::plane_rect::{gradient_channels, spec_grad_channels};
use crate::result::{NcError, NcResult, NCRESULT_ERR};
use crate::types::{NcBoxMask, NcChannels, NcDim, NcStyle};

verus! {

/// Leave the top side undrawn.
pub const NCBOXMASK_TOP: u32 = 0x0001;

/// Leave the right side undrawn.
pub const NCBOXMASK_RIGHT: u32 = 0x0002;

/// Leave the bottom side undrawn.
pub const NCBOXMASK_BOTTOM: u32 = 0x0004;

/// Leave the left side undrawn.
pub const NCBOXMASK_LEFT: u32 = 0x0008;

/// Blend the top side between the upper corners' channels.
pub const NCBOXGRAD_TOP: u32 = 0x0010;

/// Blend the right side between the right corners' channels.
pub const NCBOXGRAD_RIGHT: u32 = 0x0020;

/// Blend the bottom side between the lower corners' channels.
pub const NCBOXGRAD_BOTTOM: u32 = 0x0040;

/// Blend the left side between the left corners' channels.
pub const NCBOXGRAD_LEFT: u32 = 0x0080;

/// The corner bits: how many drawn sides a corner must touch to be
/// drawn itself (0 draws every corner, 3 none).
pub const NCBOXCORNER_MASK: u32 = 0x0300;

/// The shift of the corner bits.
pub const NCBOXCORNER_SHIFT: u32 = 8;

/// How many of two sides are drawn under `boxmask`.
pub open spec fn spec_sides_on(boxmask: NcBoxMask, side_a: u32, side_b: u32) -> int {
    (if boxmask & side_a == 0 {
        1int
    } else {
        0int
    }) + (if boxmask & side_b == 0 {
        1int
    } else {
        0int
    })
}

/// Whether a corner touching the two given sides is drawn under
/// `boxmask`: the sides drawn among them must reach the corner bits'
/// threshold.
pub open spec fn spec_corner_on(boxmask: NcBoxMask, side_a: u32, side_b: u32) -> bool {
    spec_sides_on(boxmask, side_a, side_b) >= ((boxmask >> 8) & 0x3)
}

/// The cell a horizontal box side lays at offset `dx` of its `span`
/// columns: the line cell, with its channels blended between the two
/// corner cells' channels where `grad` asks for it.
pub open spec fn spec_hline_cell(
    line: NcCell,
    c0: NcChannels,
    c1: NcChannels,
    grad: bool,
    dx: int,
    span: int,
) -> NcCell {
    if grad {
        NcCell { channels: spec_grad_channels(c0, c1, c0, c1, 0, dx, 1, span), ..line }
    } else {
        line
    }
}

/// The cell a vertical box side lays at offset `dy` of its `span` rows.
pub open spec fn spec_vline_cell(
    line: NcCell,
    c0: NcChannels,
    c1: NcChannels,
    grad: bool,
    dy: int,
    span: int,
) -> NcCell {
    if grad {
        NcCell { channels: spec_grad_channels(c0, c0, c1, c1, dy, 0, span, 1), ..line }
    } else {
        line
    }
}

impl NcPlane {
    /// Lays a horizontal line segment on row `y`, columns `xa` up to
    /// (not including) `xb`, blending between `c0` and `c1` over the
    /// `span` columns beginning at `gx0` where `grad` asks for it.
    fn fill_row_segment(
        &mut self,
        y: NcDim,
        xa: NcDim,
        xb: NcDim,
        line: NcCell,
        grad: bool,
        c0: NcChannels,
        c1: NcChannels,
        gx0: NcDim,
        span: NcDim,
    ) -> (r: NcResult<()>)
        requires
            old(self).wf(),
            y < old(self).rows,
            gx0 <= xa,
            xa <= xb <= old(self).cols,
            xb <= gx0 + span,
            span <= old(self).cols,
        ensures
            final(self).wf(),
            r is Ok,
            *final(self) == (NcPlane { cells: final(self).cells, ..*old(self) }),
            final(self).cells@.len() == old(self).cells@.len(),
            forall|qy: int, qx: int|
                old(self).spec_on_plane(qy, qx) ==> final(self).cell_at(qy, qx) == (if qy == y
                    && xa <= qx < xb {
                    spec_hline_cell(line, c0, c1, grad, qx - gx0, span as int)
                } else {
                    old(self).cell_at(qy, qx)
                }),
    {
        let mut x: NcDim = xa;
        while x < xb
            invariant
                self.wf(),
                y < self.rows,
                gx0 <= xa,
                xa <= x <= xb <= self.cols,
                xb <= gx0 + span,
                span <= self.cols,
                *self == (NcPlane { cells: self.cells, ..*old(self) }),
                self.cells@.len() == old(self).cells@.len(),
                forall|qy: int, qx: int|
                    old(self).spec_on_plane(qy, qx) ==> self.cell_at(qy, qx) == (if qy == y && xa
                        <= qx < x {
                        spec_hline_cell(line, c0, c1, grad, qx - gx0, span as int)
                    } else {
                        old(self).cell_at(qy, qx)
                    }),
            decreases xb - x,
        {
            let c: NcCell = if grad {
                proof {
                    assert(1 * (span as int) <= 0x2_0000_0000);
                }
                let ch = gradient_channels(
                    c0,
                    c1,
                    c0,
                    c1,
                    0,
                    (x - gx0) as u64,
                    1,
                    span as u64,
                );
                NcCell { channels: ch, ..line }
            } else {
                line
            };
            self.set_cell(y, x, c);
            x = x + 1;
        }
        Ok(())
    }

    /// Lays a vertical line segment on column `x`, rows `ya` up to (not
    /// including) `yb`, blending between `c0` and `c1` over the `span`
    /// rows beginning at `gy0` where `grad` asks for it.
    fn fill_col_segment(
        &mut self,
        x: NcDim,
        ya: NcDim,
        yb: NcDim,
        line: NcCell,
        grad: bool,
        c0: NcChannels,
        c1: NcChannels,
        gy0: NcDim,
        span: NcDim,
    ) -> (r: NcResult<()>)
        requires
            old(self).wf(),
            x < old(self).cols,
            gy0 <= ya,
            ya <= yb <= old(self).rows,
            yb <= gy0 + span,
            span <= old(self).rows,
        ensures
            final(self).wf(),
            r is Ok,
            *final(self) == (NcPlane { cells: final(self).cells, ..*old(self) }),
            final(self).cells@.len() == old(self).cells@.len(),
            forall|qy: int, qx: int|
                old(self).spec_on_plane(qy, qx) ==> final(self).cell_at(qy, qx) == (if qx == x
                    && ya <= qy < yb {
                    spec_vline_cell(line, c0, c1, grad, qy - gy0, span as int)
                } else {
                    old(self).cell_at(qy, qx)
                }),
    {
        let mut y: NcDim = ya;
        while y < yb
            invariant
                self.wf(),
                x < self.cols,
                gy0 <= ya,
                ya <= y <= yb <= self.rows,
                yb <= gy0 + span,
                span <= self.rows,
                *self == (NcPlane { cells: self.cells, ..*old(self) }),
                self.cells@.len() == old(self).cells@.len(),
                forall|qy: int, qx: int|
                    old(self).spec_on_plane(qy, qx) ==> self.cell_at(qy, qx) == (if qx == x && ya
                        <= qy < y {
                        spec_vline_cell(line, c0, c1, grad, qy - gy0, span as int)
                    } else {
                        old(self).cell_at(qy, qx)
                    }),
            decreases yb - y,
        {
            let c: NcCell = if grad {
                proof {
                    assert((span as int) * 1 <= 0x2_0000_0000);
                }
                let ch = gradient_channels(
                    c0,
                    c0,
                    c1,
                    c1,
                    (y - gy0) as u64,
                    0,
                    span as u64,
                    1,
                );
                NcCell { channels: ch, ..line }
            } else {
                line
            };
            self.set_cell(y, x, c);
            y = y + 1;
        }
        Ok(())
    }
}


/// The cell a box drawn from the given six cells with mask `m`, corners
/// (`y0`, `x0`) through (`y1`, `x1`), leaves at (`qy`, `qx`): one of the
/// corner cells where a corner is drawn, a (possibly blended) line cell
/// on a drawn side, and the plane's old cell everywhere else.
pub open spec fn spec_box_cell(
    pre: NcPlane,
    ul: NcCell,
    ur: NcCell,
    ll: NcCell,
    lr: NcCell,
    hl: NcCell,
    vl: NcCell,
    y0: int,
    x0: int,
    y1: int,
    x1: int,
    m: NcBoxMask,
    qy: int,
    qx: int,
) -> NcCell {
    if qy == y0 && qx == x0 {
        if spec_corner_on(m, NCBOXMASK_TOP, NCBOXMASK_LEFT) {
            ul
        } else {
            pre.cell_at(qy, qx)
        }
    } else if qy == y0 && qx == x1 {
        if spec_corner_on(m, NCBOXMASK_TOP, NCBOXMASK_RIGHT) {
            ur
        } else {
            pre.cell_at(qy, qx)
        }
    } else if qy == y1 && qx == x0 {
        if spec_corner_on(m, NCBOXMASK_BOTTOM, NCBOXMASK_LEFT) {
            ll
        } else {
            pre.cell_at(qy, qx)
        }
    } else if qy == y1 && qx == x1 {
        if spec_corner_on(m, NCBOXMASK_BOTTOM, NCBOXMASK_RIGHT) {
            lr
        } else {
            pre.cell_at(qy, qx)
        }
    } else if qy == y0 && x0 < qx < x1 {
        if m & NCBOXMASK_TOP == 0 {
            spec_hline_cell(
                hl,
                ul.channels,
                ur.channels,
                m & NCBOXGRAD_TOP != 0,
                qx - x0,
                x1 + 1 - x0,
            )
        } else {
            pre.cell_at(qy, qx)
        }
    } else if qy == y1 && x0 < qx < x1 {
        if m & NCBOXMASK_BOTTOM == 0 {
            spec_hline_cell(
                hl,
                ll.channels,
                lr.channels,
                m & NCBOXGRAD_BOTTOM != 0,
                qx - x0,
                x1 + 1 - x0,
            )
        } else {
            pre.cell_at(qy, qx)
        }
    } else if qx == x0 && y0 < qy < y1 {
        if m & NCBOXMASK_LEFT == 0 {
            spec_vline_cell(
                vl,
                ul.channels,
                ll.channels,
                m & NCBOXGRAD_LEFT != 0,
                qy - y0,
                y1 + 1 - y0,
            )
        } else {
            pre.cell_at(qy, qx)
        }
    } else if qx == x1 && y0 < qy < y1 {
        if m & NCBOXMASK_RIGHT == 0 {
            spec_vline_cell(
                vl,
                ur.channels,
                lr.channels,
                m & NCBOXGRAD_RIGHT != 0,
                qy - y0,
                y1 + 1 - y0,
            )
        } else {
            pre.cell_at(qy, qx)
        }
    } else {
        pre.cell_at(qy, qx)
    }
}

/// Holds when `post` is `pre` with a box laid from (`y0`, `x0`) through
/// (`y1`, `x1`); see [`spec_box_cell`].
pub open spec fn box_post(
    pre: NcPlane,
    post: NcPlane,
    ul: NcCell,
    ur: NcCell,
    ll: NcCell,
    lr: NcCell,
    hl: NcCell,
    vl: NcCell,
    y0: int,
    x0: int,
    y1: int,
    x1: int,
    m: NcBoxMask,
) -> bool {
    &&& post == (NcPlane { cells: post.cells, ..pre })
    &&& post.cells@.len() == pre.cells@.len()
    &&& forall|qy: int, qx: int|
        pre.spec_on_plane(qy, qx) ==> post.cell_at(qy, qx) == spec_box_cell(
            pre,
            ul,
            ur,
            ll,
            lr,
            hl,
            vl,
            y0,
            x0,
            y1,
            x1,
            m,
            qy,
            qx,
        )
}

/// Whether a corner touching the two given sides is drawn, as an
/// executable check.
fn corner_on(m: NcBoxMask, side_a: u32, side_b: u32) -> (b: bool)
    ensures
        b == spec_corner_on(m, side_a, side_b),
{
    let mut n: u32 = 0;
    if m & side_a == 0 {
        n = n + 1;
    }
    if m & side_b == 0 {
        n = n + 1;
    }
    proof {
        assert((m >> 8) & 0x3 <= 3u32) by (bit_vector);
    }
    n >= ((m >> 8) & 0x3)
}

impl NcPlane {
    /// Draws a box with its upper-left corner at the cursor and its
    /// lower-right corner at (`y_stop`, `x_stop`), from the four corner
    /// cells and the two line cells, under `boxmask`; see
    /// [`spec_box_cell`]. The cursor does not move. A box of fewer than
    /// two rows or columns, or one leaving the plane, is an error.
    pub fn draw_box(
        &mut self,
        ul: &NcCell,
        ur: &NcCell,
        ll: &NcCell,
        lr: &NcCell,
        hline: &NcCell,
        vline: &NcCell,
        y_stop: NcDim,
        x_stop: NcDim,
        boxmask: NcBoxMask,
    ) -> (r: NcResult<()>)
        requires
            old(self).wf(),
        ensures
            final(self).wf(),
            r is Ok <==> old(self).cursor_y + 1 <= y_stop < old(self).rows && old(self).cursor_x
                + 1 <= x_stop < old(self).cols,
            r is Err ==> *final(self) == *old(self),
            r is Ok ==> box_post(
                *old(self),
                *final(self),
                *ul,
                *ur,
                *ll,
                *lr,
                *hline,
                *vline,
                old(self).cursor_y as int,
                old(self).cursor_x as int,
                y_stop as int,
                x_stop as int,
                boxmask,
            ),
    {
        let y0 = self.cursor_y;
        let x0 = self.cursor_x;
        if (y_stop as u64) < y0 as u64 + 1 || y_stop >= self.rows || x_stop >= self.cols || (
        x_stop as u64) < x0 as u64 + 1 {
            return Err(NcError::with_msg(NCRESULT_ERR, "box does not fit the plane"));
        }
        let yspan: NcDim = y_stop - y0 + 1;
        let xspan: NcDim = x_stop - x0 + 1;
        if boxmask & NCBOXMASK_TOP == 0 {
            self.fill_row_segment(
                y0,
                x0 + 1,
                x_stop,
                *hline,
                boxmask & NCBOXGRAD_TOP != 0,
                ul.channels,
                ur.channels,
                x0,
                xspan,
            )?;
        }
        if boxmask & NCBOXMASK_BOTTOM == 0 {
            self.fill_row_segment(
                y_stop,
                x0 + 1,
                x_stop,
                *hline,
                boxmask & NCBOXGRAD_BOTTOM != 0,
                ll.channels,
                lr.channels,
                x0,
                xspan,
            )?;
        }
        if boxmask & NCBOXMASK_LEFT == 0 {
            self.fill_col_segment(
                x0,
                y0 + 1,
                y_stop,
                *vline,
                boxmask & NCBOXGRAD_LEFT != 0,
                ul.channels,
                ll.channels,
                y0,
                yspan,
            )?;
        }
        if boxmask & NCBOXMASK_RIGHT == 0 {
            self.fill_col_segment(
                x_stop,
                y0 + 1,
                y_stop,
                *vline,
                boxmask & NCBOXGRAD_RIGHT != 0,
                ur.channels,
                lr.channels,
                y0,
                yspan,
            )?;
        }
        if corner_on(boxmask, NCBOXMASK_TOP, NCBOXMASK_LEFT) {
            self.set_cell(y0, x0, *ul);
        }
        if corner_on(boxmask, NCBOXMASK_TOP, NCBOXMASK_RIGHT) {
            self.set_cell(y0, x_stop, *ur);
        }
        if corner_on(boxmask, NCBOXMASK_BOTTOM, NCBOXMASK_LEFT) {
            self.set_cell(y_stop, x0, *ll);
        }
        if corner_on(boxmask, NCBOXMASK_BOTTOM, NCBOXMASK_RIGHT) {
            self.set_cell(y_stop, x_stop, *lr);
        }
        Ok(())
    }

    /// Draws a box with its upper-left corner at the cursor, `y_len`
    /// rows by `x_len` columns; see [`draw_box`](Self::draw_box).
    pub fn box_sized(
        &mut self,
        ul: &NcCell,
        ur: &NcCell,
        ll: &NcCell,
        lr: &NcCell,
        hline: &NcCell,
        vline: &NcCell,
        y_len: NcDim,
        x_len: NcDim,
        boxmask: NcBoxMask,
    ) -> (r: NcResult<()>)
        requires
            old(self).wf(),
        ensures
            final(self).wf(),
            r is Ok <==> y_len >= 2 && x_len >= 2 && old(self).cursor_y + y_len <= old(self).rows
                && old(self).cursor_x + x_len <= old(self).cols,
            r is Err ==> *final(self) == *old(self),
            r is Ok ==> box_post(
                *old(self),
                *final(self),
                *ul,
                *ur,
                *ll,
                *lr,
                *hline,
                *vline,
                old(self).cursor_y as int,
                old(self).cursor_x as int,
                old(self).cursor_y + y_len - 1,
                old(self).cursor_x + x_len - 1,
                boxmask,
            ),
    {
        if y_len < 2 || x_len < 2 {
            return Err(NcError::with_msg(NCRESULT_ERR, "a box needs two rows and two columns"));
        }
        if self.cursor_y as u64 + y_len as u64 > self.rows as u64 || self.cursor_x as u64
            + x_len as u64 > self.cols as u64 {
            return Err(NcError::with_msg(NCRESULT_ERR, "box does not fit the plane"));
        }
        let y_stop: NcDim = self.cursor_y + (y_len - 1);
        let x_stop: NcDim = self.cursor_x + (x_len - 1);
        self.draw_box(ul, ur, ll, lr, hline, vline, y_stop, x_stop, boxmask)
    }
}

/// The six cells of the double box-drawing convention, in the order
/// upper-left, upper-right, lower-left, lower-right, horizontal,
/// vertical, all carrying the given styles and channels.
pub fn double_box_cells(stylemask: NcStyle, channels: NcChannels) -> (c: (
    NcCell,
    NcCell,
    NcCell,
    NcCell,
    NcCell,
    NcCell,
))
    ensures
        c.0 == (NcCell { gcluster: '\u{2554}', stylemask, channels }),
        c.1 == (NcCell { gcluster: '\u{2557}', stylemask, channels }),
        c.2 == (NcCell { gcluster: '\u{255a}', stylemask, channels }),
        c.3 == (NcCell { gcluster: '\u{255d}', stylemask, channels }),
        c.4 == (NcCell { gcluster: '\u{2550}', stylemask, channels }),
        c.5 == (NcCell { gcluster: '\u{2551}', stylemask, channels }),
{
    (
        NcCell { gcluster: '\u{2554}', stylemask, channels },
        NcCell { gcluster: '\u{2557}', stylemask, channels },
        NcCell { gcluster: '\u{255a}', stylemask, channels },
        NcCell { gcluster: '\u{255d}', stylemask, channels },
        NcCell { gcluster: '\u{2550}', stylemask, channels },
        NcCell { gcluster: '\u{2551}', stylemask, channels },
    )
}

/// The six cells of the rounded box-drawing convention, in the same
/// order as [`double_box_cells`].
pub fn rounded_box_cells(stylemask: NcStyle, channels: NcChannels) -> (c: (
    NcCell,
    NcCell,
    NcCell,
    NcCell,
    NcCell,
    NcCell,
))
    ensures
        c.0 == (NcCell { gcluster: '\u{256d}', stylemask, channels }),
        c.1 == (NcCell { gcluster: '\u{256e}', stylemask, channels }),
        c.2 == (NcCell { gcluster: '\u{2570}', stylemask, channels }),
        c.3 == (NcCell { gcluster: '\u{256f}', stylemask, channels }),
        c.4 == (NcCell { gcluster: '\u{2500}', stylemask, channels }),
        c.5 == (NcCell { gcluster: '\u{2502}', stylemask, channels }),
{
    (
        NcCell { gcluster: '\u{256d}', stylemask, channels },
        NcCell { gcluster: '\u{256e}', stylemask, channels },
        NcCell { gcluster: '\u{2570}', stylemask, channels },
        NcCell { gcluster: '\u{256f}', stylemask, channels },
        NcCell { gcluster: '\u{2500}', stylemask, channels },
        NcCell { gcluster: '\u{2502}', stylemask, channels },
    )
}

/// The cell a direct-mode box of `y_len` by `x_len` cells lays at offset
/// (`dy`, `dx`) from its upper-left corner: a corner takes its glyph and
/// its own channel pair (where the corner bits draw it); a side takes
/// the line glyph with its channels blended between the two adjacent
/// corners where the side's gradient bit is set, and with the side's
/// first corner's channels otherwise; the inside is not touched
/// (`None`). Styles are clear throughout.
pub open spec fn spec_direct_box_cell(
    ul: NcChannels,
    ur: NcChannels,
    ll: NcChannels,
    lr: NcChannels,
    ulc: char,
    urc: char,
    llc: char,
    lrc: char,
    hlc: char,
    vlc: char,
    ylen: int,
    xlen: int,
    m: NcBoxMask,
    dy: int,
    dx: int,
) -> Option<NcCell> {
    if dy == 0 && dx == 0 {
        if spec_corner_on(m, NCBOXMASK_TOP, NCBOXMASK_LEFT) {
            Some(NcCell { gcluster: ulc, stylemask: 0u16, channels: ul })
        } else {
            None
        }
    } else if dy == 0 && dx == xlen - 1 {
        if spec_corner_on(m, NCBOXMASK_TOP, NCBOXMASK_RIGHT) {
            Some(NcCell { gcluster: urc, stylemask: 0u16, channels: ur })
        } else {
            None
        }
    } else if dy == ylen - 1 && dx == 0 {
        if spec_corner_on(m, NCBOXMASK_BOTTOM, NCBOXMASK_LEFT) {
            Some(NcCell { gcluster: llc, stylemask: 0u16, channels: ll })
        } else {
            None
        }
    } else if dy == ylen - 1 && dx == xlen - 1 {
        if spec_corner_on(m, NCBOXMASK_BOTTOM, NCBOXMASK_RIGHT) {
            Some(NcCell { gcluster: lrc, stylemask: 0u16, channels: lr })
        } else {
            None
        }
    } else if dy == 0 && 0 < dx < xlen - 1 {
        if m & NCBOXMASK_TOP == 0 {
            Some(
                spec_hline_cell(
                    NcCell { gcluster: hlc, stylemask: 0u16, channels: ul },
                    ul,
                    ur,
                    m & NCBOXGRAD_TOP != 0,
                    dx,
                    xlen,
                ),
            )
        } else {
            None
        }
    } else if dy == ylen - 1 && 0 < dx < xlen - 1 {
        if m & NCBOXMASK_BOTTOM == 0 {
            Some(
                spec_hline_cell(
                    NcCell { gcluster: hlc, stylemask: 0u16, channels: ll },
                    ll,
                    lr,
                    m & NCBOXGRAD_BOTTOM != 0,
                    dx,
                    xlen,
                ),
            )
        } else {
            None
        }
    } else if dx == 0 && 0 < dy < ylen - 1 {
        if m & NCBOXMASK_LEFT == 0 {
            Some(
                spec_vline_cell(
                    NcCell { gcluster: vlc, stylemask: 0u16, channels: ul },
                    ul,
                    ll,
                    m & NCBOXGRAD_LEFT != 0,
                    dy,
                    ylen,
                ),
            )
        } else {
            None
        }
    } else if dx == xlen - 1 && 0 < dy < ylen - 1 {
        if m & NCBOXMASK_RIGHT == 0 {
            Some(
                spec_vline_cell(
                    NcCell { gcluster: vlc, stylemask: 0u16, channels: ur },
                    ur,
                    lr,
                    m & NCBOXGRAD_RIGHT != 0,
                    dy,
                    ylen,
                ),
            )
        } else {
            None
        }
    } else {
        None
    }
}

/// The cell a direct-mode box lays at offset (`dy`, `dx`); see
/// [`spec_direct_box_cell`]. The embedding code walks the offsets of a
/// `y_len` by `x_len` box (at least two each way) and emits what this
/// returns.
pub fn direct_box_cell(
    ul: NcChannels,
    ur: NcChannels,
    ll: NcChannels,
    lr: NcChannels,
    ulc: char,
    urc: char,
    llc: char,
    lrc: char,
    hlc: char,
    vlc: char,
    y_len: NcDim,
    x_len: NcDim,
    boxmask: NcBoxMask,
    dy: NcDim,
    dx: NcDim,
) -> (r: Option<NcCell>)
    requires
        y_len >= 2,
        x_len >= 2,
        dy < y_len,
        dx < x_len,
    ensures
        r == spec_direct_box_cell(
            ul,
            ur,
            ll,
            lr,
            ulc,
            urc,
            llc,
            lrc,
            hlc,
            vlc,
            y_len as int,
            x_len as int,
            boxmask,
            dy as int,
            dx as int,
        ),
{
    if dy == 0 && dx == 0 {
        if corner_on(boxmask, NCBOXMASK_TOP, NCBOXMASK_LEFT) {
            Some(NcCell { gcluster: ulc, stylemask: 0, channels: ul })
        } else {
            None
        }
    } else if dy == 0 && dx == x_len - 1 {
        if corner_on(boxmask, NCBOXMASK_TOP, NCBOXMASK_RIGHT) {
            Some(NcCell { gcluster: urc, stylemask: 0, channels: ur })
        } else {
            None
        }
    } else if dy == y_len - 1 && dx == 0 {
        if corner_on(boxmask, NCBOXMASK_BOTTOM, NCBOXMASK_LEFT) {
            Some(NcCell { gcluster: llc, stylemask: 0, channels: ll })
        } else {
            None
        }
    } else if dy == y_len - 1 && dx == x_len - 1 {
        if corner_on(boxmask, NCBOXMASK_BOTTOM, NCBOXMASK_RIGHT) {
            Some(NcCell { gcluster: lrc, stylemask: 0, channels: lr })
        } else {
            None
        }
    } else if dy == 0 {
        if boxmask & NCBOXMASK_TOP == 0 {
            let base = NcCell { gcluster: hlc, stylemask: 0, channels: ul };
            if boxmask & NCBOXGRAD_TOP != 0 {
                let ch = gradient_channels(ul, ur, ul, ur, 0, dx as u64, 1, x_len as u64);
                Some(NcCell { channels: ch, ..base })
            } else {
                Some(base)
            }
        } else {
            None
        }
    } else if dy == y_len - 1 {
        if boxmask & NCBOXMASK_BOTTOM == 0 {
            let base = NcCell { gcluster: hlc, stylemask: 0, channels: ll };
            if boxmask & NCBOXGRAD_BOTTOM != 0 {
                let ch = gradient_channels(ll, lr, ll, lr, 0, dx as u64, 1, x_len as u64);
                Some(NcCell { channels: ch, ..base })
            } else {
                Some(base)
            }
        } else {
            None
        }
    } else if dx == 0 {
        if boxmask & NCBOXMASK_LEFT == 0 {
            let base = NcCell { gcluster: vlc, stylemask: 0, channels: ul };
            if boxmask & NCBOXGRAD_LEFT != 0 {
                let ch = gradient_channels(ul, ul, ll, ll, dy as u64, 0, y_len as u64, 1);
                Some(NcCell { channels: ch, ..base })
            } else {
                Some(base)
            }
        } else {
            None
        }
    } else if dx == x_len - 1 {
        if boxmask & NCBOXMASK_RIGHT == 0 {
            let base = NcCell { gcluster: vlc, stylemask: 0, channels: ur };
            if boxmask & NCBOXGRAD_RIGHT != 0 {
                let ch = gradient_channels(ur, ur, lr, lr, dy as u64, 0, y_len as u64, 1);
                Some(NcCell { channels: ch, ..base })
            } else {
                Some(base)
            }
        } else {
            None
        }
    } else {
        None
    }
}

/// The cell at position `i` of a direct-mode line of `len` cells drawn
/// with `egc`, its channels blended from `h1` at the start to `h2` at
/// the end. The embedding code walks `i` and emits what this returns;
/// the same blend serves horizontal and vertical lines.
pub fn direct_line_cell(egc: char, i: NcDim, len: NcDim, h1: NcChannels, h2: NcChannels) -> (r:
    NcCell)
    requires
        i < len,
    ensures
        r == (NcCell {
            gcluster: egc,
            stylemask: 0u16,
            channels: spec_grad_channels(h1, h2, h1, h2, 0, i as int, 1, len as int),
        }),
{
    let ch = gradient_channels(h1, h2, h1, h2, 0, i as u64, 1, len as u64);
    NcCell { gcluster: egc, stylemask: 0, channels: ch }
}

impl NcPlane {
    /// Draws a box in the double box-drawing convention, with its
    /// upper-left corner at the cursor and its lower-right corner at
    /// (`y_stop`, `x_stop`); see [`draw_box`](Self::draw_box) and
    /// [`double_box_cells`].
    pub fn double_box(
        &mut self,
        stylemask: NcStyle,
        channels: NcChannels,
        y_stop: NcDim,
        x_stop: NcDim,
        boxmask: NcBoxMask,
    ) -> (r: NcResult<()>)
        requires
            old(self).wf(),
        ensures
            final(self).wf(),
            r is Ok <==> old(self).cursor_y + 1 <= y_stop < old(self).rows && old(self).cursor_x
                + 1 <= x_stop < old(self).cols,
            r is Err ==> *final(self) == *old(self),
            r is Ok ==> box_post(
                *old(self),
                *final(self),
                NcCell { gcluster: '\u{2554}', stylemask, channels },
                NcCell { gcluster: '\u{2557}', stylemask, channels },
                NcCell { gcluster: '\u{255a}', stylemask, channels },
                NcCell { gcluster: '\u{255d}', stylemask, channels },
                NcCell { gcluster: '\u{2550}', stylemask, channels },
                NcCell { gcluster: '\u{2551}', stylemask, channels },
                old(self).cursor_y as int,
                old(self).cursor_x as int,
                y_stop as int,
                x_stop as int,
                boxmask,
            ),
    {
        let (ul, ur, ll, lr, hl, vl) = double_box_cells(stylemask, channels);
        self.draw_box(&ul, &ur, &ll, &lr, &hl, &vl, y_stop, x_stop, boxmask)
    }

    /// Draws a box in the double box-drawing convention, with its
    /// upper-left corner at the cursor, `y_len` rows by `x_len` columns.
    pub fn double_box_sized(
        &mut self,
        stylemask: NcStyle,
        channels: NcChannels,
        y_len: NcDim,
        x_len: NcDim,
        boxmask: NcBoxMask,
    ) -> (r: NcResult<()>)
        requires
            old(self).wf(),
        ensures
            final(self).wf(),
            r is Ok <==> y_len >= 2 && x_len >= 2 && old(self).cursor_y + y_len <= old(self).rows
                && old(self).cursor_x + x_len <= old(self).cols,
            r is Err ==> *final(self) == *old(self),
            r is Ok ==> box_post(
                *old(self),
                *final(self),
                NcCell { gcluster: '\u{2554}', stylemask, channels },
                NcCell { gcluster: '\u{2557}', stylemask, channels },
                NcCell { gcluster: '\u{255a}', stylemask, channels },
                NcCell { gcluster: '\u{255d}', stylemask, channels },
                NcCell { gcluster: '\u{2550}', stylemask, channels },
                NcCell { gcluster: '\u{2551}', stylemask, channels },
                old(self).cursor_y as int,
                old(self).cursor_x as int,
                old(self).cursor_y + y_len - 1,
                old(self).cursor_x + x_len - 1,
                boxmask,
            ),
    {
        let (ul, ur, ll, lr, hl, vl) = double_box_cells(stylemask, channels);
        self.box_sized(&ul, &ur, &ll, &lr, &hl, &vl, y_len, x_len, boxmask)
    }

    /// Draws a box around the whole plane from the given six cells,
    /// homing the cursor first. A plane of fewer than two rows or
    /// columns is an error (the cursor is homed all the same).
    pub fn perimeter(
        &mut self,
        ul: &NcCell,
        ur: &NcCell,
        ll: &NcCell,
        lr: &NcCell,
        hline: &NcCell,
        vline: &NcCell,
        boxmask: NcBoxMask,
    ) -> (r: NcResult<()>)
        requires
            old(self).wf(),
        ensures
            final(self).wf(),
            r is Ok <==> old(self).rows >= 2 && old(self).cols >= 2,
            r is Err ==> *final(self) == (NcPlane {
                cursor_y: 0u32,
                cursor_x: 0u32,
                ..*old(self)
            }),
            r is Ok ==> box_post(
                NcPlane { cursor_y: 0u32, cursor_x: 0u32, ..*old(self) },
                *final(self),
                *ul,
                *ur,
                *ll,
                *lr,
                *hline,
                *vline,
                0,
                0,
                old(self).rows - 1,
                old(self).cols - 1,
                boxmask,
            ) && final(self).cursor_y == 0 && final(self).cursor_x == 0,
    {
        self.cursor_home();
        let y_stop = self.rows - 1;
        let x_stop = self.cols - 1;
        self.draw_box(ul, ur, ll, lr, hline, vline, y_stop, x_stop, boxmask)
    }

    /// Draws a perimeter in the double box-drawing convention.
    pub fn perimeter_double(
        &mut self,
        stylemask: NcStyle,
        channels: NcChannels,
        boxmask: NcBoxMask,
    ) -> (r: NcResult<()>)
        requires
            old(self).wf(),
        ensures
            final(self).wf(),
            r is Ok <==> old(self).rows >= 2 && old(self).cols >= 2,
            r is Err ==> *final(self) == (NcPlane {
                cursor_y: 0u32,
                cursor_x: 0u32,
                ..*old(self)
            }),
            r is Ok ==> box_post(
                NcPlane { cursor_y: 0u32, cursor_x: 0u32, ..*old(self) },
                *final(self),
                NcCell { gcluster: '\u{2554}', stylemask, channels },
                NcCell { gcluster: '\u{2557}', stylemask, channels },
                NcCell { gcluster: '\u{255a}', stylemask, channels },
                NcCell { gcluster: '\u{255d}', stylemask, channels },
                NcCell { gcluster: '\u{2550}', stylemask, channels },
                NcCell { gcluster: '\u{2551}', stylemask, channels },
                0,
                0,
                old(self).rows - 1,
                old(self).cols - 1,
                boxmask,
            ) && final(self).cursor_y == 0 && final(self).cursor_x == 0,
    {
        let (ul, ur, ll, lr, hl, vl) = double_box_cells(stylemask, channels);
        self.perimeter(&ul, &ur, &ll, &lr, &hl, &vl, boxmask)
    }

    /// Draws a perimeter in the rounded box-drawing convention.
    pub fn perimeter_rounded(
        &mut self,
        stylemask: NcStyle,
        channels: NcChannels,
        boxmask: NcBoxMask,
    ) -> (r: NcResult<()>)
        requires
            old(self).wf(),
        ensures
            final(self).wf(),
            r is Ok <==> old(self).rows >= 2 && old(self).cols >= 2,
            r is Err ==> *final(self) == (NcPlane {
                cursor_y: 0u32,
                cursor_x: 0u32,
                ..*old(self)
            }),
            r is Ok ==> box_post(
                NcPlane { cursor_y: 0u32, cursor_x: 0u32, ..*old(self) },
                *final(self),
                NcCell { gcluster: '\u{256d}', stylemask, channels },
                NcCell { gcluster: '\u{256e}', stylemask, channels },
                NcCell { gcluster: '\u{2570}', stylemask, channels },
                NcCell { gcluster: '\u{256f}', stylemask, channels },
                NcCell { gcluster: '\u{2500}', stylemask, channels },
                NcCell { gcluster: '\u{2502}', stylemask, channels },
                0,
                0,
                old(self).rows - 1,
                old(self).cols - 1,
                boxmask,
            ) && final(self).cursor_y == 0 && final(self).cursor_x == 0,
    {
        let (ul, ur, ll, lr, hl, vl) = rounded_box_cells(stylemask, channels);
        self.perimeter(&ul, &ur, &ll, &lr, &hl, &vl, boxmask)
    }
}

} // verus!
