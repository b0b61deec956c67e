//! Planes: rectangular, positioned drawing surfaces holding cells.
//!
//! A plane owns its rectangle of cells, a cursor, the channels and styles
//! that new output is written with, a base cell, and a scrolling flag. Its
//! place in a pile (the tree of planes sharing one rendering root) is kept
//! by the owning [`Nc`](crate::Nc) context under the plane's id.

use vstd::prelude::*;
use crate::cell::NcCell;
use crate::channel::{
    ncchannel_alpha, ncchannel_default_p, ncchannel_set_alpha, ncchannel_set_default,
    ncchannel_set_not_default, ncchannel_set_palindex, ncchannel_set_rgb8, ncchannel_set,
    ncchannel_rgb, ncchannel_rgb8, ncchannels_bchannel, ncchannels_combine, ncchannels_fchannel,
    spec_bchannel, spec_channel_alpha, spec_channel_default_p, spec_channel_defaulted,
    spec_channel_rgb, spec_channel_with_alpha, spec_channel_with_palindex, spec_channel_with_rgb,
    spec_channel_with_rgb8, spec_combine, spec_fchannel, NC_BG_ALPHA_MASK,
};
use crate::result::{NcError, NcResult, NCRESULT_ERR};
use crate::plane_opts::NcResizeCb;
use crate::types::{
    notcurses_align, NcAlign, NcAlpha, NcChannel, NcChannels, NcComponent, NcDim, NcOffset,
    NcPaletteIndex, NcRgb, NcStyle,
};

verus! {

/// A plane: a rectangle of cells with a cursor, current channels and
/// styles, a base cell, and a scrolling flag.
///
/// The cells are kept row-major: the cell at row `y`, column `x` sits at
/// index `y * cols + x`. The cursor may rest one column past the end of a
/// row (at `cursor_x == cols`) after output has filled the row; every other
/// operation keeps it strictly inside the plane.
pub struct NcPlane {
    /// The id under which the owning context tracks this plane.
    pub id: u64,
    /// Whether this is the standard plane, which can never be destroyed,
    /// resized or moved.
    pub is_std: bool,
    /// Rows of the plane; always at least one.
    pub rows: NcDim,
    /// Columns of the plane; always at least one.
    pub cols: NcDim,
    /// Row origin, relative to the plane this one is bound to.
    pub y: NcOffset,
    /// Column origin, relative to the plane this one is bound to.
    pub x: NcOffset,
    /// The cells, row-major, `rows * cols` of them.
    pub cells: Vec<NcCell>,
    /// Cursor row; always within the plane.
    pub cursor_y: NcDim,
    /// Cursor column; at most `cols`.
    pub cursor_x: NcDim,
    /// The channel pair that new output is written with.
    pub channels: NcChannels,
    /// The style bits that new output is written with.
    pub styles: NcStyle,
    /// The base cell, shown wherever a cell is undrawn.
    pub base: NcCell,
    /// Whether output wraps and scrolls at the end of a line.
    pub scrolling: bool,
    /// The registered resize callback, if any; it runs outside the
    /// verified core.
    pub resizecb: Option<NcResizeCb>,
}

impl NcPlane {
    /// Well-formedness: the grid holds exactly `rows * cols` cells, the
    /// area fits the cell-index space, and the cursor rests on a row of
    /// the plane, at most one column past the end of its line.
    pub open spec fn wf(self) -> bool {
        &&& self.rows >= 1
        &&& self.cols >= 1
        &&& self.rows * self.cols <= u32::MAX
        &&& self.cells@.len() == self.rows * self.cols
        &&& self.cursor_y < self.rows
        &&& self.cursor_x <= self.cols
    }

    /// The cell index of row `y`, column `x`.
    pub open spec fn spec_idx(self, y: int, x: int) -> int {
        y * self.cols + x
    }

    /// Whether `(y, x)` lies on the plane.
    pub open spec fn spec_on_plane(self, y: int, x: int) -> bool {
        0 <= y < self.rows && 0 <= x < self.cols
    }

    /// The cell at row `y`, column `x`.
    pub open spec fn cell_at(self, y: int, x: int) -> NcCell {
        self.cells@[self.spec_idx(y, x)]
    }

    /// Bounds of the row-major index of a cell on the plane.
    pub proof fn lemma_idx_bounds(self, y: int, x: int)
        requires
            self.wf(),
            self.spec_on_plane(y, x),
        ensures
            0 <= self.spec_idx(y, x) < self.cells@.len(),
            self.spec_idx(y, x) < self.rows * self.cols,
    {
        assert(y * self.cols + x < self.rows * self.cols) by (nonlinear_arith)
            requires
                0 <= y < self.rows,
                0 <= x < self.cols,
        ;
        assert(y * self.cols >= 0) by (nonlinear_arith)
            requires
                y >= 0,
                self.cols >= 1,
        ;
    }

    /// Two distinct positions on the plane have distinct row-major indices.
    pub proof fn lemma_idx_injective(self, y1: int, x1: int, y2: int, x2: int)
        requires
            self.wf(),
            self.spec_on_plane(y1, x1),
            self.spec_on_plane(y2, x2),
            self.spec_idx(y1, x1) == self.spec_idx(y2, x2),
        ensures
            y1 == y2 && x1 == x2,
    {
        assert(y1 == y2 && x1 == x2) by (nonlinear_arith)
            requires
                0 <= y1 < self.rows,
                0 <= x1 < self.cols,
                0 <= y2 < self.rows,
                0 <= x2 < self.cols,
                y1 * self.cols + x1 == y2 * self.cols + x2,
        ;
    }

    /// Updating one cell leaves the cell at any other position unchanged.
    pub proof fn lemma_update_other_cells(self, c: NcCell, y: int, x: int, yy: int, xx: int)
        requires
            self.wf(),
            self.spec_on_plane(y, x),
            self.spec_on_plane(yy, xx),
            yy != y || xx != x,
        ensures
            self.cells@.update(self.spec_idx(y, x), c)[self.spec_idx(yy, xx)] == self.cell_at(
                yy,
                xx,
            ),
    {
        self.lemma_idx_bounds(y, x);
        self.lemma_idx_bounds(yy, xx);
        if self.spec_idx(y, x) == self.spec_idx(yy, xx) {
            self.lemma_idx_injective(y, x, yy, xx);
        }
    }

    /// Replaces the cell at (`y`, `x`), leaving every other cell and every
    /// other field as it was.
    pub fn set_cell(&mut self, y: NcDim, x: NcDim, c: NcCell)
        requires
            old(self).wf(),
            old(self).spec_on_plane(y as int, x as int),
        ensures
            final(self).wf(),
            *final(self) == (NcPlane { cells: final(self).cells, ..*old(self) }),
            final(self).cells@ == old(self).cells@.update(
                old(self).spec_idx(y as int, x as int),
                c,
            ),
            final(self).cell_at(y as int, x as int) == c,
            forall|yy: int, xx: int|
                old(self).spec_on_plane(yy, xx) && (yy != y || xx != x) ==> final(self).cell_at(
                    yy,
                    xx,
                ) == old(self).cell_at(yy, xx),
    {
        let i = self.index_of(y, x);
        self.cells.set(i, c);
        proof {
            assert forall|yy: int, xx: int|
                old(self).spec_on_plane(yy, xx) && (yy != y || xx != x) implies self.cell_at(
                yy,
                xx,
            ) == old(self).cell_at(yy, xx) by {
                old(self).lemma_update_other_cells(c, y as int, x as int, yy, xx);
            }
        }
    }

    /// The row-major index of row `y`, column `x`; in bounds on the plane.
    pub fn index_of(&self, y: NcDim, x: NcDim) -> (i: usize)
        requires
            self.wf(),
            self.spec_on_plane(y as int, x as int),
        ensures
            i == self.spec_idx(y as int, x as int),
            i < self.cells@.len(),
    {
        proof {
            self.lemma_idx_bounds(y as int, x as int);
        }
        (y as usize) * (self.cols as usize) + (x as usize)
    }
}

/// Holds when `post` is `pre` with at most the current channels replaced.
pub open spec fn only_channels_changed(pre: NcPlane, post: NcPlane) -> bool {
    post == (NcPlane { channels: post.channels, ..pre })
}

/// Holds when `post` is `pre` with at most the current styles replaced.
pub open spec fn only_styles_changed(pre: NcPlane, post: NcPlane) -> bool {
    post == (NcPlane { styles: post.styles, ..pre })
}

/// Holds when `post` is `pre` with at most the cursor moved.
pub open spec fn only_cursor_changed(pre: NcPlane, post: NcPlane) -> bool {
    post == (NcPlane { cursor_y: post.cursor_y, cursor_x: post.cursor_x, ..pre })
}

// -------------------------------------------------------------------------
// Geometry.
impl NcPlane {
    /// The dimensions of this plane, rows then columns.
    pub fn dim_yx(&self) -> (d: (NcDim, NcDim))
        ensures
            d == (self.rows, self.cols),
    {
        (self.rows, self.cols)
    }

    /// The rows of this plane.
    pub fn dim_y(&self) -> (r: NcDim)
        ensures
            r == self.rows,
    {
        self.rows
    }

    /// The columns of this plane.
    pub fn dim_x(&self) -> (c: NcDim)
        ensures
            c == self.cols,
    {
        self.cols
    }

    /// The rows of this plane.
    pub fn rows(&self) -> (r: NcDim)
        ensures
            r == self.rows,
    {
        self.rows
    }

    /// The columns of this plane.
    pub fn cols(&self) -> (c: NcDim)
        ensures
            c == self.cols,
    {
        self.cols
    }

    /// The origin of this plane relative to the plane it is bound to,
    /// row then column.
    pub fn yx(&self) -> (o: (NcOffset, NcOffset))
        ensures
            o == (self.y, self.x),
    {
        (self.y, self.x)
    }

    /// The row origin of this plane relative to the plane it is bound to.
    pub fn y(&self) -> (o: NcOffset)
        ensures
            o == self.y,
    {
        self.y
    }

    /// The column origin of this plane relative to the plane it is bound to.
    pub fn x(&self) -> (o: NcOffset)
        ensures
            o == self.x,
    {
        self.x
    }

    /// Moves this plane to origin (`y`, `x`) relative to the plane it is
    /// bound to. The standard plane cannot be moved.
    pub fn move_yx(&mut self, y: NcOffset, x: NcOffset) -> (r: NcResult<()>)
        ensures
            r is Ok <==> !old(self).is_std,
            old(self).is_std ==> *final(self) == *old(self),
            !old(self).is_std ==> *final(self) == (NcPlane { y, x, ..*old(self) }),
    {
        if self.is_std {
            return Err(NcError::with_msg(NCRESULT_ERR, "the standard plane cannot be moved"));
        }
        self.y = y;
        self.x = x;
        Ok(())
    }

    /// Moves this plane by (`rows`, `cols`) relative to its current origin;
    /// offsets that would leave the representable range are an error. The
    /// standard plane cannot be moved.
    pub fn move_rel(&mut self, rows: NcOffset, cols: NcOffset) -> (r: NcResult<()>)
        ensures
            r is Ok <==> !old(self).is_std && i32::MIN <= old(self).y + rows <= i32::MAX
                && i32::MIN <= old(self).x + cols <= i32::MAX,
            r is Ok ==> *final(self) == (NcPlane {
                y: (old(self).y + rows) as i32,
                x: (old(self).x + cols) as i32,
                ..*old(self)
            }),
            r is Err ==> *final(self) == *old(self),
    {
        if self.is_std {
            return Err(NcError::with_msg(NCRESULT_ERR, "the standard plane cannot be moved"));
        }
        let ny = match self.y.checked_add(rows) {
            Some(v) => v,
            None => {
                return Err(NcError::with_msg(NCRESULT_ERR, "origin out of range"));
            },
        };
        let nx = match self.x.checked_add(cols) {
            Some(v) => v,
            None => {
                return Err(NcError::with_msg(NCRESULT_ERR, "origin out of range"));
            },
        };
        self.y = ny;
        self.x = nx;
        Ok(())
    }

    /// The column at which `numcols` columns ought start in order to be
    /// `align`ed within this plane.
    pub fn halign(&self, align: NcAlign, numcols: NcDim) -> (r: NcResult<NcDim>)
        ensures
            r is Ok <==> !(align is Unaligned),
            align is Left ==> r == Ok::<NcDim, NcError>(0),
            align is Center && numcols <= self.cols ==> r == Ok::<NcDim, NcError>(
                ((self.cols - numcols) / 2) as NcDim,
            ),
            align is Right && numcols <= self.cols ==> r == Ok::<NcDim, NcError>(
                (self.cols - numcols) as NcDim,
            ),
            !(align is Unaligned) && numcols > self.cols ==> r == Ok::<NcDim, NcError>(0),
    {
        notcurses_align(self.cols, align, numcols)
    }

    /// Checks that `numrows` rows can be placed `align`ed within this
    /// plane: every alignment but `Unaligned` can.
    pub fn valign(&self, align: NcAlign, numrows: NcDim) -> (r: NcResult<()>)
        ensures
            r is Ok <==> !(align is Unaligned),
    {
        match notcurses_align(self.rows, align, numrows) {
            Ok(_) => Ok(()),
            Err(e) => Err(e),
        }
    }

}

// -------------------------------------------------------------------------
// Cursor.
impl NcPlane {
    /// Moves the cursor to row 0, column 0.
    pub fn cursor_home(&mut self)
        ensures
            only_cursor_changed(*old(self), *final(self)),
            final(self).cursor_y == 0,
            final(self).cursor_x == 0,
    {
        self.cursor_y = 0;
        self.cursor_x = 0;
    }

    /// The current cursor position, row then column.
    pub fn cursor_yx(&self) -> (p: (NcDim, NcDim))
        ensures
            p == (self.cursor_y, self.cursor_x),
    {
        (self.cursor_y, self.cursor_x)
    }

    /// The current cursor row.
    pub fn cursor_y(&self) -> (y: NcDim)
        ensures
            y == self.cursor_y,
    {
        self.cursor_y
    }

    /// The current cursor column.
    pub fn cursor_x(&self) -> (x: NcDim)
        ensures
            x == self.cursor_x,
    {
        self.cursor_x
    }

    /// Moves the cursor to (`y`, `x`). Positions outside the plane are an
    /// error, and the cursor stays where it was.
    pub fn cursor_move_yx(&mut self, y: NcDim, x: NcDim) -> (r: NcResult<()>)
        ensures
            r is Ok <==> y < old(self).rows && x < old(self).cols,
            r is Ok ==> only_cursor_changed(*old(self), *final(self))
                && final(self).cursor_y == y && final(self).cursor_x == x,
            r is Err ==> *final(self) == *old(self),
    {
        if y >= self.rows || x >= self.cols {
            return Err(NcError::with_msg(NCRESULT_ERR, "cursor position outside the plane"));
        }
        self.cursor_y = y;
        self.cursor_x = x;
        Ok(())
    }

    /// Moves the cursor to row `y`, keeping its column.
    pub fn cursor_move_y(&mut self, y: NcDim) -> (r: NcResult<()>)
        ensures
            r is Ok <==> y < old(self).rows && old(self).cursor_x < old(self).cols,
            r is Ok ==> only_cursor_changed(*old(self), *final(self))
                && final(self).cursor_y == y && final(self).cursor_x == old(self).cursor_x,
            r is Err ==> *final(self) == *old(self),
    {
        let x = self.cursor_x;
        self.cursor_move_yx(y, x)
    }

    /// Moves the cursor to column `x`, keeping its row.
    pub fn cursor_move_x(&mut self, x: NcDim) -> (r: NcResult<()>)
        requires
            old(self).wf(),
        ensures
            r is Ok <==> x < old(self).cols,
            r is Ok ==> only_cursor_changed(*old(self), *final(self))
                && final(self).cursor_y == old(self).cursor_y && final(self).cursor_x == x,
            r is Err ==> *final(self) == *old(self),
    {
        let y = self.cursor_y;
        self.cursor_move_yx(y, x)
    }

    /// Moves the cursor `rows` rows forward (or backward when negative),
    /// keeping its column. A target outside the plane is an error.
    pub fn cursor_move_rows(&mut self, rows: NcOffset) -> (r: NcResult<()>)
        ensures
            r is Ok <==> 0 <= old(self).cursor_y + rows < old(self).rows
                && old(self).cursor_x < old(self).cols,
            r is Ok ==> only_cursor_changed(*old(self), *final(self))
                && final(self).cursor_y == old(self).cursor_y + rows
                && final(self).cursor_x == old(self).cursor_x,
            r is Err ==> *final(self) == *old(self),
    {
        let target: i64 = self.cursor_y as i64 + rows as i64;
        if target < 0 || target >= self.rows as i64 {
            return Err(NcError::with_msg(NCRESULT_ERR, "cursor row outside the plane"));
        }
        let x = self.cursor_x;
        self.cursor_move_yx(target as u32, x)
    }

    /// Moves the cursor `cols` columns forward (or backward when negative),
    /// keeping its row. A target outside the plane is an error.
    pub fn cursor_move_cols(&mut self, cols: NcOffset) -> (r: NcResult<()>)
        requires
            old(self).wf(),
        ensures
            r is Ok <==> 0 <= old(self).cursor_x + cols < old(self).cols,
            r is Ok ==> only_cursor_changed(*old(self), *final(self))
                && final(self).cursor_x == old(self).cursor_x + cols
                && final(self).cursor_y == old(self).cursor_y,
            r is Err ==> *final(self) == *old(self),
    {
        let target: i64 = self.cursor_x as i64 + cols as i64;
        if target < 0 || target >= self.cols as i64 {
            return Err(NcError::with_msg(NCRESULT_ERR, "cursor column outside the plane"));
        }
        let y = self.cursor_y;
        self.cursor_move_yx(y, target as u32)
    }

    /// Moves the cursor by (`rows`, `cols`) relative to where it stands.
    /// A target outside the plane is an error; the row is moved first, and
    /// stays moved if only the column move fails.
    pub fn cursor_move_rel(&mut self, rows: NcOffset, cols: NcOffset) -> (r: NcResult<()>)
        requires
            old(self).wf(),
        ensures
            r is Ok <==> 0 <= old(self).cursor_y + rows < old(self).rows
                && old(self).cursor_x < old(self).cols
                && 0 <= old(self).cursor_x + cols < old(self).cols,
            r is Ok ==> only_cursor_changed(*old(self), *final(self))
                && final(self).cursor_y == old(self).cursor_y + rows
                && final(self).cursor_x == old(self).cursor_x + cols,
            !(0 <= old(self).cursor_y + rows < old(self).rows && old(self).cursor_x < old(
                self,
            ).cols) ==> *final(self) == *old(self),
            0 <= old(self).cursor_y + rows < old(self).rows && old(self).cursor_x < old(
                self,
            ).cols && !(0 <= old(self).cursor_x + cols < old(self).cols) ==> *final(self) == (
            NcPlane { cursor_y: (old(self).cursor_y + rows) as u32, ..*old(self) }),
    {
        self.cursor_move_rows(rows)?;
        assert(self.wf());
        self.cursor_move_cols(cols)?;
        Ok(())
    }
}

// -------------------------------------------------------------------------
// Channels and styles.
impl NcPlane {
    /// The channel pair that new output is written with.
    pub fn channels(&self) -> (ch: NcChannels)
        ensures
            ch == self.channels,
    {
        self.channels
    }

    /// Replaces the channel pair that new output is written with.
    pub fn set_channels(&mut self, channels: NcChannels)
        ensures
            only_channels_changed(*old(self), *final(self)),
            final(self).channels == channels,
    {
        self.channels = channels;
    }

    /// The foreground channel of this plane.
    pub fn fchannel(&self) -> (f: NcChannel)
        ensures
            f == spec_fchannel(self.channels),
    {
        ncchannels_fchannel(self.channels)
    }

    /// The background channel of this plane.
    pub fn bchannel(&self) -> (b: NcChannel)
        ensures
            b == spec_bchannel(self.channels),
    {
        ncchannels_bchannel(self.channels)
    }

    /// Replaces the foreground channel; returns the updated pair.
    pub fn set_fchannel(&mut self, channel: NcChannel) -> (ch: NcChannels)
        ensures
            only_channels_changed(*old(self), *final(self)),
            final(self).channels == spec_combine(channel, spec_bchannel(old(self).channels)),
            ch == final(self).channels,
    {
        self.channels = ncchannels_combine(channel, ncchannels_bchannel(self.channels));
        self.channels
    }

    /// Replaces the background channel; returns the updated pair.
    pub fn set_bchannel(&mut self, channel: NcChannel) -> (ch: NcChannels)
        ensures
            only_channels_changed(*old(self), *final(self)),
            final(self).channels == spec_combine(spec_fchannel(old(self).channels), channel),
            ch == final(self).channels,
    {
        self.channels = ncchannels_combine(ncchannels_fchannel(self.channels), channel);
        self.channels
    }

    /// The foreground alpha bits of this plane, in channel position.
    pub fn fg_alpha(&self) -> (a: NcAlpha)
        ensures
            a == spec_channel_alpha(spec_fchannel(self.channels)),
    {
        ncchannel_alpha(ncchannels_fchannel(self.channels))
    }

    /// The background alpha bits of this plane, in channel position.
    pub fn bg_alpha(&self) -> (a: NcAlpha)
        ensures
            a == spec_channel_alpha(spec_bchannel(self.channels)),
    {
        ncchannel_alpha(ncchannels_bchannel(self.channels))
    }

    /// Sets the foreground alpha; bits outside the alpha mask are an error.
    pub fn set_fg_alpha(&mut self, alpha: NcAlpha) -> (r: NcResult<()>)
        ensures
            r is Ok <==> alpha & !NC_BG_ALPHA_MASK == 0,
            only_channels_changed(*old(self), *final(self)),
            r is Err ==> *final(self) == *old(self),
    {
        match ncchannel_set_alpha(ncchannels_fchannel(self.channels), alpha) {
            Ok(f) => {
                self.channels = ncchannels_combine(f, ncchannels_bchannel(self.channels));
                Ok(())
            },
            Err(e) => Err(e),
        }
    }

    /// Sets the background alpha; bits outside the alpha mask are an error.
    pub fn set_bg_alpha(&mut self, alpha: NcAlpha) -> (r: NcResult<()>)
        ensures
            r is Ok <==> alpha & !NC_BG_ALPHA_MASK == 0,
            only_channels_changed(*old(self), *final(self)),
            r is Err ==> *final(self) == *old(self),
    {
        match ncchannel_set_alpha(ncchannels_bchannel(self.channels), alpha) {
            Ok(b) => {
                self.channels = ncchannels_combine(ncchannels_fchannel(self.channels), b);
                Ok(())
            },
            Err(e) => Err(e),
        }
    }

    /// The foreground RGB components of this plane.
    pub fn fg_rgb8(&self) -> (rgb: (NcComponent, NcComponent, NcComponent))
        ensures
            rgb.0 == ((spec_fchannel(self.channels) >> 16) & 0xff) as u8,
            rgb.1 == ((spec_fchannel(self.channels) >> 8) & 0xff) as u8,
            rgb.2 == (spec_fchannel(self.channels) & 0xff) as u8,
    {
        ncchannel_rgb8(ncchannels_fchannel(self.channels))
    }

    /// The background RGB components of this plane.
    pub fn bg_rgb8(&self) -> (rgb: (NcComponent, NcComponent, NcComponent))
        ensures
            rgb.0 == ((spec_bchannel(self.channels) >> 16) & 0xff) as u8,
            rgb.1 == ((spec_bchannel(self.channels) >> 8) & 0xff) as u8,
            rgb.2 == (spec_bchannel(self.channels) & 0xff) as u8,
    {
        ncchannel_rgb8(ncchannels_bchannel(self.channels))
    }

    /// Sets the foreground RGB components, marking the foreground as RGB
    /// and as not using the default color.
    pub fn set_fg_rgb8(&mut self, red: NcComponent, green: NcComponent, blue: NcComponent)
        ensures
            only_channels_changed(*old(self), *final(self)),
            final(self).channels == spec_combine(
                spec_channel_with_rgb8(spec_fchannel(old(self).channels), red, green, blue),
                spec_bchannel(old(self).channels),
            ),
    {
        let f = ncchannel_set_rgb8(ncchannels_fchannel(self.channels), red, green, blue);
        self.channels = ncchannels_combine(f, ncchannels_bchannel(self.channels));
    }

    /// Sets the background RGB components, marking the background as RGB
    /// and as not using the default color.
    pub fn set_bg_rgb8(&mut self, red: NcComponent, green: NcComponent, blue: NcComponent)
        ensures
            only_channels_changed(*old(self), *final(self)),
            final(self).channels == spec_combine(
                spec_fchannel(old(self).channels),
                spec_channel_with_rgb8(spec_bchannel(old(self).channels), red, green, blue),
            ),
    {
        let b = ncchannel_set_rgb8(ncchannels_bchannel(self.channels), red, green, blue);
        self.channels = ncchannels_combine(ncchannels_fchannel(self.channels), b);
    }

    /// The foreground RGB bits of this plane.
    pub fn fg_rgb(&self) -> (rgb: NcRgb)
        ensures
            rgb == spec_channel_rgb(spec_fchannel(self.channels)),
    {
        ncchannel_rgb(ncchannels_fchannel(self.channels))
    }

    /// The background RGB bits of this plane.
    pub fn bg_rgb(&self) -> (rgb: NcRgb)
        ensures
            rgb == spec_channel_rgb(spec_bchannel(self.channels)),
    {
        ncchannel_rgb(ncchannels_bchannel(self.channels))
    }

    /// Sets the foreground RGB bits from the low bits of `rgb`.
    pub fn set_fg_rgb(&mut self, rgb: NcRgb)
        ensures
            only_channels_changed(*old(self), *final(self)),
            final(self).channels == spec_combine(
                spec_channel_with_rgb(spec_fchannel(old(self).channels), rgb),
                spec_bchannel(old(self).channels),
            ),
    {
        let f = ncchannel_set(ncchannels_fchannel(self.channels), rgb);
        self.channels = ncchannels_combine(f, ncchannels_bchannel(self.channels));
    }

    /// Sets the background RGB bits from the low bits of `rgb`.
    pub fn set_bg_rgb(&mut self, rgb: NcRgb)
        ensures
            only_channels_changed(*old(self), *final(self)),
            final(self).channels == spec_combine(
                spec_fchannel(old(self).channels),
                spec_channel_with_rgb(spec_bchannel(old(self).channels), rgb),
            ),
    {
        let b = ncchannel_set(ncchannels_bchannel(self.channels), rgb);
        self.channels = ncchannels_combine(ncchannels_fchannel(self.channels), b);
    }

    /// Whether the foreground uses the terminal's default color.
    pub fn fg_default(&self) -> (d: bool)
        ensures
            d == spec_channel_default_p(spec_fchannel(self.channels)),
    {
        ncchannel_default_p(ncchannels_fchannel(self.channels))
    }

    /// Whether the background uses the terminal's default color.
    pub fn bg_default(&self) -> (d: bool)
        ensures
            d == spec_channel_default_p(spec_bchannel(self.channels)),
    {
        ncchannel_default_p(ncchannels_bchannel(self.channels))
    }

    /// Resets the foreground to the terminal's default color.
    pub fn set_fg_default(&mut self)
        ensures
            only_channels_changed(*old(self), *final(self)),
            final(self).channels == spec_combine(
                spec_channel_defaulted(spec_fchannel(old(self).channels)),
                spec_bchannel(old(self).channels),
            ),
    {
        let f = ncchannel_set_default(ncchannels_fchannel(self.channels));
        self.channels = ncchannels_combine(f, ncchannels_bchannel(self.channels));
    }

    /// Resets the background to the terminal's default color.
    pub fn set_bg_default(&mut self)
        ensures
            only_channels_changed(*old(self), *final(self)),
            final(self).channels == spec_combine(
                spec_fchannel(old(self).channels),
                spec_channel_defaulted(spec_bchannel(old(self).channels)),
            ),
    {
        let b = ncchannel_set_default(ncchannels_bchannel(self.channels));
        self.channels = ncchannels_combine(ncchannels_fchannel(self.channels), b);
    }

    /// Marks the foreground as not using the default color; returns the
    /// updated pair.
    pub fn set_fg_not_default(&mut self) -> (ch: NcChannels)
        ensures
            only_channels_changed(*old(self), *final(self)),
            final(self).channels == spec_combine(
                spec_fchannel(old(self).channels) | crate::channel::NC_BGDEFAULT_MASK,
                spec_bchannel(old(self).channels),
            ),
            ch == final(self).channels,
    {
        let f = ncchannel_set_not_default(ncchannels_fchannel(self.channels));
        self.channels = ncchannels_combine(f, ncchannels_bchannel(self.channels));
        self.channels
    }

    /// Marks the background as not using the default color; returns the
    /// updated pair.
    pub fn set_bg_not_default(&mut self) -> (ch: NcChannels)
        ensures
            only_channels_changed(*old(self), *final(self)),
            final(self).channels == spec_combine(
                spec_fchannel(old(self).channels),
                spec_bchannel(old(self).channels) | crate::channel::NC_BGDEFAULT_MASK,
            ),
            ch == final(self).channels,
    {
        let b = ncchannel_set_not_default(ncchannels_bchannel(self.channels));
        self.channels = ncchannels_combine(ncchannels_fchannel(self.channels), b);
        self.channels
    }

    /// Resets both channels to the terminal's default color; returns the
    /// updated pair.
    pub fn set_default(&mut self) -> (ch: NcChannels)
        ensures
            only_channels_changed(*old(self), *final(self)),
            final(self).channels == spec_combine(
                spec_channel_defaulted(spec_fchannel(old(self).channels)),
                spec_channel_defaulted(spec_bchannel(old(self).channels)),
            ),
            ch == final(self).channels,
    {
        let f = ncchannel_set_default(ncchannels_fchannel(self.channels));
        let b = ncchannel_set_default(ncchannels_bchannel(self.channels));
        self.channels = ncchannels_combine(f, b);
        self.channels
    }

    /// Marks both channels as not using the default color; returns the
    /// updated pair.
    pub fn set_not_default(&mut self) -> (ch: NcChannels)
        ensures
            only_channels_changed(*old(self), *final(self)),
            final(self).channels == spec_combine(
                spec_fchannel(old(self).channels) | crate::channel::NC_BGDEFAULT_MASK,
                spec_bchannel(old(self).channels) | crate::channel::NC_BGDEFAULT_MASK,
            ),
            ch == final(self).channels,
    {
        let f = ncchannel_set_not_default(ncchannels_fchannel(self.channels));
        let b = ncchannel_set_not_default(ncchannels_bchannel(self.channels));
        self.channels = ncchannels_combine(f, b);
        self.channels
    }

    /// Sets the foreground to palette index `palindex`.
    pub fn set_fg_palindex(&mut self, palindex: NcPaletteIndex)
        ensures
            only_channels_changed(*old(self), *final(self)),
            final(self).channels == spec_combine(
                spec_channel_with_palindex(spec_fchannel(old(self).channels), palindex),
                spec_bchannel(old(self).channels),
            ),
    {
        let f = ncchannel_set_palindex(ncchannels_fchannel(self.channels), palindex);
        self.channels = ncchannels_combine(f, ncchannels_bchannel(self.channels));
    }

    /// Sets the background to palette index `palindex`.
    pub fn set_bg_palindex(&mut self, palindex: NcPaletteIndex)
        ensures
            only_channels_changed(*old(self), *final(self)),
            final(self).channels == spec_combine(
                spec_fchannel(old(self).channels),
                spec_channel_with_palindex(spec_bchannel(old(self).channels), palindex),
            ),
    {
        let b = ncchannel_set_palindex(ncchannels_bchannel(self.channels), palindex);
        self.channels = ncchannels_combine(ncchannels_fchannel(self.channels), b);
    }

    /// The style bits that new output is written with.
    pub fn styles(&self) -> (s: NcStyle)
        ensures
            s == self.styles,
    {
        self.styles
    }

    /// Adds the given style bits.
    pub fn on_styles(&mut self, stylemask: NcStyle)
        ensures
            only_styles_changed(*old(self), *final(self)),
            final(self).styles == old(self).styles | stylemask,
    {
        self.styles = self.styles | stylemask;
    }

    /// Removes the given style bits.
    pub fn off_styles(&mut self, stylemask: NcStyle)
        ensures
            only_styles_changed(*old(self), *final(self)),
            final(self).styles == old(self).styles & !stylemask,
    {
        self.styles = self.styles & !stylemask;
    }

    /// Sets exactly the given style bits.
    pub fn set_styles(&mut self, stylemask: NcStyle)
        ensures
            only_styles_changed(*old(self), *final(self)),
            final(self).styles == stylemask,
    {
        self.styles = stylemask;
    }
}

// -------------------------------------------------------------------------
// Scrolling and the base cell.
impl NcPlane {
    /// Whether scrolling is enabled on this plane.
    pub fn scrolling_p(&self) -> (s: bool)
        ensures
            s == self.scrolling,
    {
        self.scrolling
    }

    /// Sets the scrolling behaviour; returns whether scrolling was enabled
    /// before the call.
    pub fn set_scrolling(&mut self, scroll: bool) -> (was: bool)
        ensures
            *final(self) == (NcPlane { scrolling: scroll, ..*old(self) }),
            was == old(self).scrolling,
    {
        let was = self.scrolling;
        self.scrolling = scroll;
        was
    }

    /// The base cell, shown wherever a cell of this plane is undrawn.
    pub fn base(&self) -> (c: NcResult<NcCell>)
        ensures
            c == Ok::<NcCell, NcError>(self.base),
    {
        Ok(self.base)
    }

    /// Sets the base cell from its parts; returns how many bytes the
    /// glyph's encoding takes. An empty `egc` leaves the base undrawn.
    pub fn set_base(&mut self, egc: &str, stylemask: NcStyle, channels: NcChannels) -> (r:
        NcResult<u32>)
        ensures
            r is Ok,
            egc@.len() == 0 ==> *final(self) == (NcPlane {
                base: NcCell { gcluster: '\0', stylemask, channels },
                ..*old(self)
            }) && r == Ok::<u32, NcError>(0),
            egc@.len() > 0 ==> *final(self) == (NcPlane {
                base: NcCell { gcluster: egc@[0], stylemask, channels },
                ..*old(self)
            }) && r == Ok::<u32, NcError>(crate::cell::spec_utf8_len(egc@[0]) as u32),
    {
        if egc.unicode_len() == 0 {
            self.base = NcCell { gcluster: '\0', stylemask, channels };
            Ok(0)
        } else {
            let g = egc.get_char(0);
            self.base = NcCell { gcluster: g, stylemask, channels };
            Ok(crate::cell::utf8_len(g) as u32)
        }
    }

    /// Sets the base cell.
    pub fn set_base_cell(&mut self, cell: &NcCell) -> (r: NcResult<()>)
        ensures
            r is Ok,
            *final(self) == (NcPlane { base: *cell, ..*old(self) }),
    {
        self.base = *cell;
        Ok(())
    }

    /// The registered resize callback, if any.
    pub fn resizecb(&self) -> (cb: Option<NcResizeCb>)
        ensures
            cb == self.resizecb,
    {
        self.resizecb
    }

    /// Replaces the resize callback registration (possibly with none).
    /// The standard plane's registration cannot be changed.
    pub fn set_resizecb(&mut self, resizecb: Option<NcResizeCb>)
        ensures
            old(self).is_std ==> *final(self) == *old(self),
            !old(self).is_std ==> *final(self) == (NcPlane { resizecb, ..*old(self) }),
    {
        if !self.is_std {
            self.resizecb = resizecb;
        }
    }
}

} // verus!
