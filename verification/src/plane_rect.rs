//! Rectangular region operations: restyling, recoloring and gradients.
//!
//! The color laid on a cell of a region is interpolated between the four
//! corner channels with pure integer arithmetic: a cell at (`y`, `x`) of
//! a region of `ylen` by `xlen` cells takes, per component, the weighted
//! average of the corners, row weights `ylen-1-y` against `y` and column
//! weights `xlen-1-x` against `x`.

use vstd::prelude::*;
use crate::cell::NcCell;
use crate::channel::{
    ncchannel_alpha, ncchannel_default_p, ncchannel_palindex_p, ncchannel_rgb8,
    ncchannel_set_rgb8, ncchannels_bchannel, ncchannels_combine, ncchannels_fchannel,
    spec_bchannel, spec_channel_alpha, spec_channel_default_p, spec_channel_palindex_p,
    spec_channel_with_rgb8, spec_combine, spec_fchannel, NC_BG_ALPHA_MASK,
};
use crate::plane::NcPlane;
use crate::plane_cells::resolve_coord;
use crate::result::{NcError, NcResult, NCRESULT_ERR};
use crate::types::{NcChannel, NcChannels, NcDim, NcStyle};

verus! {

/// One interpolated color component at (`y`, `x`) of a `ylen` by `xlen`
/// region whose corners carry the components `ul`, `ur`, `ll`, `lr`.
pub open spec fn spec_grad_comp(
    ul: int,
    ur: int,
    ll: int,
    lr: int,
    y: int,
    x: int,
    ylen: int,
    xlen: int,
) -> int {
    if xlen < 2 {
        if ylen < 2 {
            ul
        } else {
            (ul * (ylen - 1 - y) + ll * y) / (ylen - 1)
        }
    } else if ylen < 2 {
        (ul * (xlen - 1 - x) + ur * x) / (xlen - 1)
    } else {
        ((ul * (xlen - 1 - x) + ur * x) * (ylen - 1 - y) + (ll * (xlen - 1 - x) + lr * x) * y) / (
        (ylen - 1) * (xlen - 1))
    }
}

/// The interpolated component stays within the component range.
proof fn lemma_grad_comp_bounds(
    ul: int,
    ur: int,
    ll: int,
    lr: int,
    y: int,
    x: int,
    ylen: int,
    xlen: int,
)
    requires
        0 <= ul <= 255,
        0 <= ur <= 255,
        0 <= ll <= 255,
        0 <= lr <= 255,
        0 <= y < ylen,
        0 <= x < xlen,
    ensures
        0 <= spec_grad_comp(ul, ur, ll, lr, y, x, ylen, xlen) <= 255,
{
    if xlen < 2 {
        if ylen >= 2 {
            assert(0 <= (ul * (ylen - 1 - y) + ll * y) / (ylen - 1) <= 255) by (nonlinear_arith)
                requires
                    0 <= ul <= 255,
                    0 <= ll <= 255,
                    0 <= y < ylen,
                    ylen >= 2,
            ;
        }
    } else if ylen < 2 {
        assert(0 <= (ul * (xlen - 1 - x) + ur * x) / (xlen - 1) <= 255) by (nonlinear_arith)
            requires
                0 <= ul <= 255,
                0 <= ur <= 255,
                0 <= x < xlen,
                xlen >= 2,
        ;
    } else {
        assert(0 <= ((ul * (xlen - 1 - x) + ur * x) * (ylen - 1 - y) + (ll * (xlen - 1 - x) + lr
            * x) * y) / ((ylen - 1) * (xlen - 1)) <= 255) by (nonlinear_arith)
            requires
                0 <= ul <= 255,
                0 <= ur <= 255,
                0 <= ll <= 255,
                0 <= lr <= 255,
                0 <= y < ylen,
                0 <= x < xlen,
                ylen >= 2,
                xlen >= 2,
        ;
    }
}

/// One interpolated channel: a corner set that uses the default color
/// stays default (keeping the upper-left alpha); otherwise the RGB
/// components are interpolated and the upper-left alpha is kept.
pub open spec fn spec_grad_channel(
    ul: NcChannel,
    ur: NcChannel,
    ll: NcChannel,
    lr: NcChannel,
    y: int,
    x: int,
    ylen: int,
    xlen: int,
) -> NcChannel {
    if spec_channel_default_p(ul) {
        spec_channel_alpha(ul)
    } else {
        spec_channel_with_rgb8(
            spec_channel_alpha(ul),
            spec_grad_comp(
                ((ul >> 16) & 0xff) as int,
                ((ur >> 16) & 0xff) as int,
                ((ll >> 16) & 0xff) as int,
                ((lr >> 16) & 0xff) as int,
                y,
                x,
                ylen,
                xlen,
            ) as u8,
            spec_grad_comp(
                ((ul >> 8) & 0xff) as int,
                ((ur >> 8) & 0xff) as int,
                ((ll >> 8) & 0xff) as int,
                ((lr >> 8) & 0xff) as int,
                y,
                x,
                ylen,
                xlen,
            ) as u8,
            spec_grad_comp(
                (ul & 0xff) as int,
                (ur & 0xff) as int,
                (ll & 0xff) as int,
                (lr & 0xff) as int,
                y,
                x,
                ylen,
                xlen,
            ) as u8,
        )
    }
}

/// One interpolated channel pair: foreground and background halves are
/// interpolated independently.
pub open spec fn spec_grad_channels(
    ul: NcChannels,
    ur: NcChannels,
    ll: NcChannels,
    lr: NcChannels,
    y: int,
    x: int,
    ylen: int,
    xlen: int,
) -> NcChannels {
    spec_combine(
        spec_grad_channel(
            spec_fchannel(ul),
            spec_fchannel(ur),
            spec_fchannel(ll),
            spec_fchannel(lr),
            y,
            x,
            ylen,
            xlen,
        ),
        spec_grad_channel(
            spec_bchannel(ul),
            spec_bchannel(ur),
            spec_bchannel(ll),
            spec_bchannel(lr),
            y,
            x,
            ylen,
            xlen,
        ),
    )
}

/// One interpolated component, as executable arithmetic.
fn gradient_component(
    ul: u8,
    ur: u8,
    ll: u8,
    lr: u8,
    y: u64,
    x: u64,
    ylen: u64,
    xlen: u64,
) -> (c: u8)
    requires
        y < ylen,
        x < xlen,
        ylen * xlen <= 0x2_0000_0000,
    ensures
        c == spec_grad_comp(
            ul as int,
            ur as int,
            ll as int,
            lr as int,
            y as int,
            x as int,
            ylen as int,
            xlen as int,
        ),
{
    proof {
        lemma_grad_comp_bounds(
            ul as int,
            ur as int,
            ll as int,
            lr as int,
            y as int,
            x as int,
            ylen as int,
            xlen as int,
        );
        assert((255 * (xlen as int) * (ylen as int)) <= 255 * 0x2_0000_0000) by (nonlinear_arith)
            requires
                (ylen as int) * (xlen as int) <= 0x2_0000_0000,
                ylen >= 1,
                xlen >= 1,
        ;
    }
    if xlen < 2 {
        if ylen < 2 {
            ul
        } else {
            proof {
                assert((ul as int) * ((ylen - 1 - y) as int) <= 255 * 0x2_0000_0000 && (ll as int)
                    * (y as int) <= 255 * 0x2_0000_0000) by (nonlinear_arith)
                    requires
                        ul <= 255,
                        ll <= 255,
                        0 <= y < ylen <= 0x2_0000_0000,
                ;
            }
            let num: u64 = (ul as u64) * ((ylen - 1 - y) as u64) + (ll as u64) * (y as u64);
            proof {
                assert(num / ((ylen - 1) as u64) == spec_grad_comp(
                    ul as int,
                    ur as int,
                    ll as int,
                    lr as int,
                    y as int,
                    x as int,
                    ylen as int,
                    xlen as int,
                ));
            }
            (num / ((ylen - 1) as u64)) as u8
        }
    } else if ylen < 2 {
        proof {
            assert((ul as int) * ((xlen - 1 - x) as int) <= 255 * 0x2_0000_0000 && (ur as int) * (
            x as int) <= 255 * 0x2_0000_0000) by (nonlinear_arith)
                requires
                    ul <= 255,
                    ur <= 255,
                    0 <= x < xlen <= 0x2_0000_0000,
            ;
        }
        let num: u64 = (ul as u64) * ((xlen - 1 - x) as u64) + (ur as u64) * (x as u64);
        proof {
            assert(num / ((xlen - 1) as u64) == spec_grad_comp(
                ul as int,
                ur as int,
                ll as int,
                lr as int,
                y as int,
                x as int,
                ylen as int,
                xlen as int,
            ));
        }
        (num / ((xlen - 1) as u64)) as u8
    } else {
        let ahm: u64 = (xlen - 1 - x) as u64;
        let bhm: u64 = x as u64;
        let avm: u64 = (ylen - 1 - y) as u64;
        let bvm: u64 = y as u64;
        proof {
            assert((ul as int) * (ahm as int) + (ur as int) * (bhm as int) <= 255 * (xlen as int)
                && (ll as int) * (ahm as int) + (lr as int) * (bhm as int) <= 255 * (xlen as int))
                by (nonlinear_arith)
                requires
                    ul <= 255,
                    ur <= 255,
                    ll <= 255,
                    lr <= 255,
                    ahm as int + bhm as int == xlen as int - 1,
                    ahm >= 0,
                    bhm >= 0,
            ;
        }
        proof {
            assert(xlen as int <= 0x2_0000_0000 && ylen as int <= 0x2_0000_0000)
                by (nonlinear_arith)
                requires
                    (ylen as int) * (xlen as int) <= 0x2_0000_0000,
                    ylen >= 1,
                    xlen >= 1,
            ;
            assert((ul as int) * (ahm as int) <= 255 * 0x2_0000_0000 && (ur as int) * (bhm as int)
                <= 255 * 0x2_0000_0000 && (ll as int) * (ahm as int) <= 255 * 0x2_0000_0000 && (
            lr as int) * (bhm as int) <= 255 * 0x2_0000_0000) by (nonlinear_arith)
                requires
                    ul <= 255,
                    ur <= 255,
                    ll <= 255,
                    lr <= 255,
                    0 <= ahm as int <= 0x2_0000_0000,
                    0 <= bhm as int <= 0x2_0000_0000,
            ;
        }
        let top: u64 = (ul as u64) * ahm + (ur as u64) * bhm;
        let bot: u64 = (ll as u64) * ahm + (lr as u64) * bhm;
        proof {
            assert((top as int) * (avm as int) + (bot as int) * (bvm as int) <= 255 * (
            xlen as int) * (ylen as int)) by (nonlinear_arith)
                requires
                    0 <= top as int <= 255 * (xlen as int),
                    0 <= bot as int <= 255 * (xlen as int),
                    avm as int + bvm as int == ylen as int - 1,
                    avm >= 0,
                    bvm >= 0,
                    xlen >= 1,
                    ylen >= 1,
            ;
            assert(255 * (xlen as int) * (ylen as int) <= 255 * 0x2_0000_0000) by (nonlinear_arith)
                requires
                    (ylen as int) * (xlen as int) <= 0x2_0000_0000,
                    ylen >= 1,
                    xlen >= 1,
            ;
            assert(((ylen - 1) as int) * ((xlen - 1) as int) <= 0x2_0000_0000) by (nonlinear_arith)
                requires
                    (ylen as int) * (xlen as int) <= 0x2_0000_0000,
                    ylen >= 1,
                    xlen >= 1,
            ;
        }
        proof {
            assert(((ylen - 1) as int) * ((xlen - 1) as int) >= 1) by (nonlinear_arith)
                requires
                    ylen >= 2,
                    xlen >= 2,
            ;
        }
        let num: u64 = top * avm + bot * bvm;
        let den: u64 = ((ylen - 1) as u64) * ((xlen - 1) as u64);
        proof {
            assert(num / den == spec_grad_comp(
                ul as int,
                ur as int,
                ll as int,
                lr as int,
                y as int,
                x as int,
                ylen as int,
                xlen as int,
            ));
        }
        (num / den) as u8
    }
}

/// The byte fields extracted from a channel stay within a byte.
proof fn lemma_byte_bounds(c: u32)
    ensures
        (c >> 16) & 0xff <= 0xff,
        (c >> 8) & 0xff <= 0xff,
        c & 0xff <= 0xff,
{
    assert((c >> 16) & 0xff <= 0xff) by (bit_vector);
    assert((c >> 8) & 0xff <= 0xff) by (bit_vector);
    assert(c & 0xff <= 0xff) by (bit_vector);
}

/// One interpolated channel, as executable arithmetic.
fn gradient_channel(
    ul: NcChannel,
    ur: NcChannel,
    ll: NcChannel,
    lr: NcChannel,
    y: u64,
    x: u64,
    ylen: u64,
    xlen: u64,
) -> (c: NcChannel)
    requires
        y < ylen,
        x < xlen,
        ylen * xlen <= 0x2_0000_0000,
    ensures
        c == spec_grad_channel(ul, ur, ll, lr, y as int, x as int, ylen as int, xlen as int),
{
    if ncchannel_default_p(ul) {
        ncchannel_alpha(ul)
    } else {
        proof {
            lemma_byte_bounds(ul);
            lemma_byte_bounds(ur);
            lemma_byte_bounds(ll);
            lemma_byte_bounds(lr);
        }
        let (ulr, ulg, ulb) = ncchannel_rgb8(ul);
        let (urr, urg, urb) = ncchannel_rgb8(ur);
        let (llr, llg, llb) = ncchannel_rgb8(ll);
        let (lrr, lrg, lrb) = ncchannel_rgb8(lr);
        let r = gradient_component(ulr, urr, llr, lrr, y, x, ylen, xlen);
        let g = gradient_component(ulg, urg, llg, lrg, y, x, ylen, xlen);
        let b = gradient_component(ulb, urb, llb, lrb, y, x, ylen, xlen);
        ncchannel_set_rgb8(ncchannel_alpha(ul), r, g, b)
    }
}

/// One interpolated channel pair, as executable arithmetic.
pub(crate) fn gradient_channels(
    ul: NcChannels,
    ur: NcChannels,
    ll: NcChannels,
    lr: NcChannels,
    y: u64,
    x: u64,
    ylen: u64,
    xlen: u64,
) -> (c: NcChannels)
    requires
        y < ylen,
        x < xlen,
        ylen * xlen <= 0x2_0000_0000,
    ensures
        c == spec_grad_channels(ul, ur, ll, lr, y as int, x as int, ylen as int, xlen as int),
{
    let f = gradient_channel(
        ncchannels_fchannel(ul),
        ncchannels_fchannel(ur),
        ncchannels_fchannel(ll),
        ncchannels_fchannel(lr),
        y,
        x,
        ylen,
        xlen,
    );
    let b = gradient_channel(
        ncchannels_bchannel(ul),
        ncchannels_bchannel(ur),
        ncchannels_bchannel(ll),
        ncchannels_bchannel(lr),
        y,
        x,
        ylen,
        xlen,
    );
    ncchannels_combine(f, b)
}

/// The coordinate a stop argument names: the axis boundary for `None` or
/// zero, the value itself otherwise.
pub open spec fn stop_coord(o: Option<NcDim>, d: NcDim) -> int {
    match o {
        Some(v) => if v == 0 {
            d - 1
        } else {
            v as int
        },
        None => d - 1,
    }
}

/// Whether four corner channel pairs may be interpolated: the foreground
/// halves (and likewise the background halves) are either all default or
/// none of them, carry one common alpha, and none is palette-indexed.
pub open spec fn spec_grad_channel_args_ok(
    ul: NcChannel,
    ur: NcChannel,
    ll: NcChannel,
    lr: NcChannel,
) -> bool {
    &&& (spec_channel_default_p(ul) == spec_channel_default_p(ur) && spec_channel_default_p(ur)
        == spec_channel_default_p(ll) && spec_channel_default_p(ll) == spec_channel_default_p(lr))
    &&& spec_channel_alpha(ul) == spec_channel_alpha(ur)
    &&& spec_channel_alpha(ur) == spec_channel_alpha(ll)
    &&& spec_channel_alpha(ll) == spec_channel_alpha(lr)
    &&& !spec_channel_palindex_p(ul)
    &&& !spec_channel_palindex_p(ur)
    &&& !spec_channel_palindex_p(ll)
    &&& !spec_channel_palindex_p(lr)
}

/// Whether four corner channel pairs may be interpolated, both halves.
pub open spec fn spec_grad_args_ok(
    ul: NcChannels,
    ur: NcChannels,
    ll: NcChannels,
    lr: NcChannels,
) -> bool {
    &&& spec_grad_channel_args_ok(
        spec_fchannel(ul),
        spec_fchannel(ur),
        spec_fchannel(ll),
        spec_fchannel(lr),
    )
    &&& spec_grad_channel_args_ok(
        spec_bchannel(ul),
        spec_bchannel(ur),
        spec_bchannel(ll),
        spec_bchannel(lr),
    )
}

/// Whether four corner channel pairs fit a region's shape: a single cell
/// takes one color, a single column equal top and equal bottom colors,
/// and a single row equal left and equal right colors.
pub open spec fn spec_grad_shape_ok(
    ul: NcChannels,
    ur: NcChannels,
    ll: NcChannels,
    lr: NcChannels,
    ylen: int,
    xlen: int,
) -> bool {
    &&& (ylen == 1 && xlen == 1 ==> ul == ur && ur == ll && ll == lr)
    &&& (xlen == 1 ==> ul == ur && ll == lr)
    &&& (ylen == 1 ==> ul == ll && ur == lr)
}

/// Whether four corner channel halves may be interpolated, as executable
/// checks.
fn grad_channel_args_ok(ul: NcChannel, ur: NcChannel, ll: NcChannel, lr: NcChannel) -> (b: bool)
    ensures
        b == spec_grad_channel_args_ok(ul, ur, ll, lr),
{
    ncchannel_default_p(ul) == ncchannel_default_p(ur) && ncchannel_default_p(ur)
        == ncchannel_default_p(ll) && ncchannel_default_p(ll) == ncchannel_default_p(lr)
        && ncchannel_alpha(ul) == ncchannel_alpha(ur) && ncchannel_alpha(ur) == ncchannel_alpha(ll)
        && ncchannel_alpha(ll) == ncchannel_alpha(lr) && !ncchannel_palindex_p(ul)
        && !ncchannel_palindex_p(ur) && !ncchannel_palindex_p(ll) && !ncchannel_palindex_p(lr)
}

/// Whether four corner channel pairs may be interpolated, as executable
/// checks.
fn grad_args_ok(ul: NcChannels, ur: NcChannels, ll: NcChannels, lr: NcChannels) -> (b: bool)
    ensures
        b == spec_grad_args_ok(ul, ur, ll, lr),
{
    grad_channel_args_ok(
        ncchannels_fchannel(ul),
        ncchannels_fchannel(ur),
        ncchannels_fchannel(ll),
        ncchannels_fchannel(lr),
    ) && grad_channel_args_ok(
        ncchannels_bchannel(ul),
        ncchannels_bchannel(ur),
        ncchannels_bchannel(ll),
        ncchannels_bchannel(lr),
    )
}

impl NcPlane {
    /// Resolves a region given by an origin (`None`: the cursor) and a
    /// stop (`None` or zero: the axis boundary), both inclusive. An
    /// origin outside the plane, a stop outside the plane, or a stop
    /// before the origin is an error.
    fn rect_region(
        &self,
        y: Option<NcDim>,
        x: Option<NcDim>,
        stop_y: Option<NcDim>,
        stop_x: Option<NcDim>,
    ) -> (r: NcResult<(NcDim, NcDim, NcDim, NcDim)>)
        requires
            self.wf(),
        ensures
            r is Ok <==> ({
                let y0 = resolve_coord(y, self.cursor_y) as int;
                let x0 = resolve_coord(x, self.cursor_x) as int;
                let y1 = stop_coord(stop_y, self.rows);
                let x1 = stop_coord(stop_x, self.cols);
                y0 < self.rows && x0 < self.cols && y0 <= y1 < self.rows && x0 <= x1 < self.cols
            }),
            r matches Ok(v) ==> v.0 == resolve_coord(y, self.cursor_y) && v.1 == resolve_coord(
                x,
                self.cursor_x,
            ) && v.2 == stop_coord(stop_y, self.rows) && v.3 == stop_coord(stop_x, self.cols)
                && v.0 <= v.2 < self.rows && v.1 <= v.3 < self.cols,
    {
        let y0 = match y {
            Some(v) => v,
            None => self.cursor_y,
        };
        let x0 = match x {
            Some(v) => v,
            None => self.cursor_x,
        };
        let y1 = match stop_y {
            Some(v) => if v == 0 {
                self.rows - 1
            } else {
                v
            },
            None => self.rows - 1,
        };
        let x1 = match stop_x {
            Some(v) => if v == 0 {
                self.cols - 1
            } else {
                v
            },
            None => self.cols - 1,
        };
        if y0 >= self.rows || x0 >= self.cols || y1 < y0 || x1 < x0 || y1 >= self.rows || x1
            >= self.cols {
            return Err(NcError::with_msg(NCRESULT_ERR, "region outside the plane"));
        }
        Ok((y0, x0, y1, x1))
    }

    /// Sets the given style bits throughout the region from (`y`, `x`)
    /// (the cursor, per axis, for `None`) through the inclusive stop
    /// coordinates (the plane boundary for `None` or zero), keeping
    /// glyphs and channels. Returns how many cells were set. A region
    /// that does not lie on the plane is an error.
    pub fn format(
        &mut self,
        y: Option<NcDim>,
        x: Option<NcDim>,
        stop_y: Option<NcDim>,
        stop_x: Option<NcDim>,
        stylemask: NcStyle,
    ) -> (r: NcResult<NcDim>)
        requires
            old(self).wf(),
        ensures
            final(self).wf(),
            r is Ok <==> ({
                let y0 = resolve_coord(y, old(self).cursor_y) as int;
                let x0 = resolve_coord(x, old(self).cursor_x) as int;
                let y1 = stop_coord(stop_y, old(self).rows);
                let x1 = stop_coord(stop_x, old(self).cols);
                y0 <= y1 < old(self).rows && x0 <= x1 < old(self).cols
            }),
            r is Err ==> *final(self) == *old(self),
            r is Ok ==> ({
                let y0 = resolve_coord(y, old(self).cursor_y) as int;
                let x0 = resolve_coord(x, old(self).cursor_x) as int;
                let y1 = stop_coord(stop_y, old(self).rows);
                let x1 = stop_coord(stop_x, old(self).cols);
                &&& *final(self) == (NcPlane { cells: final(self).cells, ..*old(self) })
                &&& final(self).cells@.len() == old(self).cells@.len()
                &&& forall|yy: int, xx: int|
                    old(self).spec_on_plane(yy, xx) ==> final(self).cell_at(yy, xx) == (if y0
                        <= yy <= y1 && x0 <= xx <= x1 {
                        NcCell { stylemask, ..old(self).cell_at(yy, xx) }
                    } else {
                        old(self).cell_at(yy, xx)
                    })
                &&& r == Ok::<NcDim, NcError>((((y1 + 1 - y0) * (x1 + 1 - x0)) as u32))
            }),
    {
        let (y0, x0, y1, x1) = self.rect_region(y, x, stop_y, stop_x)?;
        let mut yy: NcDim = y0;
        while yy <= y1
            invariant
                self.wf(),
                y0 <= yy <= y1 + 1,
                y0 <= y1 < self.rows,
                x0 <= x1 < self.cols,
                *self == (NcPlane { cells: self.cells, ..*old(self) }),
                self.cells@.len() == old(self).cells@.len(),
                forall|qy: int, qx: int|
                    old(self).spec_on_plane(qy, qx) ==> self.cell_at(qy, qx) == (if y0 <= qy < yy
                        && x0 <= qx <= x1 {
                        NcCell { stylemask, ..old(self).cell_at(qy, qx) }
                    } else {
                        old(self).cell_at(qy, qx)
                    }),
            decreases y1 + 1 - yy,
        {
            let mut xx: NcDim = x0;
            while xx <= x1
                invariant
                    self.wf(),
                    y0 <= yy <= y1,
                    y0 <= y1 < self.rows,
                    x0 <= xx <= x1 + 1,
                    x0 <= x1 < self.cols,
                    *self == (NcPlane { cells: self.cells, ..*old(self) }),
                    self.cells@.len() == old(self).cells@.len(),
                    forall|qy: int, qx: int|
                        old(self).spec_on_plane(qy, qx) ==> self.cell_at(qy, qx) == (if (y0 <= qy
                            < yy && x0 <= qx <= x1) || (qy == yy && x0 <= qx < xx) {
                            NcCell { stylemask, ..old(self).cell_at(qy, qx) }
                        } else {
                            old(self).cell_at(qy, qx)
                        }),
                decreases x1 + 1 - xx,
            {
                let i = self.index_of(yy, xx);
                let c = self.cells[i];
                self.set_cell(yy, xx, NcCell { stylemask, ..c });
                xx = xx + 1;
            }
            yy = yy + 1;
        }
        proof {
            assert(((y1 + 1 - y0) * (x1 + 1 - x0)) <= (self.rows as int) * (self.cols as int))
                by (nonlinear_arith)
                requires
                    0 <= y0 <= y1 < self.rows as int,
                    0 <= x0 <= x1 < self.cols as int,
            ;
            assert((y1 + 1 - y0) * (x1 + 1 - x0) >= 1) by (nonlinear_arith)
                requires
                    y0 <= y1,
                    x0 <= x1,
            ;
        }
        let count: u64 = ((y1 - y0) as u64 + 1) * ((x1 - x0) as u64 + 1);
        proof {
            assert(count as int == (y1 + 1 - y0) * (x1 + 1 - x0)) by (nonlinear_arith)
                requires
                    count as int == ((y1 as int - y0 as int) + 1) * ((x1 as int - x0 as int) + 1),
            ;
        }
        Ok(count as u32)
    }

    /// Lays the gradient of the four corner channel pairs over the region
    /// from (`y`, `x`) (the cursor, per axis, for `None`) through the
    /// inclusive stop coordinates (the plane boundary for `None` or
    /// zero), keeping glyphs and styles. Returns how many cells were
    /// recolored. A region that does not lie on the plane is an error.
    pub fn stain(
        &mut self,
        y: Option<NcDim>,
        x: Option<NcDim>,
        stop_y: Option<NcDim>,
        stop_x: Option<NcDim>,
        ul: NcChannels,
        ur: NcChannels,
        ll: NcChannels,
        lr: NcChannels,
    ) -> (r: NcResult<u32>)
        requires
            old(self).wf(),
        ensures
            final(self).wf(),
            r is Ok <==> ({
                let y0 = resolve_coord(y, old(self).cursor_y) as int;
                let x0 = resolve_coord(x, old(self).cursor_x) as int;
                let y1 = stop_coord(stop_y, old(self).rows);
                let x1 = stop_coord(stop_x, old(self).cols);
                y0 <= y1 < old(self).rows && x0 <= x1 < old(self).cols
            }),
            r is Err ==> *final(self) == *old(self),
            r is Ok ==> ({
                let y0 = resolve_coord(y, old(self).cursor_y) as int;
                let x0 = resolve_coord(x, old(self).cursor_x) as int;
                let y1 = stop_coord(stop_y, old(self).rows);
                let x1 = stop_coord(stop_x, old(self).cols);
                &&& *final(self) == (NcPlane { cells: final(self).cells, ..*old(self) })
                &&& final(self).cells@.len() == old(self).cells@.len()
                &&& forall|yy: int, xx: int|
                    old(self).spec_on_plane(yy, xx) ==> final(self).cell_at(yy, xx) == (if y0
                        <= yy <= y1 && x0 <= xx <= x1 {
                        NcCell {
                            channels: spec_grad_channels(
                                ul,
                                ur,
                                ll,
                                lr,
                                yy - y0,
                                xx - x0,
                                y1 + 1 - y0,
                                x1 + 1 - x0,
                            ),
                            ..old(self).cell_at(yy, xx)
                        }
                    } else {
                        old(self).cell_at(yy, xx)
                    })
                &&& r == Ok::<u32, NcError>((((y1 + 1 - y0) * (x1 + 1 - x0)) as u32))
            }),
    {
        let (y0, x0, y1, x1) = self.rect_region(y, x, stop_y, stop_x)?;
        let ylen: NcDim = y1 - y0 + 1;
        let xlen: NcDim = x1 - x0 + 1;
        proof {
            assert((ylen as int) * (xlen as int) <= (self.rows as int) * (self.cols as int))
                by (nonlinear_arith)
                requires
                    0 <= y0 <= y1 < self.rows as int,
                    0 <= x0 <= x1 < self.cols as int,
                    ylen as int == y1 as int - y0 as int + 1,
                    xlen as int == x1 as int - x0 as int + 1,
            ;
        }
        let mut yy: NcDim = y0;
        while yy <= y1
            invariant
                self.wf(),
                y0 <= yy <= y1 + 1,
                y0 <= y1 < self.rows,
                x0 <= x1 < self.cols,
                ylen == y1 - y0 + 1,
                xlen == x1 - x0 + 1,
                ylen * xlen <= u32::MAX,
                *self == (NcPlane { cells: self.cells, ..*old(self) }),
                self.cells@.len() == old(self).cells@.len(),
                forall|qy: int, qx: int|
                    old(self).spec_on_plane(qy, qx) ==> self.cell_at(qy, qx) == (if y0 <= qy < yy
                        && x0 <= qx <= x1 {
                        NcCell {
                            channels: spec_grad_channels(
                                ul,
                                ur,
                                ll,
                                lr,
                                qy - y0,
                                qx - x0,
                                ylen as int,
                                xlen as int,
                            ),
                            ..old(self).cell_at(qy, qx)
                        }
                    } else {
                        old(self).cell_at(qy, qx)
                    }),
            decreases y1 + 1 - yy,
        {
            let mut xx: NcDim = x0;
            while xx <= x1
                invariant
                    self.wf(),
                    y0 <= yy <= y1,
                    y0 <= y1 < self.rows,
                    x0 <= xx <= x1 + 1,
                    x0 <= x1 < self.cols,
                    ylen == y1 - y0 + 1,
                    xlen == x1 - x0 + 1,
                    ylen * xlen <= u32::MAX,
                    *self == (NcPlane { cells: self.cells, ..*old(self) }),
                    self.cells@.len() == old(self).cells@.len(),
                    forall|qy: int, qx: int|
                        old(self).spec_on_plane(qy, qx) ==> self.cell_at(qy, qx) == (if (y0 <= qy
                            < yy && x0 <= qx <= x1) || (qy == yy && x0 <= qx < xx) {
                            NcCell {
                                channels: spec_grad_channels(
                                    ul,
                                    ur,
                                    ll,
                                    lr,
                                    qy - y0,
                                    qx - x0,
                                    ylen as int,
                                    xlen as int,
                                ),
                                ..old(self).cell_at(qy, qx)
                            }
                        } else {
                            old(self).cell_at(qy, qx)
                        }),
                decreases x1 + 1 - xx,
            {
                let ch = gradient_channels(
                    ul,
                    ur,
                    ll,
                    lr,
                    (yy - y0) as u64,
                    (xx - x0) as u64,
                    ylen as u64,
                    xlen as u64,
                );
                let i = self.index_of(yy, xx);
                let c = self.cells[i];
                self.set_cell(yy, xx, NcCell { channels: ch, ..c });
                xx = xx + 1;
            }
            yy = yy + 1;
        }
        let count: u64 = (ylen as u64) * (xlen as u64);
        proof {
            assert(count as int == (y1 + 1 - y0) * (x1 + 1 - x0)) by (nonlinear_arith)
                requires
                    count as int == (ylen as int) * (xlen as int),
                    ylen as int == y1 as int + 1 - y0 as int,
                    xlen as int == x1 as int + 1 - x0 as int,
            ;
        }
        Ok(count as u32)
    }

    /// Draws the gradient of the four corner channel pairs over the
    /// region from (`y`, `x`) (the cursor, per axis, for `None`) through
    /// the inclusive stop coordinates (the plane boundary for `None` or
    /// zero): every cell takes the first glyph of `egc`, the given
    /// styles, and its interpolated channels. Returns how many cells
    /// were filled.
    ///
    /// An empty `egc`, a region off the plane, corner channels that
    /// cannot be interpolated (see [`spec_grad_args_ok`]) or that do not
    /// fit the region's shape (see [`spec_grad_shape_ok`]) are errors.
    pub fn gradient(
        &mut self,
        y: Option<NcDim>,
        x: Option<NcDim>,
        y_stop: Option<NcDim>,
        x_stop: Option<NcDim>,
        egc: &str,
        stylemask: NcStyle,
        ul: NcChannels,
        ur: NcChannels,
        ll: NcChannels,
        lr: NcChannels,
    ) -> (r: NcResult<NcDim>)
        requires
            old(self).wf(),
        ensures
            final(self).wf(),
            r is Ok <==> ({
                let y0 = resolve_coord(y, old(self).cursor_y) as int;
                let x0 = resolve_coord(x, old(self).cursor_x) as int;
                let y1 = stop_coord(y_stop, old(self).rows);
                let x1 = stop_coord(x_stop, old(self).cols);
                &&& y0 <= y1 < old(self).rows
                &&& x0 <= x1 < old(self).cols
                &&& egc@.len() > 0
                &&& spec_grad_args_ok(ul, ur, ll, lr)
                &&& spec_grad_shape_ok(ul, ur, ll, lr, y1 + 1 - y0, x1 + 1 - x0)
            }),
            r is Err ==> *final(self) == *old(self),
            r is Ok ==> ({
                let y0 = resolve_coord(y, old(self).cursor_y) as int;
                let x0 = resolve_coord(x, old(self).cursor_x) as int;
                let y1 = stop_coord(y_stop, old(self).rows);
                let x1 = stop_coord(x_stop, old(self).cols);
                &&& *final(self) == (NcPlane { cells: final(self).cells, ..*old(self) })
                &&& final(self).cells@.len() == old(self).cells@.len()
                &&& forall|yy: int, xx: int|
                    old(self).spec_on_plane(yy, xx) ==> final(self).cell_at(yy, xx) == (if y0
                        <= yy <= y1 && x0 <= xx <= x1 {
                        NcCell {
                            gcluster: egc@[0],
                            stylemask,
                            channels: spec_grad_channels(
                                ul,
                                ur,
                                ll,
                                lr,
                                yy - y0,
                                xx - x0,
                                y1 + 1 - y0,
                                x1 + 1 - x0,
                            ),
                        }
                    } else {
                        old(self).cell_at(yy, xx)
                    })
                &&& r == Ok::<NcDim, NcError>((((y1 + 1 - y0) * (x1 + 1 - x0)) as u32))
            }),
    {
        let (y0, x0, y1, x1) = self.rect_region(y, x, y_stop, x_stop)?;
        if egc.unicode_len() == 0 {
            return Err(NcError::with_msg(NCRESULT_ERR, "empty glyph cluster"));
        }
        let g = egc.get_char(0);
        if !grad_args_ok(ul, ur, ll, lr) {
            return Err(NcError::with_msg(NCRESULT_ERR, "corner channels cannot blend"));
        }
        let ylen: NcDim = y1 - y0 + 1;
        let xlen: NcDim = x1 - x0 + 1;
        if ylen == 1 && xlen == 1 && !(ul == ur && ur == ll && ll == lr) {
            return Err(NcError::with_msg(NCRESULT_ERR, "a single cell takes a single color"));
        }
        if xlen == 1 && !(ul == ur && ll == lr) {
            return Err(NcError::with_msg(NCRESULT_ERR, "a single column blends vertically"));
        }
        if ylen == 1 && !(ul == ll && ur == lr) {
            return Err(NcError::with_msg(NCRESULT_ERR, "a single row blends horizontally"));
        }
        proof {
            assert((ylen as int) * (xlen as int) <= (self.rows as int) * (self.cols as int))
                by (nonlinear_arith)
                requires
                    0 <= y0 <= y1 < self.rows as int,
                    0 <= x0 <= x1 < self.cols as int,
                    ylen as int == y1 as int - y0 as int + 1,
                    xlen as int == x1 as int - x0 as int + 1,
            ;
        }
        let mut yy: NcDim = y0;
        while yy <= y1
            invariant
                self.wf(),
                y0 <= yy <= y1 + 1,
                y0 <= y1 < self.rows,
                x0 <= x1 < self.cols,
                ylen == y1 - y0 + 1,
                xlen == x1 - x0 + 1,
                ylen * xlen <= u32::MAX,
                g == egc@[0],
                *self == (NcPlane { cells: self.cells, ..*old(self) }),
                self.cells@.len() == old(self).cells@.len(),
                forall|qy: int, qx: int|
                    old(self).spec_on_plane(qy, qx) ==> self.cell_at(qy, qx) == (if y0 <= qy < yy
                        && x0 <= qx <= x1 {
                        NcCell {
                            gcluster: egc@[0],
                            stylemask,
                            channels: spec_grad_channels(
                                ul,
                                ur,
                                ll,
                                lr,
                                qy - y0,
                                qx - x0,
                                ylen as int,
                                xlen as int,
                            ),
                        }
                    } else {
                        old(self).cell_at(qy, qx)
                    }),
            decreases y1 + 1 - yy,
        {
            let mut xx: NcDim = x0;
            while xx <= x1
                invariant
                    self.wf(),
                    y0 <= yy <= y1,
                    y0 <= y1 < self.rows,
                    x0 <= xx <= x1 + 1,
                    x0 <= x1 < self.cols,
                    ylen == y1 - y0 + 1,
                    xlen == x1 - x0 + 1,
                    ylen * xlen <= u32::MAX,
                    g == egc@[0],
                    *self == (NcPlane { cells: self.cells, ..*old(self) }),
                    self.cells@.len() == old(self).cells@.len(),
                    forall|qy: int, qx: int|
                        old(self).spec_on_plane(qy, qx) ==> self.cell_at(qy, qx) == (if (y0 <= qy
                            < yy && x0 <= qx <= x1) || (qy == yy && x0 <= qx < xx) {
                            NcCell {
                                gcluster: egc@[0],
                                stylemask,
                                channels: spec_grad_channels(
                                    ul,
                                    ur,
                                    ll,
                                    lr,
                                    qy - y0,
                                    qx - x0,
                                    ylen as int,
                                    xlen as int,
                                ),
                            }
                        } else {
                            old(self).cell_at(qy, qx)
                        }),
                decreases x1 + 1 - xx,
            {
                let ch = gradient_channels(
                    ul,
                    ur,
                    ll,
                    lr,
                    (yy - y0) as u64,
                    (xx - x0) as u64,
                    ylen as u64,
                    xlen as u64,
                );
                self.set_cell(yy, xx, NcCell { gcluster: g, stylemask, channels: ch });
                xx = xx + 1;
            }
            yy = yy + 1;
        }
        let count: u64 = (ylen as u64) * (xlen as u64);
        proof {
            assert(count as int == (y1 + 1 - y0) * (x1 + 1 - x0)) by (nonlinear_arith)
                requires
                    count as int == (ylen as int) * (xlen as int),
                    ylen as int == y1 as int + 1 - y0 as int,
                    xlen as int == x1 as int + 1 - x0 as int,
            ;
        }
        Ok(count as u32)
    }
}

/// The upper-half-block glyph that doubled vertical gradients draw with.
pub open spec fn spec_half_block() -> char {
    '\u{2580}'
}

/// The channel pair of a cell in a doubled vertical gradient: the
/// foreground takes the color of the upper half-row, the background that
/// of the lower half-row, interpolated over twice the region's rows.
pub open spec fn spec_grad2x1_channels(
    ul: NcChannel,
    ur: NcChannel,
    ll: NcChannel,
    lr: NcChannel,
    y: int,
    x: int,
    ylen: int,
    xlen: int,
) -> NcChannels {
    spec_combine(
        spec_grad_channel(ul, ur, ll, lr, 2 * y, x, 2 * ylen, xlen),
        spec_grad_channel(ul, ur, ll, lr, 2 * y + 1, x, 2 * ylen, xlen),
    )
}

impl NcPlane {
    /// Draws a doubled vertical gradient over the region beginning at
    /// (`y`, `x`) (the cursor, per axis, for `None`) and running `len_y`
    /// by `len_x` cells (the rest of the plane for `None` or zero): each
    /// cell takes the upper-half-block glyph, no styles, and two
    /// interpolated colors, one per half-row. Returns how many cells
    /// were filled.
    ///
    /// A region off the plane is an error, as are corner channels that
    /// use the default color or a palette index or disagree on alpha,
    /// and unequal left or right colors in a single-column region.
    pub fn gradient2x1(
        &mut self,
        y: Option<NcDim>,
        x: Option<NcDim>,
        len_y: Option<NcDim>,
        len_x: Option<NcDim>,
        ul: NcChannel,
        ur: NcChannel,
        ll: NcChannel,
        lr: NcChannel,
    ) -> (r: NcResult<NcDim>)
        requires
            old(self).wf(),
        ensures
            final(self).wf(),
            r is Ok <==> ({
                let y0 = resolve_coord(y, old(self).cursor_y) as int;
                let x0 = resolve_coord(x, old(self).cursor_x) as int;
                let leny = resolve_len(len_y, y0, old(self).rows as int);
                let lenx = resolve_len(len_x, x0, old(self).cols as int);
                &&& y0 < old(self).rows
                &&& x0 < old(self).cols
                &&& y0 + leny <= old(self).rows
                &&& x0 + lenx <= old(self).cols
                &&& spec_grad_channel_args_ok(ul, ur, ll, lr)
                &&& !spec_channel_default_p(ul)
                &&& (lenx == 1 ==> ul == ur && ll == lr)
            }),
            r is Err ==> *final(self) == *old(self),
            r is Ok ==> ({
                let y0 = resolve_coord(y, old(self).cursor_y) as int;
                let x0 = resolve_coord(x, old(self).cursor_x) as int;
                let leny = resolve_len(len_y, y0, old(self).rows as int);
                let lenx = resolve_len(len_x, x0, old(self).cols as int);
                &&& *final(self) == (NcPlane { cells: final(self).cells, ..*old(self) })
                &&& final(self).cells@.len() == old(self).cells@.len()
                &&& forall|yy: int, xx: int|
                    old(self).spec_on_plane(yy, xx) ==> final(self).cell_at(yy, xx) == (if y0
                        <= yy < y0 + leny && x0 <= xx < x0 + lenx {
                        NcCell {
                            gcluster: spec_half_block(),
                            stylemask: 0u16,
                            channels: spec_grad2x1_channels(
                                ul,
                                ur,
                                ll,
                                lr,
                                yy - y0,
                                xx - x0,
                                leny,
                                lenx,
                            ),
                        }
                    } else {
                        old(self).cell_at(yy, xx)
                    })
                &&& r == Ok::<NcDim, NcError>(((leny * lenx) as u32))
            }),
    {
        let y0 = match y {
            Some(v) => v,
            None => self.cursor_y,
        };
        let x0 = match x {
            Some(v) => v,
            None => self.cursor_x,
        };
        if y0 >= self.rows || x0 >= self.cols {
            return Err(NcError::with_msg(NCRESULT_ERR, "region origin outside the plane"));
        }
        let leny: NcDim = match len_y {
            Some(v) => if v == 0 {
                self.rows - y0
            } else {
                v
            },
            None => self.rows - y0,
        };
        let lenx: NcDim = match len_x {
            Some(v) => if v == 0 {
                self.cols - x0
            } else {
                v
            },
            None => self.cols - x0,
        };
        if y0 as u64 + leny as u64 > self.rows as u64 || x0 as u64 + lenx as u64
            > self.cols as u64 {
            return Err(NcError::with_msg(NCRESULT_ERR, "region outside the plane"));
        }
        if !grad_channel_args_ok(ul, ur, ll, lr) || ncchannel_default_p(ul) {
            return Err(NcError::with_msg(NCRESULT_ERR, "corner channels cannot blend"));
        }
        if lenx == 1 && !(ul == ur && ll == lr) {
            return Err(NcError::with_msg(NCRESULT_ERR, "a single column blends vertically"));
        }
        proof {
            assert((leny as int) * (lenx as int) <= (self.rows as int) * (self.cols as int))
                by (nonlinear_arith)
                requires
                    1 <= leny as int,
                    1 <= lenx as int,
                    y0 as int + leny as int <= self.rows as int,
                    x0 as int + lenx as int <= self.cols as int,
                    y0 >= 0,
                    x0 >= 0,
            ;
        }
        let mut dy: NcDim = 0;
        while dy < leny
            invariant
                self.wf(),
                dy <= leny,
                y0 + leny <= self.rows,
                x0 + lenx <= self.cols,
                leny >= 1,
                lenx >= 1,
                (leny as int) * (lenx as int) <= u32::MAX,
                *self == (NcPlane { cells: self.cells, ..*old(self) }),
                self.cells@.len() == old(self).cells@.len(),
                forall|qy: int, qx: int|
                    old(self).spec_on_plane(qy, qx) ==> self.cell_at(qy, qx) == (if y0 <= qy < y0
                        + dy && x0 <= qx < x0 + lenx {
                        NcCell {
                            gcluster: spec_half_block(),
                            stylemask: 0u16,
                            channels: spec_grad2x1_channels(
                                ul,
                                ur,
                                ll,
                                lr,
                                qy - y0,
                                qx - x0,
                                leny as int,
                                lenx as int,
                            ),
                        }
                    } else {
                        old(self).cell_at(qy, qx)
                    }),
            decreases leny - dy,
        {
            let mut dx: NcDim = 0;
            while dx < lenx
                invariant
                    self.wf(),
                    dy < leny,
                    dx <= lenx,
                    y0 + leny <= self.rows,
                    x0 + lenx <= self.cols,
                    leny >= 1,
                    lenx >= 1,
                    (leny as int) * (lenx as int) <= u32::MAX,
                    *self == (NcPlane { cells: self.cells, ..*old(self) }),
                    self.cells@.len() == old(self).cells@.len(),
                    forall|qy: int, qx: int|
                        old(self).spec_on_plane(qy, qx) ==> self.cell_at(qy, qx) == (if (y0 <= qy
                            < y0 + dy && x0 <= qx < x0 + lenx) || (qy == y0 + dy && x0 <= qx < x0
                            + dx) {
                            NcCell {
                                gcluster: spec_half_block(),
                                stylemask: 0u16,
                                channels: spec_grad2x1_channels(
                                    ul,
                                    ur,
                                    ll,
                                    lr,
                                    qy - y0,
                                    qx - x0,
                                    leny as int,
                                    lenx as int,
                                ),
                            }
                        } else {
                            old(self).cell_at(qy, qx)
                        }),
                decreases lenx - dx,
            {
                proof {
                    assert((2 * (leny as int)) * (lenx as int) <= 0x2_0000_0000)
                        by (nonlinear_arith)
                        requires
                            (leny as int) * (lenx as int) <= 0xffff_ffff,
                    ;
                }
                let up = gradient_channel(
                    ul,
                    ur,
                    ll,
                    lr,
                    2 * (dy as u64),
                    dx as u64,
                    2 * (leny as u64),
                    lenx as u64,
                );
                let down = gradient_channel(
                    ul,
                    ur,
                    ll,
                    lr,
                    2 * (dy as u64) + 1,
                    dx as u64,
                    2 * (leny as u64),
                    lenx as u64,
                );
                let ch = ncchannels_combine(up, down);
                self.set_cell(
                    y0 + dy,
                    x0 + dx,
                    NcCell { gcluster: '\u{2580}', stylemask: 0, channels: ch },
                );
                dx = dx + 1;
            }
            dy = dy + 1;
        }
        let count: u64 = (leny as u64) * (lenx as u64);
        Ok(count as u32)
    }
}

/// What a source cell lays onto a destination cell in a merge: an
/// undrawn source cell leaves the destination cell as it is, and a drawn
/// one replaces it.
pub open spec fn merged_cell(src: NcCell, dst: NcCell) -> NcCell {
    if src.spec_undrawn() {
        dst
    } else {
        src
    }
}

/// The length a merge or dump argument names along one axis: the rest of
/// the axis from the origin on, for `None` or zero.
pub open spec fn resolve_len(l: Option<NcDim>, o: int, d: int) -> int {
    match l {
        Some(v) => if v == 0 {
            d - o
        } else {
            v as int
        },
        None => d - o,
    }
}

impl NcPlane {
    /// Merges a subregion of `source` down onto this plane: each
    /// destination cell in the projected region becomes what a render
    /// would show were the stack only the source region above it (see
    /// [`merged_cell`]). The source region begins at (`beg_src_y`,
    /// `beg_src_x`) (the source cursor, per axis, for `None`) and runs
    /// `len_y` by `len_x` cells (the rest of the source for `None` or
    /// zero); it lands at (`dst_y`, `dst_x`) (this plane's cursor, per
    /// axis, for `None`). A source region not contained in the source,
    /// or a projected region not contained in this plane, is an error.
    pub fn mergedown(
        &mut self,
        source: &NcPlane,
        beg_src_y: Option<NcDim>,
        beg_src_x: Option<NcDim>,
        len_y: Option<NcDim>,
        len_x: Option<NcDim>,
        dst_y: Option<NcDim>,
        dst_x: Option<NcDim>,
    ) -> (r: NcResult<()>)
        requires
            old(self).wf(),
            source.wf(),
        ensures
            final(self).wf(),
            r is Ok <==> ({
                let sy0 = resolve_coord(beg_src_y, source.cursor_y) as int;
                let sx0 = resolve_coord(beg_src_x, source.cursor_x) as int;
                let leny = resolve_len(len_y, sy0, source.rows as int);
                let lenx = resolve_len(len_x, sx0, source.cols as int);
                let dy0 = resolve_coord(dst_y, old(self).cursor_y) as int;
                let dx0 = resolve_coord(dst_x, old(self).cursor_x) as int;
                &&& sy0 < source.rows
                &&& sx0 < source.cols
                &&& sy0 + leny <= source.rows
                &&& sx0 + lenx <= source.cols
                &&& dy0 < old(self).rows
                &&& dx0 < old(self).cols
                &&& dy0 + leny <= old(self).rows
                &&& dx0 + lenx <= old(self).cols
            }),
            r is Err ==> *final(self) == *old(self),
            r is Ok ==> ({
                let sy0 = resolve_coord(beg_src_y, source.cursor_y) as int;
                let sx0 = resolve_coord(beg_src_x, source.cursor_x) as int;
                let leny = resolve_len(len_y, sy0, source.rows as int);
                let lenx = resolve_len(len_x, sx0, source.cols as int);
                let dy0 = resolve_coord(dst_y, old(self).cursor_y) as int;
                let dx0 = resolve_coord(dst_x, old(self).cursor_x) as int;
                &&& *final(self) == (NcPlane { cells: final(self).cells, ..*old(self) })
                &&& final(self).cells@.len() == old(self).cells@.len()
                &&& forall|yy: int, xx: int|
                    old(self).spec_on_plane(yy, xx) ==> final(self).cell_at(yy, xx) == (if dy0
                        <= yy < dy0 + leny && dx0 <= xx < dx0 + lenx {
                        merged_cell(
                            source.cell_at(sy0 + (yy - dy0), sx0 + (xx - dx0)),
                            old(self).cell_at(yy, xx),
                        )
                    } else {
                        old(self).cell_at(yy, xx)
                    })
            }),
    {
        let sy0 = match beg_src_y {
            Some(v) => v,
            None => source.cursor_y,
        };
        let sx0 = match beg_src_x {
            Some(v) => v,
            None => source.cursor_x,
        };
        if sy0 >= source.rows || sx0 >= source.cols {
            return Err(NcError::with_msg(NCRESULT_ERR, "source origin outside the source"));
        }
        let leny: NcDim = match len_y {
            Some(v) => if v == 0 {
                source.rows - sy0
            } else {
                v
            },
            None => source.rows - sy0,
        };
        let lenx: NcDim = match len_x {
            Some(v) => if v == 0 {
                source.cols - sx0
            } else {
                v
            },
            None => source.cols - sx0,
        };
        if sy0 as u64 + leny as u64 > source.rows as u64 || sx0 as u64 + lenx as u64
            > source.cols as u64 {
            return Err(NcError::with_msg(NCRESULT_ERR, "source region outside the source"));
        }
        let dy0 = match dst_y {
            Some(v) => v,
            None => self.cursor_y,
        };
        let dx0 = match dst_x {
            Some(v) => v,
            None => self.cursor_x,
        };
        if dy0 >= self.rows || dx0 >= self.cols {
            return Err(NcError::with_msg(NCRESULT_ERR, "target origin outside the plane"));
        }
        if dy0 as u64 + leny as u64 > self.rows as u64 || dx0 as u64 + lenx as u64
            > self.cols as u64 {
            return Err(NcError::with_msg(NCRESULT_ERR, "projected region outside the plane"));
        }
        let mut dy: NcDim = 0;
        while dy < leny
            invariant
                self.wf(),
                source.wf(),
                dy <= leny,
                sy0 + leny <= source.rows,
                sx0 + lenx <= source.cols,
                dy0 + leny <= self.rows,
                dx0 + lenx <= self.cols,
                leny >= 1,
                lenx >= 1,
                *self == (NcPlane { cells: self.cells, ..*old(self) }),
                self.cells@.len() == old(self).cells@.len(),
                forall|qy: int, qx: int|
                    old(self).spec_on_plane(qy, qx) ==> self.cell_at(qy, qx) == (if dy0 <= qy
                        < dy0 + dy && dx0 <= qx < dx0 + lenx {
                        merged_cell(
                            source.cell_at(sy0 + (qy - dy0), sx0 + (qx - dx0)),
                            old(self).cell_at(qy, qx),
                        )
                    } else {
                        old(self).cell_at(qy, qx)
                    }),
            decreases leny - dy,
        {
            let mut dx: NcDim = 0;
            while dx < lenx
                invariant
                    self.wf(),
                    source.wf(),
                    dy < leny,
                    dx <= lenx,
                    sy0 + leny <= source.rows,
                    sx0 + lenx <= source.cols,
                    dy0 + leny <= self.rows,
                    dx0 + lenx <= self.cols,
                    leny >= 1,
                    lenx >= 1,
                    *self == (NcPlane { cells: self.cells, ..*old(self) }),
                    self.cells@.len() == old(self).cells@.len(),
                    forall|qy: int, qx: int|
                        old(self).spec_on_plane(qy, qx) ==> self.cell_at(qy, qx) == (if (dy0 <= qy
                            < dy0 + dy && dx0 <= qx < dx0 + lenx) || (qy == dy0 + dy && dx0 <= qx
                            < dx0 + dx) {
                            merged_cell(
                                source.cell_at(sy0 + (qy - dy0), sx0 + (qx - dx0)),
                                old(self).cell_at(qy, qx),
                            )
                        } else {
                            old(self).cell_at(qy, qx)
                        }),
                decreases lenx - dx,
            {
                let si = source.index_of(sy0 + dy, sx0 + dx);
                let sc = source.cells[si];
                let di = self.index_of(dy0 + dy, dx0 + dx);
                let dc = self.cells[di];
                let m: NcCell = if sc.undrawn() {
                    dc
                } else {
                    sc
                };
                self.set_cell(dy0 + dy, dx0 + dx, m);
                dx = dx + 1;
            }
            dy = dy + 1;
        }
        Ok(())
    }

    /// Merges all of `source` down onto this plane, the two laid out at
    /// their origins in the coordinate frame they share. Where the
    /// rectangles overlap, each destination cell becomes what a render
    /// would show were the stack only the source above it (see
    /// [`merged_cell`]); where they do not intersect at all, the plane
    /// is left unchanged, and that is not an error.
    pub fn mergedown_simple(&mut self, source: &NcPlane) -> (r: NcResult<()>)
        requires
            old(self).wf(),
            source.wf(),
        ensures
            final(self).wf(),
            r is Ok,
            *final(self) == (NcPlane { cells: final(self).cells, ..*old(self) }),
            final(self).cells@.len() == old(self).cells@.len(),
            forall|yy: int, xx: int|
                old(self).spec_on_plane(yy, xx) ==> final(self).cell_at(yy, xx) == (if source.y
                    <= old(self).y + yy < source.y + source.rows && source.x <= old(self).x + xx
                    < source.x + source.cols {
                    merged_cell(
                        source.cell_at(
                            old(self).y + yy - source.y,
                            old(self).x + xx - source.x,
                        ),
                        old(self).cell_at(yy, xx),
                    )
                } else {
                    old(self).cell_at(yy, xx)
                }),
            (source.y + source.rows <= old(self).y || old(self).y + old(self).rows <= source.y
                || source.x + source.cols <= old(self).x || old(self).x + old(self).cols
                <= source.x) ==> *final(self) == *old(self),
    {
        let src_y0: i64 = source.y as i64;
        let own_y0: i64 = self.y as i64;
        let y_lo64: i64 = if src_y0 > own_y0 {
            src_y0
        } else {
            own_y0
        };
        let src_y_end: i64 = source.y as i64 + source.rows as i64;
        let own_y_end: i64 = self.y as i64 + self.rows as i64;
        let y_hi64: i64 = if src_y_end < own_y_end {
            src_y_end
        } else {
            own_y_end
        };
        let src_x0: i64 = source.x as i64;
        let own_x0: i64 = self.x as i64;
        let x_lo64: i64 = if src_x0 > own_x0 {
            src_x0
        } else {
            own_x0
        };
        let src_x_end: i64 = source.x as i64 + source.cols as i64;
        let own_x_end: i64 = self.x as i64 + self.cols as i64;
        let x_hi64: i64 = if src_x_end < own_x_end {
            src_x_end
        } else {
            own_x_end
        };
        if y_hi64 <= y_lo64 || x_hi64 <= x_lo64 {
            return Ok(());
        }
        let dy_lo: NcDim = (y_lo64 - self.y as i64) as u32;
        let dy_hi: NcDim = (y_hi64 - self.y as i64) as u32;
        let dx_lo: NcDim = (x_lo64 - self.x as i64) as u32;
        let dx_hi: NcDim = (x_hi64 - self.x as i64) as u32;
        let mut dy: NcDim = dy_lo;
        while dy < dy_hi
            invariant
                self.wf(),
                source.wf(),
                dy_lo <= dy <= dy_hi,
                dy_hi <= self.rows,
                dx_lo < dx_hi <= self.cols,
                dy_lo as int == (if source.y > old(self).y {
                    source.y - old(self).y
                } else {
                    0
                }),
                dx_lo as int == (if source.x > old(self).x {
                    source.x - old(self).x
                } else {
                    0
                }),
                dy_hi as int == (if source.y + source.rows < old(self).y + old(self).rows {
                    source.y + source.rows - old(self).y
                } else {
                    old(self).rows as int
                }),
                dx_hi as int == (if source.x + source.cols < old(self).x + old(self).cols {
                    source.x + source.cols - old(self).x
                } else {
                    old(self).cols as int
                }),
                *self == (NcPlane { cells: self.cells, ..*old(self) }),
                self.cells@.len() == old(self).cells@.len(),
                forall|qy: int, qx: int|
                    old(self).spec_on_plane(qy, qx) ==> self.cell_at(qy, qx) == (if dy_lo <= qy
                        < dy && dx_lo <= qx < dx_hi {
                        merged_cell(
                            source.cell_at(
                                old(self).y + qy - source.y,
                                old(self).x + qx - source.x,
                            ),
                            old(self).cell_at(qy, qx),
                        )
                    } else {
                        old(self).cell_at(qy, qx)
                    }),
            decreases dy_hi - dy,
        {
            let mut dx: NcDim = dx_lo;
            while dx < dx_hi
                invariant
                    self.wf(),
                    source.wf(),
                    dy_lo <= dy < dy_hi,
                    dy_hi <= self.rows,
                    dx_lo <= dx <= dx_hi,
                    dx_hi <= self.cols,
                    dy_lo as int == (if source.y > old(self).y {
                        source.y - old(self).y
                    } else {
                        0
                    }),
                    dx_lo as int == (if source.x > old(self).x {
                        source.x - old(self).x
                    } else {
                        0
                    }),
                    dy_hi as int == (if source.y + source.rows < old(self).y + old(self).rows {
                        source.y + source.rows - old(self).y
                    } else {
                        old(self).rows as int
                    }),
                    dx_hi as int == (if source.x + source.cols < old(self).x + old(self).cols {
                        source.x + source.cols - old(self).x
                    } else {
                        old(self).cols as int
                    }),
                    *self == (NcPlane { cells: self.cells, ..*old(self) }),
                    self.cells@.len() == old(self).cells@.len(),
                    forall|qy: int, qx: int|
                        old(self).spec_on_plane(qy, qx) ==> self.cell_at(qy, qx) == (if (dy_lo
                            <= qy < dy && dx_lo <= qx < dx_hi) || (qy == dy && dx_lo <= qx < dx) {
                            merged_cell(
                                source.cell_at(
                                    old(self).y + qy - source.y,
                                    old(self).x + qx - source.x,
                                ),
                                old(self).cell_at(qy, qx),
                            )
                        } else {
                            old(self).cell_at(qy, qx)
                        }),
                decreases dx_hi - dx,
            {
                let sy64: i64 = self.y as i64 + dy as i64 - source.y as i64;
                let sx64: i64 = self.x as i64 + dx as i64 - source.x as i64;
                let si = source.index_of(sy64 as u32, sx64 as u32);
                let sc = source.cells[si];
                let di = self.index_of(dy, dx);
                let dc = self.cells[di];
                let m: NcCell = if sc.undrawn() {
                    dc
                } else {
                    sc
                };
                self.set_cell(dy, dx, m);
                dx = dx + 1;
            }
            dy = dy + 1;
        }
        Ok(())
    }
}

} // verus!
