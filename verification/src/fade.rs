//! The arithmetic of fades and pulses.
//!
//! A fade is a caller-driven loop: at each iteration the embedding code
//! recolors the content and renders. The color of iteration `iter` out
//! of `total` is computed here: every RGB component scaled by
//! `iter / total`, so iteration 0 is black and iteration `total` the
//! full color. Fading in walks `iter` up, fading out walks it down, and
//! a pulse walks it up and down until the caller stops. Channels that
//! use the terminal's default color or a palette index have no RGB to
//! scale and pass through unchanged.

use vstd::prelude::*;
use crate::channel::{
    ncchannel_default_p, ncchannel_palindex_p, ncchannel_rgb8, ncchannels_bchannel,
    ncchannels_combine, ncchannels_fchannel, spec_bchannel, spec_channel_default_p,
    spec_channel_palindex_p, spec_combine, spec_fchannel, NC_BG_RGB_MASK,
};
use crate::types::{NcChannel, NcChannels};

verus! {

/// One color component scaled to step `iter` of `total`.
pub open spec fn spec_faded_comp(c: int, iter: int, total: int) -> int {
    c * iter / total
}

/// A channel scaled to step `iter` of `total`: RGB components scaled,
/// everything else (alpha, marks) kept; default-colored and
/// palette-indexed channels pass through unchanged.
pub open spec fn spec_faded_channel(c: NcChannel, iter: int, total: int) -> NcChannel {
    if spec_channel_default_p(c) || spec_channel_palindex_p(c) {
        c
    } else {
        ((c & !NC_BG_RGB_MASK) | ((spec_faded_comp(((c >> 16) & 0xff) as int, iter, total) as u32)
            << 16) | ((spec_faded_comp(((c >> 8) & 0xff) as int, iter, total) as u32) << 8) | (
        spec_faded_comp((c & 0xff) as int, iter, total) as u32)) as u32
    }
}

/// A channel pair scaled to step `iter` of `total`, each half on its own.
pub open spec fn spec_faded_channels(ch: NcChannels, iter: int, total: int) -> NcChannels {
    spec_combine(
        spec_faded_channel(spec_fchannel(ch), iter, total),
        spec_faded_channel(spec_bchannel(ch), iter, total),
    )
}

/// A scaled component stays a component.
proof fn lemma_faded_comp_bounds(c: int, iter: int, total: int)
    requires
        0 <= c <= 255,
        0 <= iter <= total,
        total >= 1,
    ensures
        0 <= spec_faded_comp(c, iter, total) <= c,
{
    assert(0 <= c * iter / total <= c) by (nonlinear_arith)
        requires
            0 <= c <= 255,
            0 <= iter <= total,
            total >= 1,
    ;
}

/// One channel scaled to step `iter` of a fade of `total` steps.
pub fn faded_channel(c: NcChannel, iter: u32, total: u32) -> (r: NcChannel)
    requires
        iter <= total,
        total >= 1,
    ensures
        r == spec_faded_channel(c, iter as int, total as int),
{
    if ncchannel_default_p(c) || ncchannel_palindex_p(c) {
        return c;
    }
    let (cr, cg, cb) = ncchannel_rgb8(c);
    proof {
        assert((c >> 16) & 0xff <= 0xff) by (bit_vector);
        assert((c >> 8) & 0xff <= 0xff) by (bit_vector);
        assert(c & 0xff <= 0xff) by (bit_vector);
        lemma_faded_comp_bounds(cr as int, iter as int, total as int);
        lemma_faded_comp_bounds(cg as int, iter as int, total as int);
        lemma_faded_comp_bounds(cb as int, iter as int, total as int);
        assert((cr as int) * (iter as int) <= 255 * 0xffff_ffff && (cg as int) * (iter as int)
            <= 255 * 0xffff_ffff && (cb as int) * (iter as int) <= 255 * 0xffff_ffff)
            by (nonlinear_arith)
            requires
                cr <= 255,
                cg <= 255,
                cb <= 255,
                0 <= iter as int <= 0xffff_ffff,
        ;
    }
    let fr: u64 = (cr as u64) * (iter as u64) / (total as u64);
    let fg: u64 = (cg as u64) * (iter as u64) / (total as u64);
    let fb: u64 = (cb as u64) * (iter as u64) / (total as u64);
    (c & !NC_BG_RGB_MASK) | ((fr as u32) << 16) | ((fg as u32) << 8) | (fb as u32)
}

/// A channel pair scaled to step `iter` of a fade of `total` steps: the
/// color the embedding code paints with at that iteration of a fade-in
/// (or, walking `iter` downward, of a fade-out or the falling half of a
/// pulse).
pub fn faded_channels(ch: NcChannels, iter: u32, total: u32) -> (r: NcChannels)
    requires
        iter <= total,
        total >= 1,
    ensures
        r == spec_faded_channels(ch, iter as int, total as int),
{
    let f = faded_channel(ncchannels_fchannel(ch), iter, total);
    let b = faded_channel(ncchannels_bchannel(ch), iter, total);
    ncchannels_combine(f, b)
}

} // verus!
