//! Color channels.
//!
//! A channel packs one color into 32 bits: the low 24 bits hold either an
//! RGB value or a palette index, two bits hold the alpha level, one bit
//! marks palette-indexed color, and one bit marks that the channel does
//! *not* use the terminal's default color. A channel pair packs the
//! foreground channel into the high word and the background channel into
//! the low word of 64 bits.

use vstd::prelude::*;
use crate::result::{NcError, NcResult, NCRESULT_ERR};
use crate::types::{NcAlpha, NcChannel, NcChannels, NcComponent, NcPaletteIndex, NcRgb};

verus! {

/// Set when the channel does *not* use the terminal's default color.
pub const NC_BGDEFAULT_MASK: u32 = 0x4000_0000;

/// Set when the channel holds a palette index instead of RGB.
pub const NC_BG_PALETTE: u32 = 0x0800_0000;

/// The two alpha bits of a channel.
pub const NC_BG_ALPHA_MASK: u32 = 0x3000_0000;

/// The 24 RGB bits of a channel.
pub const NC_BG_RGB_MASK: u32 = 0x00ff_ffff;

/// Fully opaque.
pub const NCALPHA_OPAQUE: u32 = 0x0000_0000;

/// Blended with what lies below.
pub const NCALPHA_BLEND: u32 = 0x1000_0000;

/// Fully transparent.
pub const NCALPHA_TRANSPARENT: u32 = 0x2000_0000;

/// Forced to contrast with what lies below.
pub const NCALPHA_HIGHCONTRAST: u32 = 0x3000_0000;

/// The alpha bits of a channel.
pub open spec fn spec_channel_alpha(c: NcChannel) -> NcAlpha {
    c & NC_BG_ALPHA_MASK
}

/// Whether a channel uses the terminal's default color.
pub open spec fn spec_channel_default_p(c: NcChannel) -> bool {
    c & NC_BGDEFAULT_MASK == 0
}

/// Whether a channel holds a palette index.
pub open spec fn spec_channel_palindex_p(c: NcChannel) -> bool {
    c & NC_BG_PALETTE != 0
}

/// The 24 RGB bits of a channel.
pub open spec fn spec_channel_rgb(c: NcChannel) -> NcRgb {
    c & NC_BG_RGB_MASK
}

/// A channel with its RGB bits set to `r`, `g`, `b`, marked as RGB (not
/// palette-indexed) and as not using the default color; alpha is kept.
pub open spec fn spec_channel_with_rgb8(
    c: NcChannel,
    r: NcComponent,
    g: NcComponent,
    b: NcComponent,
) -> NcChannel {
    (c & !(NC_BG_RGB_MASK | NC_BG_PALETTE)) | NC_BGDEFAULT_MASK | ((r as u32) << 16) | (
    (g as u32) << 8) | (b as u32)
}

/// A channel with its RGB bits set from the low 24 bits of `rgb`, marked as
/// RGB and as not using the default color; alpha is kept.
pub open spec fn spec_channel_with_rgb(c: NcChannel, rgb: NcRgb) -> NcChannel {
    (c & !(NC_BG_RGB_MASK | NC_BG_PALETTE)) | NC_BGDEFAULT_MASK | (rgb & NC_BG_RGB_MASK)
}

/// A channel holding palette index `idx`, marked palette-indexed and not
/// default; alpha is kept.
pub open spec fn spec_channel_with_palindex(c: NcChannel, idx: NcPaletteIndex) -> NcChannel {
    (c & NC_BG_ALPHA_MASK) | NC_BGDEFAULT_MASK | NC_BG_PALETTE | (idx as u32)
}

/// A channel reset to the terminal's default color: the not-default mark,
/// the alpha bits and the palette mark are all cleared.
pub open spec fn spec_channel_defaulted(c: NcChannel) -> NcChannel {
    c & !(NC_BGDEFAULT_MASK | NC_BG_ALPHA_MASK | NC_BG_PALETTE)
}

/// A channel with its alpha bits replaced by `alpha`; any level but
/// opaque also marks the channel as not using the default color.
pub open spec fn spec_channel_with_alpha(c: NcChannel, alpha: NcAlpha) -> NcChannel {
    if alpha == NCALPHA_OPAQUE {
        (c & !NC_BG_ALPHA_MASK) | alpha
    } else {
        (c & !NC_BG_ALPHA_MASK) | alpha | NC_BGDEFAULT_MASK
    }
}

/// The foreground channel of a pair.
pub open spec fn spec_fchannel(ch: NcChannels) -> NcChannel {
    ((ch >> 32) & 0xffff_ffff) as u32
}

/// The background channel of a pair.
pub open spec fn spec_bchannel(ch: NcChannels) -> NcChannel {
    (ch & 0xffff_ffff) as u32
}

/// A pair made of foreground `f` and background `b`.
pub open spec fn spec_combine(f: NcChannel, b: NcChannel) -> NcChannels {
    ((f as u64) << 32) | (b as u64)
}

/// The alpha bits of a channel.
pub fn ncchannel_alpha(c: NcChannel) -> (a: NcAlpha)
    ensures
        a == spec_channel_alpha(c),
{
    c & NC_BG_ALPHA_MASK
}

/// Sets the alpha bits of a channel; any other bit in `alpha` is an error.
/// Any level but opaque also marks the channel as not using the default
/// color.
pub fn ncchannel_set_alpha(c: NcChannel, alpha: NcAlpha) -> (r: NcResult<NcChannel>)
    ensures
        r is Ok <==> alpha & !NC_BG_ALPHA_MASK == 0,
        alpha & !NC_BG_ALPHA_MASK == 0 ==> r == Ok::<NcChannel, NcError>(
            spec_channel_with_alpha(c, alpha),
        ),
{
    if alpha & !NC_BG_ALPHA_MASK != 0 {
        return Err(NcError::with_msg(NCRESULT_ERR, "invalid alpha"));
    }
    let set: NcChannel = (c & !NC_BG_ALPHA_MASK) | alpha;
    if alpha != NCALPHA_OPAQUE {
        Ok(set | NC_BGDEFAULT_MASK)
    } else {
        Ok(set)
    }
}

/// Whether a channel uses the terminal's default color.
pub fn ncchannel_default_p(c: NcChannel) -> (d: bool)
    ensures
        d == spec_channel_default_p(c),
{
    c & NC_BGDEFAULT_MASK == 0
}

/// Resets a channel to the terminal's default color.
pub fn ncchannel_set_default(c: NcChannel) -> (r: NcChannel)
    ensures
        r == spec_channel_defaulted(c),
{
    c & !(NC_BGDEFAULT_MASK | NC_BG_ALPHA_MASK | NC_BG_PALETTE)
}

/// Marks a channel as not using the terminal's default color.
pub fn ncchannel_set_not_default(c: NcChannel) -> (r: NcChannel)
    ensures
        r == c | NC_BGDEFAULT_MASK,
{
    c | NC_BGDEFAULT_MASK
}

/// Whether a channel holds a palette index.
pub fn ncchannel_palindex_p(c: NcChannel) -> (p: bool)
    ensures
        p == spec_channel_palindex_p(c),
{
    c & NC_BG_PALETTE != 0
}

/// The palette index held in the low bits of a channel.
pub fn ncchannel_palindex(c: NcChannel) -> (idx: NcPaletteIndex)
    ensures
        idx == (c & 0xff) as u8,
{
    (c & 0xff) as u8
}

/// Sets a channel to palette index `idx`.
pub fn ncchannel_set_palindex(c: NcChannel, idx: NcPaletteIndex) -> (r: NcChannel)
    ensures
        r == spec_channel_with_palindex(c, idx),
{
    (c & NC_BG_ALPHA_MASK) | NC_BGDEFAULT_MASK | NC_BG_PALETTE | (idx as u32)
}

/// The 24 RGB bits of a channel.
pub fn ncchannel_rgb(c: NcChannel) -> (rgb: NcRgb)
    ensures
        rgb == spec_channel_rgb(c),
{
    c & NC_BG_RGB_MASK
}

/// The red, green and blue components of a channel.
pub fn ncchannel_rgb8(c: NcChannel) -> (rgb: (NcComponent, NcComponent, NcComponent))
    ensures
        rgb.0 == ((c >> 16) & 0xff) as u8,
        rgb.1 == ((c >> 8) & 0xff) as u8,
        rgb.2 == (c & 0xff) as u8,
{
    (((c >> 16) & 0xff) as u8, ((c >> 8) & 0xff) as u8, (c & 0xff) as u8)
}

/// Sets the RGB components of a channel, marking it RGB and not default.
pub fn ncchannel_set_rgb8(
    c: NcChannel,
    r: NcComponent,
    g: NcComponent,
    b: NcComponent,
) -> (res: NcChannel)
    ensures
        res == spec_channel_with_rgb8(c, r, g, b),
{
    (c & !(NC_BG_RGB_MASK | NC_BG_PALETTE)) | NC_BGDEFAULT_MASK | ((r as u32) << 16) | (
    (g as u32) << 8) | (b as u32)
}

/// Sets the RGB bits of a channel from the low 24 bits of `rgb`, marking it
/// RGB and not default.
pub fn ncchannel_set(c: NcChannel, rgb: NcRgb) -> (res: NcChannel)
    ensures
        res == spec_channel_with_rgb(c, rgb),
{
    (c & !(NC_BG_RGB_MASK | NC_BG_PALETTE)) | NC_BGDEFAULT_MASK | (rgb & NC_BG_RGB_MASK)
}

/// The foreground channel of a pair.
pub fn ncchannels_fchannel(ch: NcChannels) -> (f: NcChannel)
    ensures
        f == spec_fchannel(ch),
{
    ((ch >> 32) & 0xffff_ffff) as u32
}

/// The background channel of a pair.
pub fn ncchannels_bchannel(ch: NcChannels) -> (b: NcChannel)
    ensures
        b == spec_bchannel(ch),
{
    (ch & 0xffff_ffff) as u32
}

/// Combines a foreground and a background channel into a pair.
pub fn ncchannels_combine(f: NcChannel, b: NcChannel) -> (ch: NcChannels)
    ensures
        ch == spec_combine(f, b),
{
    ((f as u64) << 32) | (b as u64)
}

/// Replaces the foreground channel of a pair.
pub fn ncchannels_set_fchannel(ch: NcChannels, f: NcChannel) -> (r: NcChannels)
    ensures
        r == spec_combine(f, spec_bchannel(ch)),
{
    ncchannels_combine(f, ncchannels_bchannel(ch))
}

/// Replaces the background channel of a pair.
pub fn ncchannels_set_bchannel(ch: NcChannels, b: NcChannel) -> (r: NcChannels)
    ensures
        r == spec_combine(spec_fchannel(ch), b),
{
    ncchannels_combine(ncchannels_fchannel(ch), b)
}

/// A channel pair read back splits into the channels it was combined from.
pub proof fn lemma_combine_splits(f: NcChannel, b: NcChannel)
    ensures
        spec_fchannel(spec_combine(f, b)) == f,
        spec_bchannel(spec_combine(f, b)) == b,
{
    assert((((((f as u64) << 32) | (b as u64)) >> 32) & 0xffff_ffff) as u32 == f)
        by (bit_vector);
    assert(((((f as u64) << 32) | (b as u64)) & 0xffff_ffff) as u32 == b) by (bit_vector);
}

} // verus!
