//! Plain integer types of the cell model, alignment, and style bits.

use vstd::prelude::*;
use crate::result::{NcError, NcResult, NCRESULT_MAX};

verus! {

/// A dimension: a count of rows or columns.
pub type NcDim = u32;

/// A signed offset of rows or columns.
pub type NcOffset = i32;

/// One 8-bit component of an RGB color.
pub type NcComponent = u8;

/// An index into a 256-entry palette.
pub type NcPaletteIndex = u8;

/// A 24-bit RGB value in the low bits of a word.
pub type NcRgb = u32;

/// One color channel: RGB or palette index plus alpha and marker bits.
pub type NcChannel = u32;

/// A pair of channels: foreground in the high word, background in the low.
pub type NcChannels = u64;

/// A bitmask of text styles.
pub type NcStyle = u16;

/// An alpha level, held in the two alpha bits of a channel.
pub type NcAlpha = u32;

/// Option bits for opening a direct-mode session.
pub type NcDirectFlags = u64;

/// Control bits for box drawing: which sides to skip, and gradient bits.
pub type NcBoxMask = u32;

/// No style bits set.
pub const NCSTYLE_NONE: NcStyle = 0x0000;

/// Struck-through text.
pub const NCSTYLE_STRUCK: NcStyle = 0x0001;

/// Bold text.
pub const NCSTYLE_BOLD: NcStyle = 0x0002;

/// Undercurled text.
pub const NCSTYLE_UNDERCURL: NcStyle = 0x0004;

/// Underlined text.
pub const NCSTYLE_UNDERLINE: NcStyle = 0x0008;

/// Italic text.
pub const NCSTYLE_ITALIC: NcStyle = 0x0010;

/// All style bits.
pub const NCSTYLE_MASK: NcStyle = 0xffff;

/// The smaller of two extents.
pub open spec fn dim_min(a: int, b: int) -> int {
    if a < b {
        a
    } else {
        b
    }
}

/// Horizontal or vertical alignment within a span of cells.
#[derive(Clone, Copy, PartialEq, Eq, Structural, Debug)]
pub enum NcAlign {
    /// No alignment: an invalid argument to every placement call.
    Unaligned,
    /// Flush with the left (or top) edge.
    Left,
    /// Centered, preferring the left (or top) on an odd remainder.
    Center,
    /// Flush with the right (or bottom) edge.
    Right,
}

/// The cell at which `len` cells ought start in order to sit `align`ed
/// within `avail` cells, for every alignment but `Unaligned`.
pub open spec fn spec_align_pos(avail: int, align: NcAlign, len: int) -> int {
    if align is Left {
        0
    } else if len > avail {
        0
    } else if align is Center {
        (avail - len) / 2
    } else {
        avail - len
    }
}

/// The cell at which `len` cells ought start in order to sit `align`ed
/// within `avail` cells.
///
/// Flush-left placement is 0 whatever the sizes; any other alignment of a
/// span wider than `avail` also starts at 0. Centering prefers the left on
/// an odd remainder. `Unaligned` is an error, reported with the most
/// negative raw code.
pub fn notcurses_align(avail: NcDim, align: NcAlign, len: NcDim) -> (r: NcResult<NcDim>)
    ensures
        r is Ok <==> !(align is Unaligned),
        align is Left ==> r == Ok::<NcDim, NcError>(0),
        align is Center && len <= avail ==> r == Ok::<NcDim, NcError>(((avail - len) / 2) as NcDim),
        align is Right && len <= avail ==> r == Ok::<NcDim, NcError>((avail - len) as NcDim),
        !(align is Unaligned) && len > avail ==> r == Ok::<NcDim, NcError>(0),
        r matches Ok(v) ==> v == spec_align_pos(avail as int, align, len as int),
        r matches Err(e) ==> e.code == -NCRESULT_MAX,
{
    match align {
        NcAlign::Left => Ok(0),
        NcAlign::Unaligned => Err(NcError::with_msg(-NCRESULT_MAX, "unaligned placement")),
        NcAlign::Center => {
            if len > avail {
                Ok(0)
            } else {
                Ok((avail - len) / 2)
            }
        },
        NcAlign::Right => {
            if len > avail {
                Ok(0)
            } else {
                Ok(avail - len)
            }
        },
    }
}

} // verus!
