//! A single terminal cell: one glyph with its styles and channels.

use vstd::prelude::*;
use crate::types::{NcChannels, NcStyle};

verus! {

/// One cell of a plane: a glyph, a style mask, and a channel pair.
///
/// A cell whose glyph is the NUL character is *undrawn*: it holds no
/// content of its own, and a rendering shows the plane's base cell (or
/// whatever lies beneath the plane) in its place. Every drawn glyph
/// occupies one column.
#[derive(Clone, Copy, PartialEq, Eq, Structural, Debug)]
pub struct NcCell {
    /// The glyph, or NUL for an undrawn cell.
    pub gcluster: char,
    /// The style bits of this cell.
    pub stylemask: NcStyle,
    /// The channel pair of this cell.
    pub channels: NcChannels,
}

/// The undrawn cell: NUL glyph, no styles, zero channels.
pub open spec fn blank_cell() -> NcCell {
    NcCell { gcluster: '\0', stylemask: 0u16, channels: 0u64 }
}

impl NcCell {
    /// Whether this cell is undrawn.
    pub open spec fn spec_undrawn(self) -> bool {
        self.gcluster == '\0'
    }

    /// A new undrawn cell: NUL glyph, no styles, zero channels.
    pub fn new() -> (c: NcCell)
        ensures
            c == blank_cell(),
    {
        NcCell { gcluster: '\0', stylemask: 0, channels: 0 }
    }

    /// A cell holding `ch` with no styles and zero channels.
    pub fn from_char(ch: char) -> (c: NcCell)
        ensures
            c == (NcCell { gcluster: ch, stylemask: 0u16, channels: 0u64 }),
    {
        NcCell { gcluster: ch, stylemask: 0, channels: 0 }
    }

    /// Whether this cell is undrawn.
    pub fn undrawn(&self) -> (u: bool)
        ensures
            u == self.spec_undrawn(),
    {
        self.gcluster == '\0'
    }
}

/// How many bytes the UTF-8 encoding of `c` takes.
pub open spec fn spec_utf8_len(c: char) -> nat {
    if (c as u32) < 0x80 {
        1
    } else if (c as u32) < 0x800 {
        2
    } else if (c as u32) < 0x1_0000 {
        3
    } else {
        4
    }
}

/// How many bytes the UTF-8 encoding of `c` takes.
pub fn utf8_len(c: char) -> (n: usize)
    ensures
        n == spec_utf8_len(c),
{
    let u = c as u32;
    if u < 0x80 {
        1
    } else if u < 0x800 {
        2
    } else if u < 0x1_0000 {
        3
    } else {
        4
    }
}

} // verus!
