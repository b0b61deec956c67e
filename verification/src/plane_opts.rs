//! Configuration for creating planes.

use vstd::prelude::*;
use crate::types::{NcAlign, NcDim, NcOffset};

verus! {

/// A resize callback registration. The callback itself runs outside the
/// verified core; a plane only records whether one was registered.
#[derive(Clone, Copy, PartialEq, Eq, Structural, Debug)]
pub struct NcResizeCb;

/// Horizontal placement by alignment instead of an absolute column.
pub const NCPLANE_OPTION_HORALIGNED: u64 = 0x0001;

/// Vertical placement by alignment instead of an absolute row.
pub const NCPLANE_OPTION_VERALIGNED: u64 = 0x0002;

/// Maintain the margins given in these options on resize.
pub const NCPLANE_OPTION_MARGINALIZED: u64 = 0x0004;

/// The configuration a plane is created from: its position (absolute, or
/// horizontally aligned against the plane it is bound to), its extents,
/// an optional resize callback, option bits, and resize margins.
pub struct NcPlaneOptions {
    /// Row origin relative to the binding plane.
    pub y: NcOffset,
    /// Column origin relative to the binding plane; ignored when the
    /// horizontal-alignment bit is set.
    pub x: NcOffset,
    /// Rows of the new plane.
    pub rows: NcDim,
    /// Columns of the new plane.
    pub cols: NcDim,
    /// The registered resize callback, if any.
    pub resizecb: Option<NcResizeCb>,
    /// Option bits.
    pub flags: u64,
    /// Bottom margin kept on resize of a margin-maintaining plane.
    pub margin_b: NcOffset,
    /// Right margin kept on resize of a margin-maintaining plane.
    pub margin_r: NcOffset,
    /// The horizontal alignment used when the horizontal-alignment bit
    /// is set.
    pub halign: NcAlign,
}

impl NcPlaneOptions {
    /// Options for an absolutely positioned plane with no callback, no
    /// flags and no margins.
    pub fn new(y: NcOffset, x: NcOffset, rows: NcDim, cols: NcDim) -> (o: NcPlaneOptions)
        ensures
            o == (NcPlaneOptions {
                y,
                x,
                rows,
                cols,
                resizecb: None::<NcResizeCb>,
                flags: 0u64,
                margin_b: 0i32,
                margin_r: 0i32,
                halign: NcAlign::Unaligned,
            }),
    {
        Self::with_flags(y, x, rows, cols, None, 0, 0, 0)
    }

    /// Options for a horizontally aligned plane with no callback and no
    /// other flags.
    pub fn new_aligned(y: NcOffset, align: NcAlign, rows: NcDim, cols: NcDim) -> (o:
        NcPlaneOptions)
        ensures
            o == (NcPlaneOptions {
                y,
                x: 0i32,
                rows,
                cols,
                resizecb: None::<NcResizeCb>,
                flags: NCPLANE_OPTION_HORALIGNED,
                margin_b: 0i32,
                margin_r: 0i32,
                halign: align,
            }),
    {
        proof {
            assert(NCPLANE_OPTION_HORALIGNED | NCPLANE_OPTION_HORALIGNED
                == NCPLANE_OPTION_HORALIGNED) by (bit_vector);
        }
        Self::with_flags_aligned(y, align, rows, cols, None, NCPLANE_OPTION_HORALIGNED)
    }

    /// Options for an absolutely positioned plane, with a callback, flag
    /// bits and margins.
    pub fn with_flags(
        y: NcOffset,
        x: NcOffset,
        rows: NcDim,
        cols: NcDim,
        resizecb: Option<NcResizeCb>,
        flags: u64,
        margin_b: NcOffset,
        margin_r: NcOffset,
    ) -> (o: NcPlaneOptions)
        ensures
            o == (NcPlaneOptions {
                y,
                x,
                rows,
                cols,
                resizecb,
                flags,
                margin_b,
                margin_r,
                halign: NcAlign::Unaligned,
            }),
    {
        NcPlaneOptions {
            y,
            x,
            rows,
            cols,
            resizecb,
            flags,
            margin_b,
            margin_r,
            halign: NcAlign::Unaligned,
        }
    }

    /// Options for a horizontally aligned plane, with a callback and flag
    /// bits; the horizontal-alignment bit is always included.
    pub fn with_flags_aligned(
        y: NcOffset,
        align: NcAlign,
        rows: NcDim,
        cols: NcDim,
        resizecb: Option<NcResizeCb>,
        flags: u64,
    ) -> (o: NcPlaneOptions)
        ensures
            o == (NcPlaneOptions {
                y,
                x: 0i32,
                rows,
                cols,
                resizecb,
                flags: flags | NCPLANE_OPTION_HORALIGNED,
                margin_b: 0i32,
                margin_r: 0i32,
                halign: align,
            }),
    {
        NcPlaneOptions {
            y,
            x: 0,
            rows,
            cols,
            resizecb,
            flags: flags | NCPLANE_OPTION_HORALIGNED,
            margin_b: 0,
            margin_r: 0,
            halign: align,
        }
    }

    /// Whether these options ask for horizontal alignment.
    pub fn is_horaligned(&self) -> (b: bool)
        ensures
            b == (self.flags & NCPLANE_OPTION_HORALIGNED != 0),
    {
        self.flags & NCPLANE_OPTION_HORALIGNED != 0
    }
}

} // verus!
