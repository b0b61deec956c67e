//! Direct-mode sessions: immediate terminal output without retained
//! planes.
//!
//! A session is opened on a terminal description supplied by the
//! embedding code (which alone can probe the real terminal) and tracks
//! everything the binding can speak of: the terminal's geometry and
//! capabilities, the cursor, the current channels and styles, queued
//! input, and the raw probe results whose sentinel conventions the
//! accessors translate.

use vstd::prelude::*;
use crate::channel::{
    ncchannel_default_p, ncchannel_set, ncchannel_set_alpha, ncchannel_set_default,
    ncchannel_set_palindex, ncchannel_set_rgb8, ncchannels_bchannel, ncchannels_combine,
    ncchannels_fchannel, spec_bchannel, spec_channel_default_p, spec_channel_defaulted,
    spec_channel_with_palindex, spec_channel_with_rgb, spec_channel_with_rgb8, spec_combine,
    spec_fchannel,
};
use crate::result::{NcError, NcResult, NCRESULT_ERR};
use crate::types::{
    NcChannels, NcComponent, NcDim, NcDirectFlags, NcOffset, NcPaletteIndex, NcRgb, NcStyle,
};

verus! {

/// Do not change the terminal mode on session start.
pub const NCDIRECT_OPTION_INHIBIT_CBREAK: u64 = 0x0001;

/// Do not touch the locale on session start.
pub const NCDIRECT_OPTION_INHIBIT_SETLOCALE: u64 = 0x0002;

/// What a terminal can do, as probed by the embedding code.
#[derive(Clone, Copy, PartialEq, Eq, Structural, Debug)]
pub struct NcCapabilities {
    /// Colors the terminal claims to support simultaneously.
    pub colors: u32,
    /// The encoding is UTF-8.
    pub utf8: bool,
    /// Cells take directly specified RGB color.
    pub rgb: bool,
    /// The palette can be reprogrammed.
    pub can_change_palette: bool,
    /// Unicode half blocks are reliable.
    pub halfblocks: bool,
    /// Unicode quadrants are reliable.
    pub quadrants: bool,
    /// Unicode sextants are reliable.
    pub sextants: bool,
    /// Unicode braille is reliable.
    pub braille: bool,
    /// Images can be loaded.
    pub images: bool,
    /// Videos can be loaded.
    pub videos: bool,
}

/// What the embedding code reports of the terminal a session opens on.
pub struct NcTerm {
    /// Whether the output really is a terminal.
    pub is_tty: bool,
    /// Rows of the terminal.
    pub rows: NcDim,
    /// Columns of the terminal.
    pub cols: NcDim,
    /// The probed capabilities.
    pub caps: NcCapabilities,
    /// The raw palette size the terminal reports; the sentinel value 1
    /// reports no color support.
    pub palette_size: u32,
    /// The raw pixel-support probe result: 0 for none, 1 for support,
    /// anything else for a failed probe.
    pub pixel_support: i32,
    /// The name of the detected terminal.
    pub name: String,
}

/// One unit of terminal input.
#[derive(Clone, Copy, PartialEq, Eq, Structural, Debug)]
pub struct NcInput {
    /// The character read.
    pub id: char,
    /// Whether alt was held.
    pub alt: bool,
    /// Whether shift was held.
    pub shift: bool,
    /// Whether ctrl was held.
    pub ctrl: bool,
}

impl NcInput {
    /// An empty input unit.
    pub fn new() -> (i: NcInput)
        ensures
            i == (NcInput { id: '\0', alt: false, shift: false, ctrl: false }),
    {
        NcInput { id: '\0', alt: false, shift: false, ctrl: false }
    }
}

/// A bound on blocking input reads.
#[derive(Clone, Copy, PartialEq, Eq, Structural, Debug)]
pub struct NcTime {
    /// Whole seconds.
    pub seconds: i64,
    /// Nanoseconds past the second.
    pub nanoseconds: i64,
}

/// A direct-mode session.
pub struct NcDirect {
    /// Rows of the terminal.
    pub rows: NcDim,
    /// Columns of the terminal.
    pub cols: NcDim,
    /// Cursor row; always within the terminal.
    pub cursor_y: NcDim,
    /// Cursor column; always within the terminal.
    pub cursor_x: NcDim,
    /// Whether the terminal cursor is shown.
    pub cursor_visible: bool,
    /// The channel pair new output is written with.
    pub channels: NcChannels,
    /// The style bits new output is written with.
    pub styles: NcStyle,
    /// The probed capabilities.
    pub caps: NcCapabilities,
    /// The raw palette size the terminal reported.
    pub palette_raw: u32,
    /// The raw pixel-support probe result.
    pub pixel_raw: i32,
    /// The name of the detected terminal.
    pub term_name: String,
    /// The option bits the session was opened with.
    pub flags: NcDirectFlags,
    /// Input read from the terminal by the embedding code and not yet
    /// consumed, oldest first.
    pub pending: Vec<NcInput>,
    /// Saved cursor positions, oldest first.
    pub cursor_stack: Vec<(NcDim, NcDim)>,
}

impl NcDirect {
    /// Well-formedness: the terminal has at least one cell and the
    /// cursor rests on it.
    pub open spec fn wf(self) -> bool {
        &&& self.rows >= 1
        &&& self.cols >= 1
        &&& self.cursor_y < self.rows
        &&& self.cursor_x < self.cols
    }

    /// Opens a direct-mode session with default options.
    pub fn new(term: NcTerm) -> (r: NcResult<NcDirect>)
        ensures
            r is Ok <==> term.is_tty && term.rows >= 1 && term.cols >= 1,
            r matches Ok(d) ==> d.wf() && d == (NcDirect {
                rows: term.rows,
                cols: term.cols,
                cursor_y: 0u32,
                cursor_x: 0u32,
                cursor_visible: true,
                channels: 0u64,
                styles: 0u16,
                caps: term.caps,
                palette_raw: term.palette_size,
                pixel_raw: term.pixel_support,
                term_name: d.term_name,
                flags: 0u64,
                pending: d.pending,
                cursor_stack: d.cursor_stack,
            }) && d.term_name@ == term.name@ && d.pending@ == Seq::<NcInput>::empty()
                && d.cursor_stack@ == Seq::<(NcDim, NcDim)>::empty(),
    {
        Self::with_flags(term, 0)
    }

    /// Opens a direct-mode session with the given option bits. The
    /// output not being a terminal, or a terminal without at least one
    /// cell, is an error.
    pub fn with_flags(term: NcTerm, flags: NcDirectFlags) -> (r: NcResult<NcDirect>)
        ensures
            r is Ok <==> term.is_tty && term.rows >= 1 && term.cols >= 1,
            r matches Ok(d) ==> d.wf() && d == (NcDirect {
                rows: term.rows,
                cols: term.cols,
                cursor_y: 0u32,
                cursor_x: 0u32,
                cursor_visible: true,
                channels: 0u64,
                styles: 0u16,
                caps: term.caps,
                palette_raw: term.palette_size,
                pixel_raw: term.pixel_support,
                term_name: d.term_name,
                flags,
                pending: d.pending,
                cursor_stack: d.cursor_stack,
            }) && d.term_name@ == term.name@ && d.pending@ == Seq::<NcInput>::empty()
                && d.cursor_stack@ == Seq::<(NcDim, NcDim)>::empty(),
    {
        if !term.is_tty {
            return Err(NcError::with_msg(NCRESULT_ERR, "not a terminal"));
        }
        if term.rows == 0 || term.cols == 0 {
            return Err(NcError::with_msg(NCRESULT_ERR, "terminal without cells"));
        }
        Ok(
            NcDirect {
                rows: term.rows,
                cols: term.cols,
                cursor_y: 0,
                cursor_x: 0,
                cursor_visible: true,
                channels: 0,
                styles: 0,
                caps: term.caps,
                palette_raw: term.palette_size,
                pixel_raw: term.pixel_support,
                term_name: term.name,
                flags,
                pending: Vec::new(),
                cursor_stack: Vec::new(),
            },
        )
    }

    /// Closes this session. Taking the session by value, the release can
    /// happen only once, and no handle survives it.
    pub fn stop(self) -> (r: NcResult<()>)
        ensures
            r is Ok,
    {
        Ok(())
    }

    /// The number of simultaneous colors the terminal claims, where it
    /// supports color at all: the raw report of exactly 1 is the
    /// sentinel for no color support and becomes an error carrying that
    /// raw code; any other count is handed back exactly as reported.
    pub fn palette_size(&self) -> (r: NcResult<u32>)
        ensures
            r is Ok <==> self.palette_raw != 1,
            self.palette_raw != 1 ==> r == Ok::<u32, NcError>(self.palette_raw),
            r matches Err(e) ==> e.code == 1,
    {
        if self.palette_raw == 1 {
            return Err(NcError::with_msg(1, "no color support"));
        }
        Ok(self.palette_raw)
    }

    /// Whether pixel output is supported: the raw probe result 0 reports
    /// no support, 1 reports support, and any other value is a failed
    /// probe, reported as an error carrying the raw code.
    pub fn check_pixel_support(&self) -> (r: NcResult<bool>)
        ensures
            self.pixel_raw == 0 ==> r == Ok::<bool, NcError>(false),
            self.pixel_raw == 1 ==> r == Ok::<bool, NcError>(true),
            self.pixel_raw != 0 && self.pixel_raw != 1 ==> (r matches Err(e) && e.code
                == self.pixel_raw),
            r is Ok <==> self.pixel_raw == 0 || self.pixel_raw == 1,
    {
        if self.pixel_raw == 0 {
            Ok(false)
        } else if self.pixel_raw == 1 {
            Ok(true)
        } else {
            Err(NcError::with_msg(self.pixel_raw, "pixel probe failed"))
        }
    }

    /// Whether Unicode braille is reliable.
    pub fn canbraille(&self) -> (b: bool)
        ensures
            b == self.caps.braille,
    {
        self.caps.braille
    }

    /// Whether the palette can be reprogrammed.
    pub fn canchangecolor(&self) -> (b: bool)
        ensures
            b == self.caps.can_change_palette,
    {
        self.caps.can_change_palette
    }

    /// Whether fading is possible: it takes either direct RGB or a
    /// reprogrammable palette.
    pub fn canfade(&self) -> (b: bool)
        ensures
            b == (self.caps.can_change_palette || self.caps.rgb),
    {
        self.caps.can_change_palette || self.caps.rgb
    }

    /// Whether Unicode half blocks are reliable.
    pub fn canhalfblock(&self) -> (b: bool)
        ensures
            b == self.caps.halfblocks,
    {
        self.caps.halfblocks
    }

    /// Whether images can be loaded.
    pub fn canopen_images(&self) -> (b: bool)
        ensures
            b == self.caps.images,
    {
        self.caps.images
    }

    /// Whether videos can be loaded.
    pub fn canopen_videos(&self) -> (b: bool)
        ensures
            b == self.caps.videos,
    {
        self.caps.videos
    }

    /// Whether Unicode quadrants are reliable.
    pub fn canquadrant(&self) -> (b: bool)
        ensures
            b == self.caps.quadrants,
    {
        self.caps.quadrants
    }

    /// Whether Unicode sextants are reliable.
    pub fn cansextant(&self) -> (b: bool)
        ensures
            b == self.caps.sextants,
    {
        self.caps.sextants
    }

    /// Whether cells take directly specified RGB color.
    pub fn cantruecolor(&self) -> (b: bool)
        ensures
            b == self.caps.rgb,
    {
        self.caps.rgb
    }

    /// Whether the encoding is UTF-8.
    pub fn canutf8(&self) -> (b: bool)
        ensures
            b == self.caps.utf8,
    {
        self.caps.utf8
    }

    /// The probed capabilities.
    pub fn capabilities(&self) -> (c: NcCapabilities)
        ensures
            c == self.caps,
    {
        self.caps
    }

    /// The name of the detected terminal.
    pub fn detected_terminal(&self) -> (s: String)
        ensures
            s@ == self.term_name@,
    {
        clone_string(&self.term_name)
    }

    /// The rows of the terminal.
    pub fn dim_y(&self) -> (r: NcDim)
        ensures
            r == self.rows,
    {
        self.rows
    }

    /// The columns of the terminal.
    pub fn dim_x(&self) -> (c: NcDim)
        ensures
            c == self.cols,
    {
        self.cols
    }

    /// The dimensions of the terminal, rows then columns.
    pub fn dim_yx(&self) -> (d: (NcDim, NcDim))
        ensures
            d == (self.rows, self.cols),
    {
        (self.rows, self.cols)
    }

    /// Clears the screen and homes the cursor (the wiped bytes reach the
    /// terminal through the embedding code).
    pub fn clear(&mut self) -> (r: NcResult<()>)
        requires
            old(self).wf(),
        ensures
            final(self).wf(),
            r is Ok,
            *final(self) == (NcDirect { cursor_y: 0u32, cursor_x: 0u32, ..*old(self) }),
    {
        self.cursor_y = 0;
        self.cursor_x = 0;
        Ok(())
    }

    /// Flushes output. The session buffers nothing itself, so there is
    /// nothing to do and nothing can fail.
    pub fn flush(&self) -> (r: NcResult<()>)
        ensures
            r is Ok,
    {
        Ok(())
    }

    /// The cursor position, row then column.
    pub fn cursor_yx(&self) -> (r: NcResult<(NcDim, NcDim)>)
        ensures
            r == Ok::<(NcDim, NcDim), NcError>((self.cursor_y, self.cursor_x)),
    {
        Ok((self.cursor_y, self.cursor_x))
    }

    /// Moves the cursor to (`y`, `x`); a position outside the terminal
    /// is an error and the cursor stays put.
    pub fn cursor_set_yx(&mut self, y: NcDim, x: NcDim) -> (r: NcResult<()>)
        requires
            old(self).wf(),
        ensures
            final(self).wf(),
            r is Ok <==> y < old(self).rows && x < old(self).cols,
            r is Ok ==> *final(self) == (NcDirect { cursor_y: y, cursor_x: x, ..*old(self) }),
            r is Err ==> *final(self) == *old(self),
    {
        if y >= self.rows || x >= self.cols {
            return Err(NcError::with_msg(NCRESULT_ERR, "cursor position outside the terminal"));
        }
        self.cursor_y = y;
        self.cursor_x = x;
        Ok(())
    }

    /// Moves the cursor to row `y`, keeping its column.
    pub fn cursor_set_y(&mut self, y: NcDim) -> (r: NcResult<()>)
        requires
            old(self).wf(),
        ensures
            final(self).wf(),
            r is Ok <==> y < old(self).rows,
            r is Ok ==> *final(self) == (NcDirect {
                cursor_y: y,
                cursor_x: old(self).cursor_x,
                ..*old(self)
            }),
            r is Err ==> *final(self) == *old(self),
    {
        let x = self.cursor_x;
        self.cursor_set_yx(y, x)
    }

    /// Moves the cursor to column `x`, keeping its row.
    pub fn cursor_set_x(&mut self, x: NcDim) -> (r: NcResult<()>)
        requires
            old(self).wf(),
        ensures
            final(self).wf(),
            r is Ok <==> x < old(self).cols,
            r is Ok ==> *final(self) == (NcDirect {
                cursor_y: old(self).cursor_y,
                cursor_x: x,
                ..*old(self)
            }),
            r is Err ==> *final(self) == *old(self),
    {
        let y = self.cursor_y;
        self.cursor_set_yx(y, x)
    }

    /// Moves the cursor up `rows` rows, stopping at the top edge. A
    /// negative count is an error.
    pub fn cursor_up(&mut self, rows: NcOffset) -> (r: NcResult<()>)
        requires
            old(self).wf(),
        ensures
            final(self).wf(),
            r is Ok <==> rows >= 0,
            r is Err ==> *final(self) == *old(self),
            r is Ok ==> *final(self) == (NcDirect {
                cursor_y: (if old(self).cursor_y >= rows {
                    (old(self).cursor_y - rows) as u32
                } else {
                    0u32
                }),
                ..*old(self)
            }),
    {
        if rows < 0 {
            return Err(NcError::with_msg(NCRESULT_ERR, "negative cursor move"));
        }
        if self.cursor_y as i64 >= rows as i64 {
            self.cursor_y = self.cursor_y - rows as u32;
        } else {
            self.cursor_y = 0;
        }
        Ok(())
    }

    /// Moves the cursor down `rows` rows, stopping at the bottom edge. A
    /// negative count is an error.
    pub fn cursor_down(&mut self, rows: NcOffset) -> (r: NcResult<()>)
        requires
            old(self).wf(),
        ensures
            final(self).wf(),
            r is Ok <==> rows >= 0,
            r is Err ==> *final(self) == *old(self),
            r is Ok ==> *final(self) == (NcDirect {
                cursor_y: (if old(self).cursor_y + rows < old(self).rows {
                    (old(self).cursor_y + rows) as u32
                } else {
                    (old(self).rows - 1) as u32
                }),
                ..*old(self)
            }),
    {
        if rows < 0 {
            return Err(NcError::with_msg(NCRESULT_ERR, "negative cursor move"));
        }
        let target: u64 = self.cursor_y as u64 + rows as u64;
        if target < self.rows as u64 {
            self.cursor_y = target as u32;
        } else {
            self.cursor_y = self.rows - 1;
        }
        Ok(())
    }

    /// Moves the cursor left `cols` columns, stopping at the left edge.
    /// A negative count is an error.
    pub fn cursor_left(&mut self, cols: NcOffset) -> (r: NcResult<()>)
        requires
            old(self).wf(),
        ensures
            final(self).wf(),
            r is Ok <==> cols >= 0,
            r is Err ==> *final(self) == *old(self),
            r is Ok ==> *final(self) == (NcDirect {
                cursor_x: (if old(self).cursor_x >= cols {
                    (old(self).cursor_x - cols) as u32
                } else {
                    0u32
                }),
                ..*old(self)
            }),
    {
        if cols < 0 {
            return Err(NcError::with_msg(NCRESULT_ERR, "negative cursor move"));
        }
        if self.cursor_x as i64 >= cols as i64 {
            self.cursor_x = self.cursor_x - cols as u32;
        } else {
            self.cursor_x = 0;
        }
        Ok(())
    }

    /// Moves the cursor right `cols` columns, stopping at the right
    /// edge. A negative count is an error.
    pub fn cursor_right(&mut self, cols: NcOffset) -> (r: NcResult<()>)
        requires
            old(self).wf(),
        ensures
            final(self).wf(),
            r is Ok <==> cols >= 0,
            r is Err ==> *final(self) == *old(self),
            r is Ok ==> *final(self) == (NcDirect {
                cursor_x: (if old(self).cursor_x + cols < old(self).cols {
                    (old(self).cursor_x + cols) as u32
                } else {
                    (old(self).cols - 1) as u32
                }),
                ..*old(self)
            }),
    {
        if cols < 0 {
            return Err(NcError::with_msg(NCRESULT_ERR, "negative cursor move"));
        }
        let target: u64 = self.cursor_x as u64 + cols as u64;
        if target < self.cols as u64 {
            self.cursor_x = target as u32;
        } else {
            self.cursor_x = self.cols - 1;
        }
        Ok(())
    }

    /// Saves the cursor position on the stack.
    pub fn cursor_push(&mut self) -> (r: NcResult<()>)
        requires
            old(self).wf(),
        ensures
            final(self).wf(),
            r is Ok,
            *final(self) == (NcDirect { cursor_stack: final(self).cursor_stack, ..*old(self) }),
            final(self).cursor_stack@ == old(self).cursor_stack@.push(
                (old(self).cursor_y, old(self).cursor_x),
            ),
    {
        let p = (self.cursor_y, self.cursor_x);
        self.cursor_stack.push(p);
        Ok(())
    }

    /// Restores the most recently saved cursor position; an empty stack
    /// is an error.
    pub fn cursor_pop(&mut self) -> (r: NcResult<()>)
        requires
            old(self).wf(),
        ensures
            final(self).wf(),
            r is Ok <==> old(self).cursor_stack@.len() > 0,
            r is Err ==> *final(self) == *old(self),
            r is Ok ==> ({
                let top = old(self).cursor_stack@.last();
                &&& *final(self) == (NcDirect {
                    cursor_y: (if top.0 < old(self).rows {
                        top.0
                    } else {
                        (old(self).rows - 1) as u32
                    }),
                    cursor_x: (if top.1 < old(self).cols {
                        top.1
                    } else {
                        (old(self).cols - 1) as u32
                    }),
                    cursor_stack: final(self).cursor_stack,
                    ..*old(self)
                })
                &&& final(self).cursor_stack@ == old(self).cursor_stack@.drop_last()
            }),
    {
        let n = self.cursor_stack.len();
        if n == 0 {
            return Err(NcError::with_msg(NCRESULT_ERR, "no saved cursor position"));
        }
        let top = self.cursor_stack[n - 1];
        self.cursor_stack.truncate(n - 1);
        self.cursor_y = if top.0 < self.rows {
            top.0
        } else {
            self.rows - 1
        };
        self.cursor_x = if top.1 < self.cols {
            top.1
        } else {
            self.cols - 1
        };
        Ok(())
    }

    /// Shows the terminal cursor.
    pub fn cursor_enable(&mut self) -> (r: NcResult<()>)
        ensures
            r is Ok,
            *final(self) == (NcDirect { cursor_visible: true, ..*old(self) }),
    {
        self.cursor_visible = true;
        Ok(())
    }

    /// Hides the terminal cursor.
    pub fn cursor_disable(&mut self) -> (r: NcResult<()>)
        ensures
            r is Ok,
            *final(self) == (NcDirect { cursor_visible: false, ..*old(self) }),
    {
        self.cursor_visible = false;
        Ok(())
    }
}

impl NcDirect {
    /// Adds the given style bits.
    pub fn styles_on(&mut self, stylebits: NcStyle) -> (r: NcResult<()>)
        ensures
            r is Ok,
            *final(self) == (NcDirect { styles: old(self).styles | stylebits, ..*old(self) }),
    {
        self.styles = self.styles | stylebits;
        Ok(())
    }

    /// Removes the given style bits.
    pub fn styles_off(&mut self, stylebits: NcStyle) -> (r: NcResult<()>)
        ensures
            r is Ok,
            *final(self) == (NcDirect { styles: old(self).styles & !stylebits, ..*old(self) }),
    {
        self.styles = self.styles & !stylebits;
        Ok(())
    }

    /// Sets exactly the given style bits.
    pub fn styles_set(&mut self, stylebits: NcStyle) -> (r: NcResult<()>)
        ensures
            r is Ok,
            *final(self) == (NcDirect { styles: stylebits, ..*old(self) }),
    {
        self.styles = stylebits;
        Ok(())
    }

    /// Sets the foreground RGB components, marking the foreground as RGB
    /// and as not using the default color.
    pub fn set_fg_rgb8(&mut self, red: NcComponent, green: NcComponent, blue: NcComponent) -> (r:
        NcResult<()>)
        ensures
            r is Ok,
            *final(self) == (NcDirect {
                channels: spec_combine(
                    spec_channel_with_rgb8(spec_fchannel(old(self).channels), red, green, blue),
                    spec_bchannel(old(self).channels),
                ),
                ..*old(self)
            }),
    {
        let f = ncchannel_set_rgb8(ncchannels_fchannel(self.channels), red, green, blue);
        self.channels = ncchannels_combine(f, ncchannels_bchannel(self.channels));
        Ok(())
    }

    /// Sets the background RGB components, marking the background as RGB
    /// and as not using the default color.
    pub fn set_bg_rgb8(&mut self, red: NcComponent, green: NcComponent, blue: NcComponent) -> (r:
        NcResult<()>)
        ensures
            r is Ok,
            *final(self) == (NcDirect {
                channels: spec_combine(
                    spec_fchannel(old(self).channels),
                    spec_channel_with_rgb8(spec_bchannel(old(self).channels), red, green, blue),
                ),
                ..*old(self)
            }),
    {
        let b = ncchannel_set_rgb8(ncchannels_bchannel(self.channels), red, green, blue);
        self.channels = ncchannels_combine(ncchannels_fchannel(self.channels), b);
        Ok(())
    }

    /// Sets the foreground RGB bits from the low bits of `rgb`.
    pub fn set_fg_rgb(&mut self, rgb: NcRgb) -> (r: NcResult<()>)
        ensures
            r is Ok,
            *final(self) == (NcDirect {
                channels: spec_combine(
                    spec_channel_with_rgb(spec_fchannel(old(self).channels), rgb),
                    spec_bchannel(old(self).channels),
                ),
                ..*old(self)
            }),
    {
        let f = ncchannel_set(ncchannels_fchannel(self.channels), rgb);
        self.channels = ncchannels_combine(f, ncchannels_bchannel(self.channels));
        Ok(())
    }

    /// Sets the background RGB bits from the low bits of `rgb`.
    pub fn set_bg_rgb(&mut self, rgb: NcRgb) -> (r: NcResult<()>)
        ensures
            r is Ok,
            *final(self) == (NcDirect {
                channels: spec_combine(
                    spec_fchannel(old(self).channels),
                    spec_channel_with_rgb(spec_bchannel(old(self).channels), rgb),
                ),
                ..*old(self)
            }),
    {
        let b = ncchannel_set(ncchannels_bchannel(self.channels), rgb);
        self.channels = ncchannels_combine(ncchannels_fchannel(self.channels), b);
        Ok(())
    }

    /// Sets the foreground to palette index `index`.
    pub fn set_fg_palindex(&mut self, index: NcPaletteIndex) -> (r: NcResult<()>)
        ensures
            r is Ok,
            *final(self) == (NcDirect {
                channels: spec_combine(
                    spec_channel_with_palindex(spec_fchannel(old(self).channels), index),
                    spec_bchannel(old(self).channels),
                ),
                ..*old(self)
            }),
    {
        let f = ncchannel_set_palindex(ncchannels_fchannel(self.channels), index);
        self.channels = ncchannels_combine(f, ncchannels_bchannel(self.channels));
        Ok(())
    }

    /// Sets the background to palette index `index`.
    pub fn set_bg_palindex(&mut self, index: NcPaletteIndex) -> (r: NcResult<()>)
        ensures
            r is Ok,
            *final(self) == (NcDirect {
                channels: spec_combine(
                    spec_fchannel(old(self).channels),
                    spec_channel_with_palindex(spec_bchannel(old(self).channels), index),
                ),
                ..*old(self)
            }),
    {
        let b = ncchannel_set_palindex(ncchannels_bchannel(self.channels), index);
        self.channels = ncchannels_combine(ncchannels_fchannel(self.channels), b);
        Ok(())
    }

    /// Resets the foreground to the terminal's default color.
    pub fn set_fg_default(&mut self) -> (r: NcResult<()>)
        ensures
            r is Ok,
            *final(self) == (NcDirect {
                channels: spec_combine(
                    spec_channel_defaulted(spec_fchannel(old(self).channels)),
                    spec_bchannel(old(self).channels),
                ),
                ..*old(self)
            }),
    {
        let f = ncchannel_set_default(ncchannels_fchannel(self.channels));
        self.channels = ncchannels_combine(f, ncchannels_bchannel(self.channels));
        Ok(())
    }

    /// Resets the background to the terminal's default color.
    pub fn set_bg_default(&mut self) -> (r: NcResult<()>)
        ensures
            r is Ok,
            *final(self) == (NcDirect {
                channels: spec_combine(
                    spec_fchannel(old(self).channels),
                    spec_channel_defaulted(spec_bchannel(old(self).channels)),
                ),
                ..*old(self)
            }),
    {
        let b = ncchannel_set_default(ncchannels_bchannel(self.channels));
        self.channels = ncchannels_combine(ncchannels_fchannel(self.channels), b);
        Ok(())
    }

    /// Writes `string` under the given channels, leaving the cursor where
    /// the terminal leaves it: advanced by one column per character,
    /// wrapping at the right edge, and held on the last row once the
    /// output has scrolled past it. It is an error when the session and
    /// the given foreground channel are both marked as using the default
    /// color, and the session is then unchanged.
    pub fn putstr(&mut self, channels: NcChannels, string: &str) -> (r: NcResult<()>)
        requires
            old(self).wf(),
        ensures
            final(self).wf(),
            r is Ok <==> !(spec_channel_default_p(spec_fchannel(channels))
                && spec_channel_default_p(spec_fchannel(old(self).channels))) && string@.len()
                <= u32::MAX,
            r is Err ==> *final(self) == *old(self),
            r is Ok ==> ({
                let pos = old(self).cursor_y * old(self).cols + old(self).cursor_x + string@.len();
                &&& *final(self) == (NcDirect {
                    cursor_y: final(self).cursor_y,
                    cursor_x: final(self).cursor_x,
                    channels,
                    ..*old(self)
                })
                &&& final(self).cursor_y == (if pos / (old(self).cols as int) < old(self).rows {
                    pos / (old(self).cols as int)
                } else {
                    old(self).rows - 1
                })
                &&& final(self).cursor_x == pos % (old(self).cols as int)
            }),
    {
        if ncchannel_default_p(ncchannels_fchannel(channels)) && ncchannel_default_p(
            ncchannels_fchannel(self.channels),
        ) {
            return Err(
                NcError::with_msg(NCRESULT_ERR, "session and foreground both default-colored"),
            );
        }
        let n = string.unicode_len();
        if n > u32::MAX as usize {
            return Err(NcError::with_msg(NCRESULT_ERR, "text too long"));
        }
        self.channels = channels;
        proof {
            let cy = old(self).cursor_y as int;
            let tc = old(self).cols as int;
            assert(cy * tc <= 0xffff_ffff * 0xffff_ffff) by (nonlinear_arith)
                requires
                    0 <= cy <= 0xffff_ffff,
                    0 <= tc <= 0xffff_ffff,
            ;
        }
        let pos: u64 = (self.cursor_y as u64) * (self.cols as u64) + self.cursor_x as u64
            + n as u64;
        let row: u64 = pos / self.cols as u64;
        if row < self.rows as u64 {
            self.cursor_y = row as u32;
        } else {
            self.cursor_y = self.rows - 1;
        }
        self.cursor_x = (pos % self.cols as u64) as u32;
        proof {
            let tc = old(self).cols as int;
            assert(pos as int % tc < tc) by (nonlinear_arith)
                requires
                    tc >= 1,
                    pos >= 0,
            ;
        }
        Ok(())
    }

    /// Hands one unit of input read from the terminal to the session;
    /// the embedding code alone can read the terminal.
    pub fn feed_input(&mut self, input: NcInput)
        ensures
            *final(self) == (NcDirect { pending: final(self).pending, ..*old(self) }),
            final(self).pending@ == old(self).pending@.push(input),
    {
        self.pending.push(input);
    }

    /// The oldest queued input unit, taken off the queue; the NUL
    /// character with an untouched queue when none is waiting (as a read
    /// that found no input ready).
    pub fn getc_nblock(&mut self, input: &mut NcInput) -> (c: char)
        ensures
            old(self).pending@.len() == 0 ==> c == '\0' && *final(self) == *old(self) && *final(input) == *old(input),
            old(self).pending@.len() > 0 ==> ({
                &&& c == old(self).pending@[0].id
                &&& *final(input) == old(self).pending@[0]
                &&& *final(self) == (NcDirect { pending: final(self).pending, ..*old(self) })
                &&& final(self).pending@ == old(self).pending@.drop_first()
            }),
    {
        if self.pending.len() == 0 {
            return '\0';
        }
        let first = self.pending.remove(0);
        *input = first;
        proof {
            assert(self.pending@ =~= old(self).pending@.drop_first());
        }
        first.id
    }

    /// The oldest queued input unit, taken off the queue; the NUL
    /// character when none is waiting. The waiting itself is the
    /// embedding code's work: it reads the terminal and feeds the queue.
    pub fn getc_blocking(&mut self, input: &mut NcInput) -> (c: char)
        ensures
            old(self).pending@.len() == 0 ==> c == '\0' && *final(self) == *old(self) && *final(input) == *old(input),
            old(self).pending@.len() > 0 ==> ({
                &&& c == old(self).pending@[0].id
                &&& *final(input) == old(self).pending@[0]
                &&& *final(self) == (NcDirect { pending: final(self).pending, ..*old(self) })
                &&& final(self).pending@ == old(self).pending@.drop_first()
            }),
    {
        self.getc_nblock(input)
    }

    /// The oldest queued input unit as a character, bounded by `time`
    /// where given; with nothing queued, the call reports the NUL
    /// character, as a read that ran out of time does.
    pub fn getc(&mut self, time: Option<NcTime>, input: &mut NcInput) -> (r: NcResult<char>)
        ensures
            old(self).pending@.len() == 0 ==> r == Ok::<char, NcError>('\0') && *final(self)
                == *old(self) && *final(input) == *old(input),
            old(self).pending@.len() > 0 ==> ({
                &&& r == Ok::<char, NcError>(old(self).pending@[0].id)
                &&& *final(input) == old(self).pending@[0]
                &&& *final(self) == (NcDirect { pending: final(self).pending, ..*old(self) })
                &&& final(self).pending@ == old(self).pending@.drop_first()
            }),
    {
        let _ = time;
        Ok(self.getc_nblock(input))
    }
}

/// Relies on String::clone: the copy holds the same characters.
#[verifier::external_body]
fn clone_string(s: &String) -> (r: String)
    ensures
        r@ == s@,
{
    s.clone()
}

} // verus!
