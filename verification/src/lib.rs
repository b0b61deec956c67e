//! A terminal-graphics surface library: direct-mode sessions and
//! retained-mode cell planes.
//!
//! Every operation keeps its whole observable state in plain data: a plane is
//! a rectangle of cells with a cursor, current channels and styles; a context
//! owns the tree ("pile") relationships and the render state of every pile; a
//! direct-mode session tracks the terminal it was opened on. Raw integer
//! result codes follow the sentinel convention (negative reports failure) and
//! are translated into typed results at a single point. The byte stream that
//! actually reaches a terminal is produced by embedding code outside this
//! crate; everything the stream is produced from is specified and verified
//! here.

mod cell;
mod channel;
mod direct;
mod fade;
mod notcurses;
mod plane;
mod plane_opts;
mod plane_cells;
mod plane_fill;
mod plane_box;
mod plane_put;
mod plane_rect;
mod plane_rotate;
mod result;
mod text;
mod types;

pub use channel::{
    lemma_combine_splits, ncchannel_alpha, ncchannel_default_p, ncchannel_palindex,
    ncchannel_palindex_p, ncchannel_rgb, ncchannel_rgb8, ncchannel_set, ncchannel_set_alpha,
    ncchannel_set_default, ncchannel_set_not_default, ncchannel_set_palindex, ncchannel_set_rgb8,
    ncchannels_bchannel, ncchannels_combine, ncchannels_fchannel, ncchannels_set_bchannel,
    ncchannels_set_fchannel, spec_bchannel, spec_channel_alpha, spec_channel_default_p,
    spec_channel_defaulted, spec_channel_palindex_p, spec_channel_rgb, spec_channel_with_alpha,
    spec_channel_with_palindex,
    spec_channel_with_rgb, spec_channel_with_rgb8, spec_combine, spec_fchannel, NCALPHA_BLEND,
    NCALPHA_HIGHCONTRAST, NCALPHA_OPAQUE, NCALPHA_TRANSPARENT, NC_BGDEFAULT_MASK,
    NC_BG_ALPHA_MASK, NC_BG_PALETTE, NC_BG_RGB_MASK,
};
pub use cell::{blank_cell, spec_utf8_len, utf8_len, NcCell};
pub use plane::{
    only_channels_changed, only_cursor_changed, only_styles_changed, NcPlane,
};
pub use plane_cells::{
    contents_end, glyph_seq, region_contents, resize_ok, resized_cell, resolve_coord,
    row_contents, span_end, span_lo,
};
pub use plane_put::{
    line_feed, put_cell1, put_seq, put_state, put_text_post, put_upto, scrolled_cells,
    utf8_prefix, utf8_prefix_from, PutOutcome, PutState, NCPUT_MAX_CHARS,
};
pub use notcurses::{
    family_member, family_split, id_index, id_index_from, in_family, is_pile_member,
    pile_member_at_or_above, pile_member_at_or_below,
    lemma_create_then_destroy_round_trip, lemma_topo_index_from, lemma_topo_index_same_ids, move_back, move_front, pile_state_set,
    plane_geometry_ok, promoted_topo, remove_id, topo_index, topo_index_from, Nc, NcPileState,
    NcTopo,
};
pub use plane_opts::{
    NcPlaneOptions, NcResizeCb, NCPLANE_OPTION_HORALIGNED, NCPLANE_OPTION_MARGINALIZED,
    NCPLANE_OPTION_VERALIGNED,
};
pub use plane_rect::{
    spec_grad_args_ok, spec_grad_channel, spec_grad_channel_args_ok, spec_grad_channels,
    spec_grad_comp, spec_grad_shape_ok, spec_grad2x1_channels, spec_half_block, merged_cell,
    resolve_len, stop_coord,
};
pub use direct::{
    NcCapabilities, NcDirect, NcInput, NcTerm, NcTime, NCDIRECT_OPTION_INHIBIT_CBREAK,
    NCDIRECT_OPTION_INHIBIT_SETLOCALE,
};
pub use plane_box::{
    box_post, direct_box_cell, direct_line_cell, double_box_cells, rounded_box_cells,
    spec_box_cell, spec_corner_on, spec_direct_box_cell,
    spec_hline_cell, spec_sides_on, spec_vline_cell, NCBOXCORNER_MASK,
    NCBOXCORNER_SHIFT, NCBOXGRAD_BOTTOM, NCBOXGRAD_LEFT, NCBOXGRAD_RIGHT, NCBOXGRAD_TOP,
    NCBOXMASK_BOTTOM, NCBOXMASK_LEFT, NCBOXMASK_RIGHT, NCBOXMASK_TOP,
};
pub use plane_rotate::{
    spec_all_rotatable, spec_rot_ccw, spec_rot_cw, spec_rotatable, spec_rotate_ok,
    spec_rotated_ccw_cell, spec_rotated_cw_cell,
};
pub use fade::{faded_channel, faded_channels, spec_faded_channel, spec_faded_channels, spec_faded_comp};
pub use plane_fill::{fill_count, fill_member, in_fill};
pub use result::{NcError, NcIntResult, NcResult};
pub use result::{count_result, unit_result, NCRESULT_ERR, NCRESULT_MAX, NCRESULT_OK};
pub use types::{
    dim_min, notcurses_align, spec_align_pos, NcAlign, NcAlpha, NcBoxMask, NcChannel, NcChannels, NcComponent, NcDim,
    NcDirectFlags, NcOffset, NcPaletteIndex, NcRgb, NcStyle, NCSTYLE_BOLD, NCSTYLE_ITALIC,
    NCSTYLE_MASK, NCSTYLE_NONE, NCSTYLE_STRUCK, NCSTYLE_UNDERCURL, NCSTYLE_UNDERLINE,
};
