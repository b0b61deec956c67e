//! Sessions and the context: lifecycle, piles, z-order and input.

use ncplanes::{
    Nc, NcCapabilities, NcDirect, NcInput, NcPileState, NcPlane, NcTerm, NCDIRECT_OPTION_INHIBIT_CBREAK,
};

fn caps() -> NcCapabilities {
    NcCapabilities {
        colors: 256,
        utf8: true,
        rgb: true,
        can_change_palette: false,
        halfblocks: true,
        quadrants: true,
        sextants: false,
        braille: true,
        images: false,
        videos: false,
    }
}

fn term(palette: u32, pixel: i32) -> NcTerm {
    NcTerm {
        is_tty: true,
        rows: 24,
        cols: 80,
        caps: caps(),
        palette_size: palette,
        pixel_support: pixel,
        name: "xterm-256color".to_string(),
    }
}

#[test]
fn session_opens_and_stops_once() {
    let d = NcDirect::new(term(256, 0)).unwrap();
    assert_eq!(d.dim_yx(), (24, 80));
    assert!(d.stop().is_ok());
}

#[test]
fn session_needs_a_terminal() {
    let mut t = term(256, 0);
    t.is_tty = false;
    assert!(NcDirect::new(t).is_err());
    let mut z = term(256, 0);
    z.rows = 0;
    assert!(NcDirect::new(z).is_err());
}

#[test]
fn with_flags_keeps_the_flags() {
    let d = NcDirect::with_flags(term(256, 0), NCDIRECT_OPTION_INHIBIT_CBREAK).unwrap();
    assert_eq!(d.flags, NCDIRECT_OPTION_INHIBIT_CBREAK);
}

#[test]
fn palette_size_treats_one_as_no_color_support() {
    let d = NcDirect::new(term(1, 0)).unwrap();
    let e = d.palette_size().unwrap_err();
    assert_eq!(e.code, 1);
    let ok = NcDirect::new(term(256, 0)).unwrap();
    assert_eq!(ok.palette_size().unwrap(), 256);
    let zero = NcDirect::new(term(0, 0)).unwrap();
    assert_eq!(zero.palette_size().unwrap(), 0);
}

#[test]
fn pixel_support_is_a_tri_state() {
    assert_eq!(NcDirect::new(term(256, 0)).unwrap().check_pixel_support().unwrap(), false);
    assert_eq!(NcDirect::new(term(256, 1)).unwrap().check_pixel_support().unwrap(), true);
    let e = NcDirect::new(term(256, -1)).unwrap().check_pixel_support().unwrap_err();
    assert_eq!(e.code, -1);
}

#[test]
fn capability_queries_mirror_the_probe() {
    let d = NcDirect::new(term(256, 0)).unwrap();
    assert!(d.canbraille());
    assert!(d.canhalfblock());
    assert!(d.canquadrant());
    assert!(!d.cansextant());
    assert!(d.cantruecolor());
    assert!(d.canutf8());
    assert!(!d.canchangecolor());
    assert!(d.canfade());
    assert!(!d.canopen_images());
    assert!(!d.canopen_videos());
    assert_eq!(d.capabilities(), caps());
    assert_eq!(d.detected_terminal(), "xterm-256color");
}

#[test]
fn direct_cursor_moves_clamp_at_the_edges() {
    let mut d = NcDirect::new(term(256, 0)).unwrap();
    d.cursor_set_yx(10, 40).unwrap();
    assert_eq!(d.cursor_yx().unwrap(), (10, 40));
    d.cursor_up(100).unwrap();
    assert_eq!(d.cursor_yx().unwrap(), (0, 40));
    d.cursor_down(100).unwrap();
    assert_eq!(d.cursor_yx().unwrap(), (23, 40));
    d.cursor_left(100).unwrap();
    assert_eq!(d.cursor_yx().unwrap(), (23, 0));
    d.cursor_right(100).unwrap();
    assert_eq!(d.cursor_yx().unwrap(), (23, 79));
    assert!(d.cursor_up(-1).is_err());
    assert!(d.cursor_set_yx(24, 0).is_err());
}

#[test]
fn direct_cursor_stack_pushes_and_pops() {
    let mut d = NcDirect::new(term(256, 0)).unwrap();
    d.cursor_set_yx(5, 6).unwrap();
    d.cursor_push().unwrap();
    d.cursor_set_yx(7, 8).unwrap();
    d.cursor_pop().unwrap();
    assert_eq!(d.cursor_yx().unwrap(), (5, 6));
    assert!(d.cursor_pop().is_err());
}

#[test]
fn direct_putstr_advances_with_wrapping() {
    let mut d = NcDirect::new(term(256, 0)).unwrap();
    let ink = ncplanes::ncchannels_combine(ncplanes::ncchannel_set(0, 0xffffff), 0);
    d.putstr(ink, "hello").unwrap();
    assert_eq!(d.cursor_yx().unwrap(), (0, 5));
    d.cursor_set_yx(0, 78).unwrap();
    d.putstr(ink, "abcd").unwrap();
    assert_eq!(d.cursor_yx().unwrap(), (1, 2));
}

#[test]
fn direct_putstr_refuses_a_doubly_default_foreground() {
    let mut d = NcDirect::new(term(256, 0)).unwrap();
    // A fresh session and a zero pair both mark the foreground default.
    assert!(d.putstr(0, "hello").is_err());
    assert_eq!(d.cursor_yx().unwrap(), (0, 0));
    // Once the session's foreground is set, a default pair is fine.
    d.set_fg_rgb8(1, 2, 3).unwrap();
    assert!(d.putstr(0, "hello").is_ok());
}

#[test]
fn direct_input_queues_through() {
    let mut d = NcDirect::new(term(256, 0)).unwrap();
    let mut input = NcInput::new();
    assert_eq!(d.getc_nblock(&mut input), '\0');
    d.feed_input(NcInput { id: 'k', alt: false, shift: false, ctrl: true });
    d.feed_input(NcInput { id: 'm', alt: true, shift: false, ctrl: false });
    assert_eq!(d.getc_blocking(&mut input), 'k');
    assert!(input.ctrl);
    assert_eq!(d.getc(None, &mut input).unwrap(), 'm');
    assert!(input.alt);
    assert_eq!(d.getc_nblock(&mut input), '\0');
}

#[test]
fn create_then_destroy_releases_exactly_once() {
    let (mut nc, _std) = Nc::new(24, 80).unwrap();
    let before_topo = nc.topo.len();
    let before_z = nc.zorder.len();
    let p = NcPlane::new(&mut nc, 0, 0, 3, 3).unwrap();
    assert_eq!(nc.topo.len(), before_topo + 1);
    assert!(p.destroy(&mut nc).is_ok());
    assert_eq!(nc.topo.len(), before_topo);
    assert_eq!(nc.zorder.len(), before_z);
    assert!(nc.stop().is_ok());
}

#[test]
fn bound_planes_join_their_binder_pile() {
    let (mut nc, _std) = Nc::new(24, 80).unwrap();
    let root = NcPlane::new(&mut nc, 0, 0, 3, 3).unwrap();
    let child = NcPlane::new_bound(&mut nc, &root, 1, 1, 2, 2).unwrap();
    let ce = nc.topo.iter().find(|e| e.id == child.id).unwrap();
    assert_eq!(ce.parent, Some(root.id));
    let re = nc.topo.iter().find(|e| e.id == root.id).unwrap();
    assert_eq!(ce.pile, re.pile);
}

#[test]
fn destroying_a_plane_rebinds_its_children() {
    let (mut nc, _std) = Nc::new(24, 80).unwrap();
    let root = NcPlane::new(&mut nc, 0, 0, 3, 3).unwrap();
    let mid = NcPlane::new_bound(&mut nc, &root, 0, 0, 2, 2).unwrap();
    let leaf = NcPlane::new_bound(&mut nc, &mid, 0, 0, 1, 1).unwrap();
    let mid_id = mid.id;
    mid.destroy(&mut nc).unwrap();
    let le = nc.topo.iter().find(|e| e.id == leaf.id).unwrap();
    assert_eq!(le.parent, Some(root.id));
    assert!(nc.topo.iter().all(|e| e.id != mid_id));
}

#[test]
fn reparenting_to_itself_follows_the_pile_root_rule() {
    let (mut nc, _std) = Nc::new(24, 80).unwrap();
    let root = NcPlane::new(&mut nc, 0, 0, 3, 3).unwrap();
    let child = NcPlane::new_bound(&mut nc, &root, 0, 0, 2, 2).unwrap();
    // Already a pile root: reparenting to itself changes nothing.
    let topo_before = nc.topo.clone();
    root.reparent(&mut nc, root.id).unwrap();
    assert_eq!(nc.topo, topo_before);
    // Bound: reparenting to itself makes it a new pile root.
    child.reparent(&mut nc, child.id).unwrap();
    let ce = nc.topo.iter().find(|e| e.id == child.id).unwrap();
    assert_eq!(ce.parent, None);
    assert_eq!(ce.pile, child.id);
}

#[test]
fn reparenting_moves_a_plane_between_piles() {
    let (mut nc, _std) = Nc::new(24, 80).unwrap();
    let a = NcPlane::new(&mut nc, 0, 0, 3, 3).unwrap();
    let b = NcPlane::new(&mut nc, 0, 0, 3, 3).unwrap();
    let child = NcPlane::new_bound(&mut nc, &a, 0, 0, 2, 2).unwrap();
    child.reparent(&mut nc, b.id).unwrap();
    let ce = nc.topo.iter().find(|e| e.id == child.id).unwrap();
    assert_eq!(ce.parent, Some(b.id));
    let be = nc.topo.iter().find(|e| e.id == b.id).unwrap();
    assert_eq!(ce.pile, be.pile);
    assert!(child.reparent(&mut nc, 99999).is_err());
}

#[test]
fn z_order_moves_to_top_and_bottom() {
    let (mut nc, _std) = Nc::new(24, 80).unwrap();
    let a = NcPlane::new(&mut nc, 0, 0, 2, 2).unwrap();
    let b = NcPlane::new(&mut nc, 0, 0, 2, 2).unwrap();
    assert_eq!(*nc.zorder.last().unwrap(), b.id);
    a.move_top(&mut nc);
    assert_eq!(*nc.zorder.last().unwrap(), a.id);
    a.move_bottom(&mut nc);
    assert_eq!(nc.zorder[0], a.id);
}

#[test]
fn render_then_rasterize_walks_the_pile_state_machine() {
    let (mut nc, _std) = Nc::new(24, 80).unwrap();
    let root = NcPlane::new(&mut nc, 0, 0, 3, 3).unwrap();
    let child = NcPlane::new_bound(&mut nc, &root, 0, 0, 2, 2).unwrap();
    let state_of = |nc: &Nc, id: u64| nc.topo.iter().find(|e| e.id == id).unwrap().state;
    assert_eq!(state_of(&nc, root.id), NcPileState::Unrendered);
    root.render(&mut nc).unwrap();
    assert_eq!(state_of(&nc, root.id), NcPileState::Rendered);
    assert_eq!(state_of(&nc, child.id), NcPileState::Rendered);
    root.rasterize(&mut nc).unwrap();
    assert_eq!(state_of(&nc, child.id), NcPileState::Rasterized);
    let other = NcPlane::new(&mut nc, 0, 0, 2, 2).unwrap();
    other.render2(&mut nc).unwrap();
    assert_eq!(state_of(&nc, other.id), NcPileState::Rasterized);
    assert_eq!(state_of(&nc, root.id), NcPileState::Rasterized);
}

#[test]
fn family_moves_keep_relative_order() {
    let (mut nc, _std) = Nc::new(24, 80).unwrap();
    let a = NcPlane::new(&mut nc, 0, 0, 2, 2).unwrap();
    let b = NcPlane::new(&mut nc, 0, 0, 2, 2).unwrap();
    let c1 = NcPlane::new_bound(&mut nc, &a, 0, 0, 1, 1).unwrap();
    let d = NcPlane::new(&mut nc, 0, 0, 2, 2).unwrap();
    let c2 = NcPlane::new_bound(&mut nc, &c1, 0, 0, 1, 1).unwrap();
    // Bottom to top: std, a, b, c1, d, c2.
    a.move_family_top(&mut nc);
    let z = nc.zorder.clone();
    let n = z.len();
    // The family a, c1, c2 sits on top, in its old relative order.
    assert_eq!(&z[n - 3..], &[a.id, c1.id, c2.id]);
    // The others keep their relative order below.
    assert_eq!(z[n - 5], b.id);
    assert_eq!(z[n - 4], d.id);
    a.move_family_bottom(&mut nc);
    let z2 = nc.zorder.clone();
    assert_eq!(&z2[..3], &[a.id, c1.id, c2.id]);
}

#[test]
fn dup_copies_content_and_sits_above_its_source() {
    let (mut nc, _std) = Nc::new(24, 80).unwrap();
    let root = NcPlane::new(&mut nc, 0, 0, 2, 3).unwrap();
    let mut src = NcPlane::new_bound(&mut nc, &root, 1, 1, 1, 3).unwrap();
    let _cover = NcPlane::new(&mut nc, 0, 0, 1, 1).unwrap();
    src.putstr("xyz").unwrap();
    let copy = src.dup(&mut nc).unwrap();
    assert_eq!(copy.contents(Some(0), Some(0), None, None), "xyz");
    assert_eq!((copy.rows(), copy.cols()), (1, 3));
    assert!(!copy.is_std);
    let se = nc.topo.iter().find(|e| e.id == src.id).unwrap();
    let ce = nc.topo.iter().find(|e| e.id == copy.id).unwrap();
    assert_eq!(ce.parent, se.parent);
    assert_eq!(ce.pile, se.pile);
    let zpos = nc.zorder.iter().position(|&v| v == src.id).unwrap();
    assert_eq!(nc.zorder[zpos + 1], copy.id);
}

#[test]
fn reparent_family_carries_the_subtree() {
    let (mut nc, _std) = Nc::new(24, 80).unwrap();
    let a = NcPlane::new(&mut nc, 0, 0, 2, 2).unwrap();
    let b = NcPlane::new(&mut nc, 0, 0, 2, 2).unwrap();
    let mid = NcPlane::new_bound(&mut nc, &a, 0, 0, 1, 1).unwrap();
    let leaf = NcPlane::new_bound(&mut nc, &mid, 0, 0, 1, 1).unwrap();
    mid.reparent_family(&mut nc, b.id).unwrap();
    let me = nc.topo.iter().find(|e| e.id == mid.id).unwrap();
    let le = nc.topo.iter().find(|e| e.id == leaf.id).unwrap();
    let be = nc.topo.iter().find(|e| e.id == b.id).unwrap();
    assert_eq!(me.parent, Some(b.id));
    // The bound plane keeps its binding and follows into the new pile.
    assert_eq!(le.parent, Some(mid.id));
    assert_eq!(me.pile, be.pile);
    assert_eq!(le.pile, be.pile);
    // Binding a plane into its own family is refused.
    assert!(mid.reparent_family(&mut nc, leaf.id).is_err());
    assert!(mid.reparent_family(&mut nc, mid.id).is_err());
}

#[test]
fn move_above_and_below_splice_one_plane() {
    let (mut nc, _std) = Nc::new(24, 80).unwrap();
    let a = NcPlane::new(&mut nc, 0, 0, 2, 2).unwrap();
    let b = NcPlane::new(&mut nc, 0, 0, 2, 2).unwrap();
    let c = NcPlane::new(&mut nc, 0, 0, 2, 2).unwrap();
    // Bottom to top: std, a, b, c.
    a.move_above(&mut nc, b.id).unwrap();
    let pos = |nc: &Nc, id: u64| nc.zorder.iter().position(|&v| v == id).unwrap();
    assert_eq!(pos(&nc, a.id), pos(&nc, b.id) + 1);
    // Moving it above the same plane again has nothing to do.
    assert!(a.move_above(&mut nc, b.id).is_err());
    c.move_below(&mut nc, b.id).unwrap();
    assert_eq!(pos(&nc, b.id), pos(&nc, c.id) + 1);
    assert!(a.move_above(&mut nc, a.id).is_err());
    assert!(a.move_above(&mut nc, 99999).is_err());
}

#[test]
fn family_splices_sit_against_their_target() {
    let (mut nc, _std) = Nc::new(24, 80).unwrap();
    let a = NcPlane::new(&mut nc, 0, 0, 2, 2).unwrap();
    let kid = NcPlane::new_bound(&mut nc, &a, 0, 0, 1, 1).unwrap();
    let b = NcPlane::new(&mut nc, 0, 0, 2, 2).unwrap();
    let c = NcPlane::new(&mut nc, 0, 0, 2, 2).unwrap();
    // Bottom to top: std, a, kid, b, c.
    a.move_family_above(&mut nc, b.id).unwrap();
    let pos = |nc: &Nc, id: u64| nc.zorder.iter().position(|&v| v == id).unwrap();
    assert_eq!(pos(&nc, a.id), pos(&nc, b.id) + 1);
    assert_eq!(pos(&nc, kid.id), pos(&nc, a.id) + 1);
    assert_eq!(pos(&nc, c.id), pos(&nc, kid.id) + 1);
    a.move_family_below(&mut nc, c.id).unwrap();
    assert_eq!(pos(&nc, kid.id) + 1, pos(&nc, c.id));
    assert_eq!(pos(&nc, a.id) + 1, pos(&nc, kid.id));
    // A target inside the family is refused.
    assert!(a.move_family_above(&mut nc, kid.id).is_err());
}

#[test]
fn pile_neighbour_queries_walk_the_z_order() {
    let (mut nc, _std) = Nc::new(24, 80).unwrap();
    let a = NcPlane::new(&mut nc, 0, 0, 2, 2).unwrap();
    let kid = NcPlane::new_bound(&mut nc, &a, 0, 0, 1, 1).unwrap();
    let other = NcPlane::new(&mut nc, 0, 0, 2, 2).unwrap();
    let crown = NcPlane::new_bound(&mut nc, &kid, 0, 0, 1, 1).unwrap();
    // Bottom to top: std, a, kid, other (its own pile), crown.
    assert_eq!(a.top(&nc).unwrap(), crown.id);
    assert_eq!(crown.bottom(&nc).unwrap(), a.id);
    assert_eq!(a.above(&nc), Some(kid.id));
    assert_eq!(kid.above(&nc), Some(crown.id));
    assert_eq!(crown.above(&nc), None);
    assert_eq!(kid.below(&nc), Some(a.id));
    assert_eq!(a.below(&nc), None);
    assert_eq!(other.top(&nc).unwrap(), other.id);
    assert_eq!(kid.parent(&nc).unwrap(), a.id);
    assert!(a.parent(&nc).is_err());
}

#[test]
fn fading_scales_components_and_keeps_the_ends() {
    let ink = ncplanes::ncchannels_combine(
        ncplanes::ncchannel_set(0, 0x80_40_20),
        ncplanes::ncchannel_set(0, 0xff_00_ff),
    );
    assert_eq!(ncplanes::faded_channels(ink, 10, 10), ink);
    let dark = ncplanes::faded_channels(ink, 0, 10);
    assert_eq!(ncplanes::ncchannel_rgb(ncplanes::ncchannels_fchannel(dark)), 0);
    assert_eq!(ncplanes::ncchannel_rgb(ncplanes::ncchannels_bchannel(dark)), 0);
    let half = ncplanes::faded_channels(ink, 5, 10);
    assert_eq!(ncplanes::ncchannel_rgb(ncplanes::ncchannels_fchannel(half)), 0x40_20_10);
    // Default-colored channels have no components to scale.
    assert_eq!(ncplanes::faded_channels(0, 3, 10), 0);
}

#[test]
fn direct_box_cells_carry_the_six_glyph_convention() {
    let ul = ncplanes::ncchannels_combine(ncplanes::ncchannel_set(0, 0x111111), 0);
    let lr = ncplanes::ncchannels_combine(ncplanes::ncchannel_set(0, 0x222222), 0);
    let g = ['\u{2554}', '\u{2557}', '\u{255a}', '\u{255d}', '\u{2550}', '\u{2551}'];
    let corner = ncplanes::direct_box_cell(
        ul, ul, ul, lr, g[0], g[1], g[2], g[3], g[4], g[5], 3, 3, 0, 0, 0,
    )
    .unwrap();
    assert_eq!(corner.gcluster, '\u{2554}');
    assert_eq!(corner.channels, ul);
    let edge = ncplanes::direct_box_cell(
        ul, ul, ul, lr, g[0], g[1], g[2], g[3], g[4], g[5], 3, 3, 0, 0, 1,
    )
    .unwrap();
    assert_eq!(edge.gcluster, '\u{2550}');
    let inside = ncplanes::direct_box_cell(
        ul, ul, ul, lr, g[0], g[1], g[2], g[3], g[4], g[5], 3, 3, 0, 1, 1,
    );
    assert!(inside.is_none());
    let masked = ncplanes::direct_box_cell(
        ul, ul, ul, lr, g[0], g[1], g[2], g[3], g[4], g[5], 3, 3, ncplanes::NCBOXMASK_TOP, 0, 1,
    );
    assert!(masked.is_none());
}

#[test]
fn direct_line_cells_blend_between_their_ends() {
    let c0 = ncplanes::ncchannels_combine(ncplanes::ncchannel_set(0, 0), 0);
    let c1 = ncplanes::ncchannels_combine(ncplanes::ncchannel_set(0, 0xfe_fe_fe), 0);
    let mid = ncplanes::direct_line_cell('-', 1, 3, c0, c1);
    assert_eq!(mid.gcluster, '-');
    let f = ncplanes::ncchannels_fchannel(mid.channels);
    assert_eq!(ncplanes::ncchannel_rgb(f), 0x7f_7f_7f);
}

#[test]
fn with_termsize_covers_the_terminal() {
    let (mut nc, _std) = Nc::new(24, 80).unwrap();
    let p = NcPlane::with_termsize(&mut nc).unwrap();
    assert_eq!((p.rows(), p.cols()), (24, 80));
    assert!(!p.is_std);
}
