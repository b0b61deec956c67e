//! Plane content: writing, erasing, regions, boxes and merges.

use ncplanes::{
    ncchannel_set, ncchannels_combine, ncchannels_fchannel, Nc, NcAlign, NcCell, NcPlane,
    NcPlaneOptions, NCSTYLE_BOLD, NCSTYLE_ITALIC,
};

fn fresh_plane(rows: u32, cols: u32) -> (Nc, NcPlane) {
    let (mut nc, _std) = Nc::new(40, 120).unwrap();
    let p = NcPlane::new(&mut nc, 0, 0, rows, cols).unwrap();
    (nc, p)
}

#[test]
fn putstr_fills_a_row_and_parks_the_cursor() {
    let (_nc, mut p) = fresh_plane(2, 10);
    assert_eq!(p.putstr("0123456789").unwrap(), 10);
    assert_eq!(p.cursor_yx(), (0, 10));
    assert_eq!(p.contents(Some(0), Some(0), None, None), "0123456789");
}

#[test]
fn putstr_overflow_errs_without_scrolling() {
    let (_nc, mut p) = fresh_plane(2, 10);
    let e = p.putstr("01234567890").unwrap_err();
    assert_eq!(e.code, -1 - 10);
    assert_eq!(p.contents(Some(0), Some(0), Some(1), None), "0123456789");
    assert_eq!(p.cursor_yx(), (0, 10));
}

#[test]
fn putstr_wraps_on_a_scrolling_plane() {
    let (_nc, mut p) = fresh_plane(2, 10);
    p.set_scrolling(true);
    assert_eq!(p.putstr("01234567890").unwrap(), 11);
    assert_eq!(p.cursor_yx(), (1, 1));
    assert_eq!(p.contents(Some(1), Some(0), None, None), "0");
}

#[test]
fn putstr_scrolls_past_the_bottom() {
    let (_nc, mut p) = fresh_plane(2, 4);
    p.set_scrolling(true);
    assert_eq!(p.putstr("aaaabbbbcccc").unwrap(), 12);
    assert_eq!(p.contents(Some(0), Some(0), Some(1), None), "bbbb");
    assert_eq!(p.contents(Some(1), Some(0), Some(1), None), "cccc");
}

#[test]
fn putstrln_needs_scrolling() {
    let (_nc, mut p) = fresh_plane(3, 10);
    assert!(p.putstrln("hi").is_err());
    p.set_scrolling(true);
    assert_eq!(p.putstrln("hi").unwrap(), 2);
    assert_eq!(p.cursor_yx(), (1, 0));
}

#[test]
fn putchar_uses_current_styles_and_channels() {
    let (_nc, mut p) = fresh_plane(2, 4);
    p.set_styles(NCSTYLE_BOLD);
    p.set_fg_rgb8(1, 2, 3);
    p.putchar('q').unwrap();
    let mut cell = NcCell::new();
    p.at_yx_cell(0, 0, &mut cell).unwrap();
    assert_eq!(cell.gcluster, 'q');
    assert_eq!(cell.stylemask, NCSTYLE_BOLD);
    assert_eq!(cell.channels, p.channels());
}

#[test]
fn putchar_stained_keeps_the_cell_dress() {
    let (_nc, mut p) = fresh_plane(2, 4);
    p.set_styles(NCSTYLE_BOLD);
    p.putchar_yx(0, 0, 'a').unwrap();
    p.set_styles(NCSTYLE_ITALIC);
    p.cursor_move_yx(0, 0).unwrap();
    p.putchar_stained('b').unwrap();
    let mut cell = NcCell::new();
    p.at_yx_cell(0, 0, &mut cell).unwrap();
    assert_eq!(cell.gcluster, 'b');
    assert_eq!(cell.stylemask, NCSTYLE_BOLD);
}

#[test]
fn putegc_reports_bytes_consumed() {
    let (_nc, mut p) = fresh_plane(2, 4);
    let mut bytes: usize = 0;
    assert_eq!(p.putegc("\u{20ac}xyz", &mut bytes).unwrap(), 1);
    assert_eq!(bytes, 3);
    assert!(p.putegc("", &mut bytes).is_err());
    assert_eq!(bytes, 0);
}

#[test]
fn putnstr_honours_the_byte_budget() {
    let (_nc, mut p) = fresh_plane(2, 10);
    // Two euro signs take six bytes; a budget of five admits only one.
    assert_eq!(p.putnstr(5, "\u{20ac}\u{20ac}").unwrap(), 1);
    assert_eq!(p.contents(Some(0), Some(0), None, None), "\u{20ac}");
}

#[test]
fn putstr_aligned_centers_text() {
    let (_nc, mut p) = fresh_plane(2, 10);
    assert_eq!(p.putstr_aligned(Some(1), NcAlign::Center, "abcd").unwrap(), 4);
    let mut cell = NcCell::new();
    p.at_yx_cell(1, 3, &mut cell).unwrap();
    assert_eq!(cell.gcluster, 'a');
}

#[test]
fn erase_blanks_everything_and_homes_the_cursor() {
    let (_nc, mut p) = fresh_plane(2, 5);
    p.putstr("hello").unwrap();
    p.erase();
    assert_eq!(p.cursor_yx(), (0, 0));
    assert_eq!(p.contents(Some(0), Some(0), None, None), "");
}

#[test]
fn erase_region_with_zero_lengths_clears_the_whole_plane() {
    let (_nc, mut p) = fresh_plane(3, 5);
    p.putstr("abcde").unwrap();
    p.cursor_move_yx(1, 2).unwrap();
    p.erase_region(None, None, 0, 0).unwrap();
    assert_eq!(p.contents(Some(0), Some(0), None, None), "");
}

#[test]
fn erase_region_errs_when_the_cursor_is_parked_past_the_row() {
    let (_nc, mut p) = fresh_plane(2, 5);
    p.putstr("abcde").unwrap();
    // The cursor now rests one past the end of its row: not a legal cell.
    assert!(p.erase_region(None, None, 0, 0).is_err());
    assert_eq!(p.contents(Some(0), Some(0), None, None), "abcde");
}

#[test]
fn erase_region_errs_on_an_origin_off_the_plane() {
    let (_nc, mut p) = fresh_plane(3, 5);
    assert!(p.erase_region(Some(3), Some(0), 1, 1).is_err());
    assert!(p.erase_region(Some(0), Some(5), 0, 0).is_err());
}

#[test]
fn erase_region_negative_length_clears_before_the_origin() {
    let (_nc, mut p) = fresh_plane(1, 5);
    p.putstr("abcde").unwrap();
    p.erase_region(Some(0), Some(3), 1, -2).unwrap();
    // Columns 1 and 2 go; the origin column 3 stays.
    assert_eq!(p.contents(Some(0), Some(0), None, None), "ade");
}

#[test]
fn scrollup_shifts_rows() {
    let (_nc, mut p) = fresh_plane(3, 3);
    p.set_scrolling(true);
    p.putstr_yx(Some(0), Some(0), "aaa").unwrap();
    p.putstr_yx(Some(1), Some(0), "bbb").unwrap();
    p.putstr_yx(Some(2), Some(0), "ccc").unwrap();
    assert_eq!(p.scrollup(1).unwrap(), 1);
    assert_eq!(p.contents(Some(0), Some(0), Some(1), None), "bbb");
    assert_eq!(p.contents(Some(2), Some(0), Some(1), None), "");
}

#[test]
fn resize_simple_keeps_what_fits() {
    let (_nc, mut p) = fresh_plane(2, 4);
    p.putstr("wxyz").unwrap();
    p.resize_simple(1, 2).unwrap();
    assert_eq!(p.rows(), 1);
    assert_eq!(p.cols(), 2);
    assert_eq!(p.contents(Some(0), Some(0), None, None), "wx");
}

#[test]
fn resize_rejects_mismatched_kept_lengths() {
    let (_nc, mut p) = fresh_plane(4, 4);
    assert!(p.resize(0, 0, 2, 0, 0, 0, 6, 6).is_err());
    assert!(p.resize(0, 0, 0, 2, 0, 0, 6, 6).is_err());
    assert!(p.resize(0, 0, 2, 2, 0, 0, 1, 6).is_err());
    assert!(p.resize(0, 0, 2, 2, 0, 0, 6, 6).is_ok());
}

#[test]
fn the_standard_plane_is_fixed() {
    let (mut nc, mut std_plane) = Nc::new(10, 10).unwrap();
    assert!(std_plane.move_yx(1, 1).is_err());
    assert!(std_plane.resize_simple(5, 5).is_err());
    let r = std_plane.destroy(&mut nc);
    assert!(r.is_err());
}

#[test]
fn format_restyles_without_touching_glyphs() {
    let (_nc, mut p) = fresh_plane(2, 4);
    p.putstr("abcd").unwrap();
    let n = p.format(Some(0), Some(1), Some(0), Some(2), NCSTYLE_ITALIC).unwrap();
    assert_eq!(n, 4);
    let mut cell = NcCell::new();
    p.at_yx_cell(0, 1, &mut cell).unwrap();
    assert_eq!(cell.gcluster, 'b');
    assert_eq!(cell.stylemask, NCSTYLE_ITALIC);
    p.at_yx_cell(0, 0, &mut cell).unwrap();
    assert_eq!(cell.stylemask, 0);
}

#[test]
fn stain_interpolates_between_corner_channels() {
    let (_nc, mut p) = fresh_plane(1, 3);
    p.putstr("...").unwrap();
    let left = ncchannels_combine(ncchannel_set(0, 0), 0);
    let right = ncchannels_combine(ncchannel_set(0, 0xfe_fe_fe), 0);
    let n = p.stain(Some(0), Some(0), Some(0), Some(0), left, right, left, right).unwrap();
    assert_eq!(n, 3);
    let mut cell = NcCell::new();
    p.at_yx_cell(0, 1, &mut cell).unwrap();
    let mid = ncchannels_fchannel(cell.channels);
    assert_eq!(mid & 0xff_ff_ff, 0x7f_7f_7f);
}

#[test]
fn gradient_rejects_a_mismatched_single_row() {
    let (_nc, mut p) = fresh_plane(1, 4);
    let a = ncchannels_combine(ncchannel_set(0, 0x111111), ncchannel_set(0, 0));
    let b = ncchannels_combine(ncchannel_set(0, 0x222222), ncchannel_set(0, 0));
    // One row: the left pair and the right pair must each agree.
    assert!(p.gradient(Some(0), Some(0), Some(0), Some(0), "g", 0, a, b, b, a).is_err());
    let n = p.gradient(Some(0), Some(0), Some(0), Some(0), "g", 0, a, b, a, b).unwrap();
    assert_eq!(n, 4);
    assert_eq!(p.contents(Some(0), Some(0), None, None), "gggg");
}

#[test]
fn gradient2x1_lays_half_blocks() {
    let (_nc, mut p) = fresh_plane(2, 2);
    let c0 = ncchannel_set(0, 0x000000);
    let c1 = ncchannel_set(0, 0x303030);
    let n = p.gradient2x1(Some(0), Some(0), None, None, c0, c1, c0, c1).unwrap();
    assert_eq!(n, 4);
    let mut cell = NcCell::new();
    p.at_yx_cell(0, 0, &mut cell).unwrap();
    assert_eq!(cell.gcluster, '\u{2580}');
}

#[test]
fn mergedown_simple_without_intersection_changes_nothing() {
    let (mut nc, _std) = Nc::new(40, 120).unwrap();
    let mut dst = NcPlane::new(&mut nc, 0, 0, 2, 2).unwrap();
    let mut src = NcPlane::new(&mut nc, 20, 20, 2, 2).unwrap();
    dst.putstr("ab").unwrap();
    src.putstr("zz").unwrap();
    let before = dst.contents(Some(0), Some(0), None, None);
    assert!(dst.mergedown_simple(&src).is_ok());
    assert_eq!(dst.contents(Some(0), Some(0), None, None), before);
}

#[test]
fn mergedown_simple_lays_drawn_cells_over_the_overlap() {
    let (mut nc, _std) = Nc::new(40, 120).unwrap();
    let mut dst = NcPlane::new(&mut nc, 0, 0, 1, 4).unwrap();
    let mut src = NcPlane::new(&mut nc, 0, 2, 1, 4).unwrap();
    dst.putstr("aaaa").unwrap();
    src.putstr("z").unwrap();
    // Only the drawn source cell lands; undrawn ones show the target.
    dst.mergedown_simple(&src).unwrap();
    assert_eq!(dst.contents(Some(0), Some(0), None, None), "aaza");
}

#[test]
fn mergedown_checks_both_regions() {
    let (mut nc, _std) = Nc::new(40, 120).unwrap();
    let mut dst = NcPlane::new(&mut nc, 0, 0, 2, 2).unwrap();
    let src = NcPlane::new(&mut nc, 0, 0, 2, 2).unwrap();
    assert!(dst.mergedown(&src, Some(0), Some(0), Some(3), Some(1), Some(0), Some(0)).is_err());
    assert!(dst.mergedown(&src, Some(0), Some(0), Some(2), Some(2), Some(1), Some(0)).is_err());
    assert!(dst.mergedown(&src, Some(0), Some(0), Some(2), Some(2), Some(0), Some(0)).is_ok());
}

#[test]
fn double_box_sized_draws_the_double_glyphs() {
    let (_nc, mut p) = fresh_plane(4, 4);
    p.double_box_sized(0, 0, 3, 3, 0).unwrap();
    let mut cell = NcCell::new();
    p.at_yx_cell(0, 0, &mut cell).unwrap();
    assert_eq!(cell.gcluster, '\u{2554}');
    p.at_yx_cell(0, 2, &mut cell).unwrap();
    assert_eq!(cell.gcluster, '\u{2557}');
    p.at_yx_cell(2, 0, &mut cell).unwrap();
    assert_eq!(cell.gcluster, '\u{255a}');
    p.at_yx_cell(2, 2, &mut cell).unwrap();
    assert_eq!(cell.gcluster, '\u{255d}');
    p.at_yx_cell(0, 1, &mut cell).unwrap();
    assert_eq!(cell.gcluster, '\u{2550}');
    p.at_yx_cell(1, 0, &mut cell).unwrap();
    assert_eq!(cell.gcluster, '\u{2551}');
    p.at_yx_cell(1, 1, &mut cell).unwrap();
    assert!(cell.undrawn());
}

#[test]
fn perimeter_rounded_rings_the_plane() {
    let (_nc, mut p) = fresh_plane(3, 3);
    p.perimeter_rounded(0, 0, 0).unwrap();
    let mut cell = NcCell::new();
    p.at_yx_cell(0, 0, &mut cell).unwrap();
    assert_eq!(cell.gcluster, '\u{256d}');
    p.at_yx_cell(2, 2, &mut cell).unwrap();
    assert_eq!(cell.gcluster, '\u{256f}');
    p.at_yx_cell(1, 1, &mut cell).unwrap();
    assert!(cell.undrawn());
}

#[test]
fn box_masks_leave_sides_undrawn() {
    let (_nc, mut p) = fresh_plane(3, 3);
    // Skip the top side; its corners lose a connecting side but the
    // default corner bits still draw every corner.
    p.double_box_sized(0, 0, 3, 3, ncplanes::NCBOXMASK_TOP).unwrap();
    let mut cell = NcCell::new();
    p.at_yx_cell(0, 1, &mut cell).unwrap();
    assert!(cell.undrawn());
    p.at_yx_cell(2, 1, &mut cell).unwrap();
    assert_eq!(cell.gcluster, '\u{2550}');
}

#[test]
fn polyfill_floods_the_connected_region() {
    let (_nc, mut p) = fresh_plane(3, 4);
    // Row 0: "aab.", row 1: "a.b.", row 2: "aab." (dots stay undrawn).
    p.putstr_yx(Some(0), Some(0), "aab").unwrap();
    p.putstr_yx(Some(1), Some(0), "a").unwrap();
    p.putstr_yx(Some(1), Some(2), "b").unwrap();
    p.putstr_yx(Some(2), Some(0), "aab").unwrap();
    let ink = NcCell::from_char('z');
    // Five connected 'a' cells flood; the 'b' column does not.
    assert_eq!(p.polyfill_yx(0, 0, &ink).unwrap(), 5);
    assert_eq!(p.contents(Some(0), Some(0), Some(1), None), "zzb");
    assert_eq!(p.contents(Some(1), Some(0), Some(1), None), "zb");
    assert_eq!(p.contents(Some(2), Some(0), Some(1), None), "zzb");
    assert!(p.polyfill_yx(3, 0, &ink).is_err());
}

#[test]
fn polyfill_stays_inside_unlike_glyphs() {
    let (_nc, mut p) = fresh_plane(1, 4);
    p.putstr("xyxy").unwrap();
    let ink = NcCell::from_char('q');
    // Only the starting 'y' itself: its neighbours carry 'x'.
    assert_eq!(p.polyfill_yx(0, 1, &ink).unwrap(), 1);
    assert_eq!(p.contents(Some(0), Some(0), None, None), "xqxy");
}

#[test]
fn alpha_setters_write_the_alpha_bits() {
    let (_nc, mut p) = fresh_plane(2, 2);
    p.set_fg_alpha(ncplanes::NCALPHA_TRANSPARENT).unwrap();
    assert_eq!(p.fg_alpha(), ncplanes::NCALPHA_TRANSPARENT);
    // A level besides opaque also marks the half as not default.
    assert!(!p.fg_default());
    p.set_bg_alpha(ncplanes::NCALPHA_BLEND).unwrap();
    assert_eq!(p.bg_alpha(), ncplanes::NCALPHA_BLEND);
    assert!(p.set_fg_alpha(ncplanes::NCALPHA_BLEND | 1).is_err());
    assert_eq!(p.fg_alpha(), ncplanes::NCALPHA_TRANSPARENT);
}

#[test]
fn cursor_move_rel_keeps_a_half_finished_move() {
    let (_nc, mut p) = fresh_plane(4, 4);
    p.cursor_move_yx(1, 1).unwrap();
    // The row step fits, the column step does not: the row move stays.
    assert!(p.cursor_move_rel(2, 9).is_err());
    assert_eq!(p.cursor_yx(), (3, 1));
    // A row step that does not fit leaves the cursor untouched.
    assert!(p.cursor_move_rel(9, 0).is_err());
    assert_eq!(p.cursor_yx(), (3, 1));
    assert!(p.cursor_move_rel(-3, 2).is_ok());
    assert_eq!(p.cursor_yx(), (0, 3));
}

#[test]
fn options_builders_fill_the_record() {
    let o = NcPlaneOptions::new(2, 3, 4, 5);
    assert_eq!((o.y, o.x, o.rows, o.cols), (2, 3, 4, 5));
    assert_eq!(o.flags, 0);
    let a = NcPlaneOptions::new_aligned(1, NcAlign::Center, 2, 3);
    assert_eq!(a.flags & ncplanes::NCPLANE_OPTION_HORALIGNED, ncplanes::NCPLANE_OPTION_HORALIGNED);
    assert_eq!(a.halign, NcAlign::Center);
    let f = NcPlaneOptions::with_flags(0, 0, 1, 1, None, ncplanes::NCPLANE_OPTION_MARGINALIZED, 7, 8);
    assert_eq!(f.margin_b, 7);
    assert_eq!(f.margin_r, 8);
}

#[test]
fn rotation_needs_even_columns_and_turnable_glyphs() {
    let (_nc, mut p) = fresh_plane(2, 3);
    assert!(p.rotate_cw().is_err());
    let (_nc2, mut q) = fresh_plane(2, 2);
    q.putstr_yx(Some(0), Some(0), "ab").unwrap();
    assert!(q.rotate_cw().is_err());
    let (mut nc3, mut std_like) = ncplanes::Nc::new(10, 10).unwrap();
    assert!(std_like.rotate_cw().is_err());
    let _ = &mut nc3;
}

#[test]
fn rotation_turns_glyphs_and_swaps_the_extents() {
    let (_nc, mut p) = fresh_plane(1, 2);
    // A left half block turned clockwise points up.
    p.putstr_yx(Some(0), Some(0), "\u{258c} ").unwrap();
    p.rotate_cw().unwrap();
    assert_eq!((p.rows(), p.cols()), (1, 2));
    let mut cell = NcCell::new();
    p.at_yx_cell(0, 0, &mut cell).unwrap();
    assert_eq!(cell.gcluster, '\u{2580}');
    // Turning back the other way restores the glyph.
    p.rotate_ccw().unwrap();
    p.at_yx_cell(0, 0, &mut cell).unwrap();
    assert_eq!(cell.gcluster, '\u{258c}');
    assert_eq!(p.cursor_yx(), (0, 0));
}

#[test]
fn options_register_the_resize_callback() {
    let (mut nc, _std) = Nc::new(10, 80).unwrap();
    let o = NcPlaneOptions::with_flags(0, 0, 2, 2, Some(ncplanes::NcResizeCb), 0, 0, 0);
    let mut p = NcPlane::with_options(&mut nc, &o).unwrap();
    assert_eq!(p.resizecb(), Some(ncplanes::NcResizeCb));
    p.set_resizecb(None);
    assert_eq!(p.resizecb(), None);
}

#[test]
fn with_options_aligns_against_the_terminal() {
    let (mut nc, _std) = Nc::new(10, 80).unwrap();
    let o = NcPlaneOptions::new_aligned(0, NcAlign::Right, 2, 10);
    let p = NcPlane::with_options(&mut nc, &o).unwrap();
    assert_eq!(p.x(), 70);
    let bad = NcPlaneOptions::new_aligned(0, NcAlign::Unaligned, 2, 10);
    assert!(NcPlane::with_options(&mut nc, &bad).is_err());
}
