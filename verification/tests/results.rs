//! Sentinel translation, channels, alignment and cell helpers.

use ncplanes::{
    count_result, ncchannel_alpha, ncchannel_default_p, ncchannel_rgb8, ncchannel_set,
    ncchannel_set_alpha, ncchannel_set_default, ncchannel_set_not_default, ncchannel_set_rgb8,
    ncchannels_bchannel, ncchannels_combine, ncchannels_fchannel, notcurses_align, unit_result,
    utf8_len, NcAlign, NcCell, NCALPHA_BLEND, NCALPHA_OPAQUE, NCALPHA_TRANSPARENT,
    NC_BGDEFAULT_MASK, NC_BG_ALPHA_MASK, NC_BG_PALETTE, NCRESULT_ERR, NCRESULT_MAX,
};

#[test]
fn sentinel_failure_codes_become_errors() {
    assert!(unit_result(-1, "op").is_err());
    assert!(unit_result(i32::MIN, "op").is_err());
    assert!(count_result(NCRESULT_ERR, "op").is_err());
    assert!(count_result(-77, "op").is_err());
    let e = count_result(-77, "op").unwrap_err();
    assert_eq!(e.code, -77);
}

#[test]
fn successful_codes_never_become_errors() {
    assert!(unit_result(0, "op").is_ok());
    assert!(unit_result(NCRESULT_MAX, "op").is_ok());
    assert!(count_result(0, "op").is_ok());
}

#[test]
fn counts_come_back_exactly_as_reported() {
    assert_eq!(count_result(0, "op").unwrap(), 0);
    assert_eq!(count_result(1, "op").unwrap(), 1);
    assert_eq!(count_result(256, "op").unwrap(), 256);
    assert_eq!(count_result(NCRESULT_MAX, "op").unwrap(), NCRESULT_MAX as u32);
}

#[test]
fn channel_pair_splits_into_its_halves() {
    let ch = ncchannels_combine(0x40ff8001, 0x4000a0b0);
    assert_eq!(ncchannels_fchannel(ch), 0x40ff8001);
    assert_eq!(ncchannels_bchannel(ch), 0x4000a0b0);
}

#[test]
fn channel_rgb_components_round_trip() {
    let c = ncchannel_set_rgb8(0, 0x12, 0x34, 0x56);
    assert_eq!(ncchannel_rgb8(c), (0x12, 0x34, 0x56));
    assert!(!ncchannel_default_p(c));
    assert_eq!(c & NC_BG_PALETTE, 0);
}

#[test]
fn channel_default_marking() {
    let c = ncchannel_set(0, 0xaabbcc);
    assert!(!ncchannel_default_p(c));
    let d = ncchannel_set_default(c);
    assert!(ncchannel_default_p(d));
    assert_eq!(d & NC_BG_ALPHA_MASK, 0);
    let n = ncchannel_set_not_default(d);
    assert_eq!(n & NC_BGDEFAULT_MASK, NC_BGDEFAULT_MASK);
}

#[test]
fn channel_alpha_levels() {
    let c = ncchannel_set_alpha(0, NCALPHA_TRANSPARENT).unwrap();
    assert_eq!(ncchannel_alpha(c), NCALPHA_TRANSPARENT);
    assert!(!ncchannel_default_p(c));
    let o = ncchannel_set_alpha(0, NCALPHA_OPAQUE).unwrap();
    assert_eq!(ncchannel_alpha(o), NCALPHA_OPAQUE);
    assert!(ncchannel_set_alpha(0, NCALPHA_BLEND | 1).is_err());
}

#[test]
fn alignment_positions() {
    assert_eq!(notcurses_align(80, NcAlign::Left, 10).unwrap(), 0);
    assert_eq!(notcurses_align(80, NcAlign::Center, 10).unwrap(), 35);
    assert_eq!(notcurses_align(80, NcAlign::Right, 10).unwrap(), 70);
    assert_eq!(notcurses_align(81, NcAlign::Center, 10).unwrap(), 35);
    assert_eq!(notcurses_align(5, NcAlign::Center, 10).unwrap(), 0);
    let e = notcurses_align(80, NcAlign::Unaligned, 10).unwrap_err();
    assert_eq!(e.code, -NCRESULT_MAX);
}

#[test]
fn utf8_lengths() {
    assert_eq!(utf8_len('a'), 1);
    assert_eq!(utf8_len('\u{e9}'), 2);
    assert_eq!(utf8_len('\u{20ac}'), 3);
    assert_eq!(utf8_len('\u{1f600}'), 4);
}

#[test]
fn undrawn_cells() {
    let c = NcCell::new();
    assert!(c.undrawn());
    assert_eq!(c.stylemask, 0);
    assert_eq!(c.channels, 0);
    let d = NcCell::from_char('x');
    assert!(!d.undrawn());
    assert_eq!(d.gcluster, 'x');
}
