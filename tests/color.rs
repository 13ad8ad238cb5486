use skin_to_totem::color::{composite, pack_rgba, unpack_rgba, TRANSPARENT};

#[test]
fn pack_puts_red_first_and_alpha_last() {
    assert_eq!(pack_rgba(0x12, 0x34, 0x56, 0x78), 0x1234_5678);
    assert_eq!(unpack_rgba(0x1234_5678), (0x12, 0x34, 0x56, 0x78));
}

#[test]
fn pack_and_unpack_are_inverse() {
    for &c in &[0u32, 1, 0xff, 0xffff_ffff, 0xdead_beef, 0x0102_0304] {
        let (r, g, b, a) = unpack_rgba(c);
        assert_eq!(pack_rgba(r, g, b, a), c);
    }
}

#[test]
fn composite_on_transparent_base_gives_overlay() {
    for &c in &[0u32, 0x1020_3040, 0xffff_ffff, 0x0000_0001, 0x8000_0000] {
        assert_eq!(composite(TRANSPARENT, c), c);
    }
}

#[test]
fn composite_opaque_overlay_hides_base() {
    let over = pack_rgba(9, 8, 7, 255);
    for &base in &[0u32, 0x1020_3040, 0xffff_ffff, 0x0000_0080] {
        assert_eq!(composite(base, over), over);
    }
}

#[test]
fn composite_transparent_overlay_keeps_base() {
    for &c in &[0u32, 0x1020_3040, 0xffff_ffff, 0x0000_0080] {
        assert_eq!(composite(c, TRANSPARENT), c);
    }
}

#[test]
fn composite_blends_two_translucent_colors() {
    let base = pack_rgba(200, 100, 50, 128);
    let over = pack_rgba(10, 20, 30, 64);
    assert_eq!(composite(base, over), pack_rgba(162, 84, 46, 159));
}

#[test]
fn composite_over_opaque_base_stays_base_color() {
    let base = pack_rgba(200, 100, 50, 255);
    let over = pack_rgba(10, 20, 30, 100);
    assert_eq!(composite(base, over), pack_rgba(200, 100, 50, 255));
}

#[test]
fn composite_of_two_zero_alphas_is_transparent() {
    let base = pack_rgba(10, 0, 0, 0);
    let over = pack_rgba(0, 10, 0, 0);
    assert_eq!(composite(base, over), TRANSPARENT);
}

#[test]
fn composite_is_not_symmetric() {
    let a = pack_rgba(200, 0, 0, 128);
    let b = pack_rgba(0, 0, 200, 128);
    assert_ne!(composite(a, b), composite(b, a));
}
