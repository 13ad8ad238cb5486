use skin_to_totem::canvas::Canvas;
use skin_to_totem::color::{pack_rgba, TRANSPARENT};
use skin_to_totem::layout::{base_layout_ops, build, second_layer_ops, LayoutError, LayoutOp};
use skin_to_totem::raster::decode;

fn uniform_skin(c: u32) -> Canvas {
    Canvas::from_pixels(64, 64, vec![c; 64 * 64])
}

#[test]
fn layouts_have_their_steps() {
    assert_eq!(base_layout_ops().len(), 27);
    assert_eq!(second_layer_ops().len(), 25);
    assert!(matches!(base_layout_ops()[1], LayoutOp::Clear { .. }));
}

#[test]
fn build_refuses_other_sizes() {
    for (w, h) in [(32, 32), (64, 32), (32, 64), (65, 64)] {
        let skin = Canvas::new(w, h);
        assert!(matches!(build(&skin, false), Err(LayoutError::InvalidSkinDimensions)));
        assert!(matches!(build(&skin, true), Err(LayoutError::InvalidSkinDimensions)));
    }
}

#[test]
fn build_makes_a_16x16_totem() {
    let totem = build(&uniform_skin(0xffff_ffff), true).unwrap();
    assert_eq!((totem.width(), totem.height()), (16, 16));
}

#[test]
fn head_front_pixel_lands_on_totem() {
    let mut data = vec![0u8; 64 * 64 * 3];
    let i = (12 * 64 + 12) * 3;
    data[i] = 0xaa;
    let skin = decode(&data, 64, 64, 2, 8, &None).unwrap();
    let red = pack_rgba(0xaa, 0, 0, 0xff);
    assert_eq!(skin.get(12, 12), red);
    let totem = build(&skin, false).unwrap();
    assert_eq!(totem.get(8, 5), red);
    assert_eq!(totem.get(7, 5), TRANSPARENT);
}

#[test]
fn head_corners_are_cleared() {
    let white = pack_rgba(255, 255, 255, 255);
    let totem = build(&uniform_skin(white), false).unwrap();
    assert_eq!(totem.get(4, 1), TRANSPARENT);
    assert_eq!(totem.get(11, 1), TRANSPARENT);
    assert_eq!(totem.get(5, 1), white);
}

#[test]
fn untargeted_pixels_stay_transparent_without_second_layer() {
    let white = pack_rgba(255, 255, 255, 255);
    let totem = build(&uniform_skin(white), false).unwrap();
    for (x, y) in [(0, 0), (15, 15), (0, 8), (15, 8), (4, 14), (11, 15)] {
        assert_eq!(totem.get(x, y), TRANSPARENT, "pixel ({}, {})", x, y);
    }
}

#[test]
fn second_layer_paints_over_the_base() {
    let mut pixels = vec![pack_rgba(10, 10, 10, 255); 64 * 64];
    // The hat's front face, whose (4, 4) lands on the totem at (8, 5).
    pixels[12 * 64 + 44] = pack_rgba(0, 200, 0, 255);
    let skin = Canvas::from_pixels(64, 64, pixels);
    let without = build(&skin, false).unwrap();
    let with = build(&skin, true).unwrap();
    assert_eq!(without.get(8, 5), pack_rgba(10, 10, 10, 255));
    assert_eq!(with.get(8, 5), pack_rgba(0, 200, 0, 255));
}

#[test]
fn transparent_second_layer_keeps_the_base() {
    let mut pixels = vec![TRANSPARENT; 64 * 64];
    for y in 8..16 {
        for x in 8..16 {
            pixels[y * 64 + x] = pack_rgba(1, 2, 3, 255);
        }
    }
    let skin = Canvas::from_pixels(64, 64, pixels);
    let totem = build(&skin, true).unwrap();
    assert_eq!(totem.get(6, 4), pack_rgba(1, 2, 3, 255));
}

fn in_base_footprint(x: usize, y: usize) -> bool {
    ((4..12).contains(&x) && (1..13).contains(&y))
        || ((5..11).contains(&x) && (13..15).contains(&y))
        || ((6..10).contains(&x) && y == 15)
        || ((x == 1 || x == 14) && (8..10).contains(&y))
        || ([2, 3, 12, 13].contains(&x) && (8..11).contains(&y))
}

#[test]
fn pixels_outside_the_base_footprint_stay_transparent() {
    let white = pack_rgba(255, 255, 255, 255);
    let totem = build(&uniform_skin(white), false).unwrap();
    for y in 0..16 {
        for x in 0..16 {
            if in_base_footprint(x, y) {
                if !((x == 4 || x == 11) && y == 1) {
                    assert_eq!(totem.get(x, y), white, "pixel ({}, {})", x, y);
                }
            } else {
                assert_eq!(totem.get(x, y), TRANSPARENT, "pixel ({}, {})", x, y);
            }
        }
    }
}

#[test]
fn second_layer_writes_only_inside_the_base_footprint() {
    let white = pack_rgba(255, 255, 255, 255);
    let totem = build(&uniform_skin(white), true).unwrap();
    for y in 0..16 {
        for x in 0..16 {
            if !in_base_footprint(x, y) {
                assert_eq!(totem.get(x, y), TRANSPARENT, "pixel ({}, {})", x, y);
            }
        }
    }
}
