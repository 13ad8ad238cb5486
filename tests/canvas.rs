use skin_to_totem::canvas::{Canvas, Point, RangeError};
use skin_to_totem::color::{pack_rgba, TRANSPARENT};

fn filled(width: usize, height: usize, c: u32) -> Canvas {
    Canvas::from_pixels(width, height, vec![c; width * height])
}

#[test]
fn new_canvas_is_transparent() {
    let c = Canvas::new(3, 2);
    assert_eq!((c.width(), c.height()), (3, 2));
    for y in 0..2 {
        for x in 0..3 {
            assert_eq!(c.get(x, y), TRANSPARENT);
        }
    }
}

#[test]
fn from_pixels_is_row_major() {
    let c = Canvas::from_pixels(2, 2, vec![1, 2, 3, 4]);
    assert_eq!(c.get(1, 0), 2);
    assert_eq!(c.get(0, 1), 3);
}

#[test]
fn clear_rect_clears_inside_and_keeps_outside() {
    let mut c = filled(6, 5, 0xaabb_ccff);
    assert_eq!(c.clear_rect(Point::new(1, 2), Point::new(3, 2)), Ok(()));
    for y in 0..5 {
        for x in 0..6 {
            let inside = (1..4).contains(&x) && (2..4).contains(&y);
            let expected = if inside { TRANSPARENT } else { 0xaabb_ccff };
            assert_eq!(c.get(x, y), expected, "pixel ({}, {})", x, y);
        }
    }
}

#[test]
fn clear_rect_zero_size_is_refused() {
    for n in [0u8, 1, 7, 255] {
        let mut c = filled(4, 4, 7);
        assert_eq!(c.clear_rect(Point::new(0, 0), Point::new(0, n)), Err(RangeError::ZeroSize));
        assert_eq!(c.clear_rect(Point::new(0, 0), Point::new(n, 0)), Err(RangeError::ZeroSize));
        assert_eq!(c.get(0, 0), 7);
    }
}

#[test]
fn clear_rect_overflow_is_refused() {
    let mut c = filled(4, 4, 7);
    assert_eq!(c.clear_rect(Point::new(250, 0), Point::new(10, 1)), Err(RangeError::Overflow));
    assert_eq!(c.clear_rect(Point::new(0, 255), Point::new(1, 1)), Err(RangeError::Overflow));
    assert_eq!(c.get(0, 0), 7);
}

#[test]
fn blit_opaque_uniform_source_overwrites() {
    let red = pack_rgba(255, 0, 0, 255);
    let src = filled(8, 8, red);
    let mut dest = Canvas::from_pixels(4, 4, (0..16).map(|i| pack_rgba(i, 2 * i, 3, 90)).collect());
    assert_eq!(dest.blit(&src, Point::new(2, 3), Point::new(3, 2), Point::new(1, 1)), Ok(()));
    for y in 0..4 {
        for x in 0..4 {
            let inside = (1..4).contains(&x) && (1..3).contains(&y);
            if inside {
                assert_eq!(dest.get(x, y), red);
            } else {
                let i = (y * 4 + x) as u8;
                assert_eq!(dest.get(x, y), pack_rgba(i, 2 * i, 3, 90));
            }
        }
    }
}

#[test]
fn blit_composites_over_existing_pixels() {
    let src = Canvas::from_pixels(2, 1, vec![TRANSPARENT, pack_rgba(10, 20, 30, 64)]);
    let mut dest = filled(2, 1, pack_rgba(200, 100, 50, 128));
    assert_eq!(dest.blit(&src, Point::new(0, 0), Point::new(2, 1), Point::new(0, 0)), Ok(()));
    assert_eq!(dest.get(0, 0), pack_rgba(200, 100, 50, 128));
    assert_eq!(dest.get(1, 0), pack_rgba(162, 84, 46, 159));
}

#[test]
fn blit_copies_the_right_window() {
    let src = Canvas::from_pixels(3, 3, (1..10).map(|i| pack_rgba(i, 0, 0, 255)).collect());
    let mut dest = Canvas::new(2, 2);
    assert_eq!(dest.blit(&src, Point::new(1, 1), Point::new(2, 2), Point::new(0, 0)), Ok(()));
    assert_eq!(dest.get(0, 0), pack_rgba(5, 0, 0, 255));
    assert_eq!(dest.get(1, 0), pack_rgba(6, 0, 0, 255));
    assert_eq!(dest.get(0, 1), pack_rgba(8, 0, 0, 255));
    assert_eq!(dest.get(1, 1), pack_rgba(9, 0, 0, 255));
}

#[test]
fn blit_errors_leave_canvas_unchanged() {
    let src = filled(4, 4, 0xffff_ffff);
    let mut dest = filled(4, 4, 5);
    assert_eq!(dest.blit(&src, Point::new(0, 0), Point::new(0, 2), Point::new(0, 0)), Err(RangeError::ZeroSize));
    assert_eq!(dest.blit(&src, Point::new(200, 0), Point::new(60, 1), Point::new(0, 0)), Err(RangeError::Overflow));
    assert_eq!(dest.blit(&src, Point::new(0, 0), Point::new(1, 1), Point::new(0, 255)), Err(RangeError::Overflow));
    assert_eq!(dest.get(0, 0), 5);
}
