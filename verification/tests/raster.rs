use rasterbuf::draw::{Color, ColorSpace, DrawError, Drawable, PixelBuffer, Style};
use rasterbuf::shapes::{Circle, Rect};

fn bytes_of(pb: &PixelBuffer) -> Vec<u8> {
    let mut out: Vec<u8> = Vec::new();
    pb.access(|raw| out.extend_from_slice(raw));
    out
}

fn pixel(bytes: &[u8], width: usize, bpp: usize, x: usize, y: usize) -> (u8, u8, u8) {
    let i = (width * y + x) * bpp;
    (bytes[i], bytes[i + 1], bytes[i + 2])
}

#[test]
fn fresh_rgb_buffer_is_zero_with_exact_length() {
    let pb = PixelBuffer::with_size(8, 8, ColorSpace::RGB);
    let bytes = bytes_of(&pb);
    assert_eq!(bytes.len(), 8 * 8 * 3);
    assert!(bytes.iter().all(|&b| b == 0));
    assert_eq!(pb.get_size(), (8, 8));
}

#[test]
fn fresh_four_byte_buffers_have_four_byte_strides() {
    let rgba = PixelBuffer::with_size(2, 3, ColorSpace::RGBA);
    assert_eq!(bytes_of(&rgba).len(), 2 * 3 * 4);
    let cymk = PixelBuffer::with_size(3, 2, ColorSpace::CYMK);
    assert_eq!(bytes_of(&cymk).len(), 3 * 2 * 4);
}

#[test]
fn new_buffer_is_empty() {
    let pb = PixelBuffer::new(ColorSpace::RGB);
    assert_eq!(pb.get_size(), (0, 0));
    assert_eq!(bytes_of(&pb).len(), 0);
}

#[test]
fn index_at_point_is_linear_in_both_coordinates() {
    let pb = PixelBuffer::with_size(8, 8, ColorSpace::RGB);
    assert_eq!(pb.index_at_point(0, 0), 0);
    assert_eq!(pb.index_at_point(3, 2), (8 * 2 + 3) * 3);
    let stride_y = 8 * 3;
    let stride_x = 3;
    for y in 0..7u32 {
        for x in 0..7u32 {
            let i = pb.index_at_point(x, y);
            assert_eq!(pb.index_at_point(x, y + 1), i + stride_y);
            assert_eq!(pb.index_at_point(x + 1, y), i + stride_x);
        }
    }
}

#[test]
fn index_at_point_does_not_check_bounds() {
    let pb = PixelBuffer::with_size(8, 8, ColorSpace::RGB);
    // A column past the width aliases the next row.
    assert_eq!(pb.index_at_point(9, 0), pb.index_at_point(1, 1));
}

#[test]
fn filled_rect_paints_exactly_its_sixteen_pixels() {
    let mut pb = PixelBuffer::with_size(8, 8, ColorSpace::RGB);
    let rect = Rect::new(2, 2, 4, 4);
    let style = Style::FillOnly(Color { r: 10, g: 20, b: 30 });
    assert_eq!(pb.draw_rect(&rect, &style), Ok(()));
    let bytes = bytes_of(&pb);
    let mut painted = 0;
    for y in 0..8 {
        for x in 0..8 {
            let px = pixel(&bytes, 8, 3, x, y);
            if (2..6).contains(&x) && (2..6).contains(&y) {
                assert_eq!(px, (10, 20, 30));
                painted += 1;
            } else {
                assert_eq!(px, (0, 0, 0));
            }
        }
    }
    assert_eq!(painted, 16);
}

#[test]
fn outlined_rect_paints_only_the_border() {
    let mut pb = PixelBuffer::with_size(8, 8, ColorSpace::RGB);
    let rect = Rect::new(2, 2, 4, 4);
    let style = Style::OutlineOnly(Color { r: 255, g: 255, b: 255 }, 1);
    assert_eq!(pb.draw_rect(&rect, &style), Ok(()));
    let bytes = bytes_of(&pb);
    for y in 0..8 {
        for x in 0..8 {
            let px = pixel(&bytes, 8, 3, x, y);
            let inside = (2..6).contains(&x) && (2..6).contains(&y);
            let border = inside && (x == 2 || x == 5 || y == 2 || y == 5);
            if border {
                assert_eq!(px, (255, 255, 255), "border pixel ({}, {})", x, y);
            } else {
                assert_eq!(px, (0, 0, 0), "pixel ({}, {})", x, y);
            }
        }
    }
}

#[test]
fn outline_as_thick_as_the_rect_fills_it() {
    let mut pb = PixelBuffer::with_size(8, 8, ColorSpace::RGB);
    let rect = Rect::new(1, 1, 3, 3);
    let style = Style::OutlineOnly(Color { r: 7, g: 8, b: 9 }, 3);
    assert_eq!(pb.draw_rect(&rect, &style), Ok(()));
    let bytes = bytes_of(&pb);
    for y in 0..8 {
        for x in 0..8 {
            let px = pixel(&bytes, 8, 3, x, y);
            if (1..4).contains(&x) && (1..4).contains(&y) {
                assert_eq!(px, (7, 8, 9));
            } else {
                assert_eq!(px, (0, 0, 0));
            }
        }
    }
}

#[test]
fn outline_thicker_than_the_rect_is_refused() {
    let mut pb = PixelBuffer::with_size(8, 8, ColorSpace::RGB);
    let rect = Rect::new(0, 0, 3, 3);
    let style = Style::OutlineOnly(Color { r: 1, g: 1, b: 1 }, 4);
    assert_eq!(pb.draw_rect(&rect, &style), Err(DrawError::OutOfBounds));
    assert!(bytes_of(&pb).iter().all(|&b| b == 0));
}

#[test]
fn zero_thickness_outline_paints_nothing() {
    let mut pb = PixelBuffer::with_size(8, 8, ColorSpace::RGB);
    let rect = Rect::new(2, 2, 4, 4);
    let style = Style::OutlineOnly(Color { r: 1, g: 1, b: 1 }, 0);
    assert_eq!(pb.draw_rect(&rect, &style), Ok(()));
    assert!(bytes_of(&pb).iter().all(|&b| b == 0));
}

#[test]
fn filled_circle_has_symmetric_spans_and_empty_poles() {
    let mut pb = PixelBuffer::with_size(11, 11, ColorSpace::RGB);
    let circle = Circle::new(5, 5, 3);
    let style = Style::FillOnly(Color { r: 50, g: 60, b: 70 });
    assert_eq!(pb.draw_circle(&circle, &style), Ok(()));
    let bytes = bytes_of(&pb);
    // Half-widths of the scan rows: 3, 3, 2 for offsets 0, 1, 2.
    let spans = [(5usize, 2usize, 8usize), (4, 2, 8), (6, 2, 8), (3, 3, 7), (7, 3, 7)];
    for &(y, x0, x1) in spans.iter() {
        for x in 0..11 {
            let px = pixel(&bytes, 11, 3, x, y);
            if (x0..x1).contains(&x) {
                assert_eq!(px, (50, 60, 70), "span pixel ({}, {})", x, y);
            } else {
                assert_eq!(px, (0, 0, 0), "pixel ({}, {})", x, y);
            }
        }
    }
    // Mirrored rows paint the same columns.
    for d in 0..6 {
        for x in 0..11 {
            assert_eq!(
                pixel(&bytes, 11, 3, x, 5 + d),
                pixel(&bytes, 11, 3, x, 5 - d),
                "mirror of ({}, {})",
                x,
                5 + d
            );
        }
    }
    // The pole rows, exactly radius away, are never painted.
    for y in [2usize, 8] {
        for x in 0..11 {
            assert_eq!(pixel(&bytes, 11, 3, x, y), (0, 0, 0));
        }
    }
}

#[test]
fn fill_and_outline_writes_nothing_on_either_shape() {
    let mut pb = PixelBuffer::with_size(8, 8, ColorSpace::RGB);
    let style = Style::FillAndOutline(
        Color { r: 1, g: 2, b: 3 },
        Color { r: 4, g: 5, b: 6 },
        2,
    );
    assert_eq!(pb.draw_rect(&Rect::new(2, 2, 4, 4), &style), Ok(()));
    assert_eq!(pb.draw_circle(&Circle::new(4, 4, 2), &style), Ok(()));
    assert!(bytes_of(&pb).iter().all(|&b| b == 0));
}

#[test]
fn circle_outline_style_writes_nothing() {
    let mut pb = PixelBuffer::with_size(8, 8, ColorSpace::RGB);
    let style = Style::OutlineOnly(Color { r: 1, g: 2, b: 3 }, 1);
    assert_eq!(pb.draw_circle(&Circle::new(4, 4, 2), &style), Ok(()));
    assert!(bytes_of(&pb).iter().all(|&b| b == 0));
}

#[test]
fn rect_beyond_the_buffer_fails_without_corrupting_rows() {
    let mut pb = PixelBuffer::with_size(8, 8, ColorSpace::RGB);
    let style = Style::FillOnly(Color { r: 9, g: 9, b: 9 });
    // Past the bottom edge.
    assert_eq!(
        pb.draw_rect(&Rect::new(6, 6, 4, 4), &style),
        Err(DrawError::OutOfBounds)
    );
    // Past the right edge only: would alias neighboring rows, so it is
    // refused rather than wrapped.
    assert_eq!(
        pb.draw_rect(&Rect::new(5, 0, 4, 2), &style),
        Err(DrawError::OutOfBounds)
    );
    assert!(bytes_of(&pb).iter().all(|&b| b == 0));
}

#[test]
fn circle_spilling_over_an_edge_is_refused() {
    let mut pb = PixelBuffer::with_size(8, 8, ColorSpace::RGB);
    let style = Style::FillOnly(Color { r: 9, g: 9, b: 9 });
    // The widest span starts left of column zero.
    assert_eq!(
        pb.draw_circle(&Circle::new(1, 4, 3), &style),
        Err(DrawError::OutOfBounds)
    );
    assert!(bytes_of(&pb).iter().all(|&b| b == 0));
}

#[test]
fn zero_radius_circle_paints_nothing() {
    let mut pb = PixelBuffer::with_size(8, 8, ColorSpace::RGB);
    let style = Style::FillOnly(Color { r: 9, g: 9, b: 9 });
    assert_eq!(pb.draw_circle(&Circle::new(100, 100, 0), &style), Ok(()));
    assert!(bytes_of(&pb).iter().all(|&b| b == 0));
}

#[test]
fn empty_rect_paints_nothing_wherever_it_sits() {
    let mut pb = PixelBuffer::with_size(8, 8, ColorSpace::RGB);
    let style = Style::FillOnly(Color { r: 9, g: 9, b: 9 });
    assert_eq!(pb.draw_rect(&Rect::new(1000, 1000, 0, 5), &style), Ok(()));
    assert_eq!(pb.draw_rect(&Rect::new(3, 3, 2, 0), &style), Ok(()));
    assert!(bytes_of(&pb).iter().all(|&b| b == 0));
}

#[test]
fn painting_a_four_byte_layout_leaves_the_fourth_byte_alone() {
    let mut pb = PixelBuffer::with_size(4, 4, ColorSpace::RGBA);
    let style = Style::FillOnly(Color { r: 10, g: 20, b: 30 });
    assert_eq!(pb.draw_rect(&Rect::new(0, 0, 4, 4), &style), Ok(()));
    let bytes = bytes_of(&pb);
    for p in 0..16 {
        assert_eq!(bytes[4 * p], 10);
        assert_eq!(bytes[4 * p + 1], 20);
        assert_eq!(bytes[4 * p + 2], 30);
        assert_eq!(bytes[4 * p + 3], 0);
    }
}

#[test]
fn resize_reallocates_and_zero_fills() {
    let mut pb = PixelBuffer::with_size(4, 4, ColorSpace::RGB);
    let style = Style::FillOnly(Color { r: 10, g: 20, b: 30 });
    assert_eq!(pb.draw_rect(&Rect::new(0, 0, 4, 4), &style), Ok(()));
    pb.resize(4, 4);
    let bytes = bytes_of(&pb);
    assert_eq!(bytes.len(), 4 * 4 * 3);
    assert!(bytes.iter().all(|&b| b == 0));
    assert_eq!(pb.get_size(), (4, 4));
    pb.resize(2, 5);
    assert_eq!(bytes_of(&pb).len(), 2 * 5 * 3);
    assert_eq!(pb.get_size(), (2, 5));
}

#[test]
fn drawing_on_an_empty_buffer_is_refused() {
    let mut pb = PixelBuffer::new(ColorSpace::RGB);
    let style = Style::FillOnly(Color { r: 1, g: 1, b: 1 });
    assert_eq!(
        pb.draw_rect(&Rect::new(0, 0, 1, 1), &style),
        Err(DrawError::OutOfBounds)
    );
}

#[test]
fn rounded_square_roots_are_exact() {
    assert_eq!(rasterbuf::isqrt::rounded_sqrt_u64(0), 0);
    assert_eq!(rasterbuf::isqrt::rounded_sqrt_u64(1), 1);
    assert_eq!(rasterbuf::isqrt::rounded_sqrt_u64(2), 1);
    assert_eq!(rasterbuf::isqrt::rounded_sqrt_u64(3), 2);
    assert_eq!(rasterbuf::isqrt::rounded_sqrt_u64(5), 2);
    assert_eq!(rasterbuf::isqrt::rounded_sqrt_u64(8), 3);
    assert_eq!(rasterbuf::isqrt::rounded_sqrt_u64(9), 3);
    assert_eq!(rasterbuf::isqrt::rounded_sqrt_u64(1 << 40), 1 << 20);
}
