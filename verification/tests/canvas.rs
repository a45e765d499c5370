use approx::AbsDiffEq;
use ray_tracer::canvas::{Canvas, CanvasError};
use ray_tracer::color::Color;

fn color(red: f64, green: f64, blue: f64) -> Color {
    Color::new(red.to_bits(), green.to_bits(), blue.to_bits())
}

fn close(a: Color, b: Color) -> bool {
    let epsilon = 0.00001;
    f64::from_bits(a.red).abs_diff_eq(&f64::from_bits(b.red), epsilon)
        && f64::from_bits(a.green).abs_diff_eq(&f64::from_bits(b.green), epsilon)
        && f64::from_bits(a.blue).abs_diff_eq(&f64::from_bits(b.blue), epsilon)
}

#[test]
fn new_canvas() {
    let c = Canvas::new(10, 20);

    assert_eq!(c.width(), 10);
    assert_eq!(c.height(), 20);

    let black = color(0.0, 0.0, 0.0);

    for x in 0..10 {
        for y in 0..20 {
            assert!(close(c.pixel_at(x, y).unwrap(), black));
        }
    }
}

#[test]
fn write_pixel() {
    let mut c = Canvas::new(10, 20);
    let red = color(1.0, 0.0, 0.0);
    c.write_pixel(2, 3, red).unwrap();

    assert!(close(c.pixel_at(2, 3).unwrap(), red));
}

#[test]
fn written_pixel_is_read_back_exactly() {
    let mut c = Canvas::new(4, 3);
    let odd = color(-0.5, 0.4, 1.7);
    assert_eq!(c.write_pixel(3, 2, odd), Ok(()));
    assert_eq!(c.pixel_at(3, 2), Ok(odd));
    assert_eq!(c.width(), 4);
    assert_eq!(c.height(), 3);
}

#[test]
fn write_leaves_other_pixels() {
    let mut c = Canvas::new(3, 2);
    let first = color(0.25, 0.5, 0.75);
    let second = color(1.0, 1.0, 1.0);
    c.write_pixel(0, 1, first).unwrap();
    c.write_pixel(2, 0, second).unwrap();
    for y in 0..2 {
        for x in 0..3 {
            let expected = if (x, y) == (0, 1) {
                first
            } else if (x, y) == (2, 0) {
                second
            } else {
                Color::black()
            };
            assert_eq!(c.pixel_at(x, y), Ok(expected));
        }
    }
}

#[test]
fn second_write_replaces_first() {
    let mut c = Canvas::new(2, 2);
    c.write_pixel(1, 1, color(1.0, 0.0, 0.0)).unwrap();
    c.write_pixel(1, 1, color(0.0, 1.0, 0.0)).unwrap();
    assert_eq!(c.pixel_at(1, 1), Ok(color(0.0, 1.0, 0.0)));
}

#[test]
fn read_outside_the_grid_is_an_error() {
    let c = Canvas::new(10, 20);
    assert_eq!(c.pixel_at(10, 0), Err(CanvasError::OutOfBounds));
    assert_eq!(c.pixel_at(0, 20), Err(CanvasError::OutOfBounds));
    assert_eq!(c.pixel_at(usize::MAX, usize::MAX), Err(CanvasError::OutOfBounds));
    assert_eq!(c.pixel_at(9, 19), Ok(Color::black()));
}

#[test]
fn write_outside_the_grid_is_an_error_and_writes_nothing() {
    let mut c = Canvas::new(3, 2);
    let white = color(1.0, 1.0, 1.0);
    assert_eq!(c.write_pixel(3, 0, white), Err(CanvasError::OutOfBounds));
    assert_eq!(c.write_pixel(0, 2, white), Err(CanvasError::OutOfBounds));
    assert_eq!(c.write_pixel(2, 3, white), Err(CanvasError::OutOfBounds));
    assert_eq!(c.to_framebuffer(), vec![0xFF00_0000u32; 6]);
}

#[test]
fn width_of_a_canvas_without_rows_is_zero() {
    let c = Canvas::new(10, 0);
    assert_eq!(c.height(), 0);
    assert_eq!(c.width(), 0);
    assert_eq!(c.to_framebuffer(), Vec::<u32>::new());
    assert_eq!(c.pixel_at(0, 0), Err(CanvasError::OutOfBounds));
}

#[test]
fn canvas_without_columns_is_empty() {
    let mut c = Canvas::new(0, 5);
    assert_eq!(c.height(), 5);
    assert_eq!(c.width(), 0);
    assert_eq!(c.to_framebuffer().len(), 0);
    assert_eq!(c.write_pixel(0, 0, Color::black()), Err(CanvasError::OutOfBounds));
}

#[test]
fn new_canvas_framebuffer_is_opaque_black() {
    let c = Canvas::new(10, 20);
    let buffer = c.to_framebuffer();
    assert_eq!(buffer.len(), 200);
    assert!(buffer.iter().all(|pixel| *pixel == 0xFF00_0000));
}

#[test]
fn framebuffer_is_row_major() {
    let mut c = Canvas::new(3, 2);
    c.write_pixel(0, 0, color(1.0, 0.0, 0.0)).unwrap();
    c.write_pixel(2, 0, color(0.0, 1.0, 0.0)).unwrap();
    c.write_pixel(0, 1, color(0.0, 0.0, 1.0)).unwrap();
    c.write_pixel(1, 1, color(1.0, 0.2, 0.4)).unwrap();
    assert_eq!(
        c.to_framebuffer(),
        vec![0xFFFF_0000, 0xFF00_0000, 0xFF00_FF00, 0xFF00_00FF, 0xFFFF_3366, 0xFF00_0000]
    );
}

#[test]
fn framebuffer_saturates_channels() {
    let mut c = Canvas::new(2, 1);
    c.write_pixel(0, 0, color(1.5, -0.5, 0.5)).unwrap();
    c.write_pixel(1, 0, color(-2.0, 7.0, f64::INFINITY)).unwrap();
    let buffer = c.to_framebuffer();
    assert_eq!(buffer, vec![0xFFFF_0080, 0xFF00_FFFF]);
    assert_eq!((buffer[0] >> 16) & 0xFF, 255);
    assert_eq!((buffer[0] >> 8) & 0xFF, 0);
}
