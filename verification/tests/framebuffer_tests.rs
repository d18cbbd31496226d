use kernel::font::{BACKUP_CHAR, BORDER_PADDING, CHAR_RASTER_HEIGHT, CHAR_RASTER_WIDTH};
use kernel::framebuffer::{encode_color, FrameBufferWriter, PixelFormat, Surface, SurfaceInfo};

fn make_surface(width: usize, height: usize, stride: usize, bpp: usize, format: PixelFormat) -> Surface {
    let info = SurfaceInfo {
        width,
        height,
        stride,
        bytes_per_pixel: bpp,
        pixel_format: format,
    };
    let buf = vec![0u8; height * stride * bpp];
    Surface::new(info, buf).expect("surface should be accepted")
}

#[test]
fn encode_color_bgr_exact() {
    assert_eq!(encode_color(100, PixelFormat::Bgr), (100, 100, 50, 0));
    assert_eq!(encode_color(255, PixelFormat::Bgr), (255, 255, 127, 0));
}

#[test]
fn encode_color_rgb_exact() {
    assert_eq!(encode_color(100, PixelFormat::Rgb), (50, 100, 100, 0));
    assert_eq!(encode_color(0, PixelFormat::Rgb), (0, 0, 0, 0));
}

#[test]
fn encode_color_grayscale_boundary() {
    assert_eq!(encode_color(200, PixelFormat::U8), (0, 0, 0, 0));
    assert_eq!(encode_color(201, PixelFormat::U8), (0xf, 0, 0, 0));
    assert_eq!(encode_color(255, PixelFormat::U8), (0xf, 0, 0, 0));
}

#[test]
fn encode_color_unknown_is_white() {
    assert_eq!(encode_color(0, PixelFormat::Unknown), (0xff, 0xff, 0xff, 0));
    assert_eq!(encode_color(123, PixelFormat::Unknown), (0xff, 0xff, 0xff, 0));
}

#[test]
fn encode_color_is_pure() {
    for intensity in [0u8, 1, 100, 200, 201, 255] {
        for format in [PixelFormat::Rgb, PixelFormat::Bgr, PixelFormat::U8, PixelFormat::Unknown] {
            assert_eq!(encode_color(intensity, format), encode_color(intensity, format));
        }
    }
}

#[test]
fn surface_rejects_bad_geometry() {
    let info = SurfaceInfo { width: 100, height: 100, stride: 100, bytes_per_pixel: 5, pixel_format: PixelFormat::Rgb };
    assert!(Surface::new(info, vec![0u8; 100 * 100 * 5]).is_none());
    let info = SurfaceInfo { width: 100, height: 100, stride: 50, bytes_per_pixel: 4, pixel_format: PixelFormat::Rgb };
    assert!(Surface::new(info, vec![0u8; 100 * 50 * 4]).is_none());
    let info = SurfaceInfo { width: 100, height: 100, stride: 100, bytes_per_pixel: 4, pixel_format: PixelFormat::Rgb };
    assert!(Surface::new(info, vec![0u8; 7]).is_none());
}

#[test]
fn new_writer_clears_and_homes_cursor() {
    let mut surface = make_surface(60, 60, 64, 4, PixelFormat::Rgb);
    surface.buf[17] = 99;
    let w = FrameBufferWriter::new(surface);
    assert_eq!(w.x_pos, BORDER_PADDING);
    assert_eq!(w.y_pos, BORDER_PADDING);
    assert!(w.framebuffer.buf.iter().all(|&b| b == 0));
}

#[test]
fn write_pixel_lands_at_offset() {
    let surface = make_surface(60, 60, 64, 4, PixelFormat::Bgr);
    let mut w = FrameBufferWriter::new(surface);
    w.write_pixel(2, 3, 100);
    let off = (3 * 64 + 2) * 4;
    assert_eq!(&w.framebuffer.buf[off..off + 4], &[100, 100, 50, 0]);
}

#[test]
fn write_pixel_honors_bytes_per_pixel() {
    let surface = make_surface(60, 60, 64, 2, PixelFormat::Rgb);
    let mut w = FrameBufferWriter::new(surface);
    w.write_pixel(5, 1, 200);
    let off = (1 * 64 + 5) * 2;
    assert_eq!(&w.framebuffer.buf[off..off + 2], &[100, 200]);
    // the byte after the pixel is untouched
    assert_eq!(w.framebuffer.buf[off + 2], 0);
}

#[test]
fn grayscale_pixels_through_writer() {
    let surface = make_surface(60, 60, 60, 1, PixelFormat::U8);
    let mut w = FrameBufferWriter::new(surface);
    w.write_pixel(0, 0, 200);
    assert_eq!(w.framebuffer.buf[0], 0);
    w.write_pixel(0, 0, 201);
    assert_eq!(w.framebuffer.buf[0], 0xf);
}

#[test]
fn unknown_format_paints_fallback_and_never_halts() {
    let surface = make_surface(60, 60, 64, 4, PixelFormat::Unknown);
    let mut w = FrameBufferWriter::new(surface);
    w.write_char('A');
    // every pixel of the glyph box is painted the fixed opaque white
    let off = (BORDER_PADDING * 64 + BORDER_PADDING) * 4;
    assert_eq!(&w.framebuffer.buf[off..off + 4], &[0xff, 0xff, 0xff, 0]);
}

#[test]
fn write_clear_write_is_pixel_identical() {
    let text = "Hello, world!\nsecond line\r+";
    let surface = make_surface(120, 80, 128, 4, PixelFormat::Rgb);
    let mut w = FrameBufferWriter::new(surface);
    w.write_text(text);
    let first = w.framebuffer.buf.clone();
    assert!(first.iter().any(|&b| b != 0));
    w.clear();
    w.write_text(text);
    assert_eq!(w.framebuffer.buf, first);
}

#[test]
fn newline_and_carriage_return_move_cursor() {
    let surface = make_surface(120, 120, 128, 4, PixelFormat::Rgb);
    let mut w = FrameBufferWriter::new(surface);
    w.write_text("AB");
    assert_eq!(w.x_pos, BORDER_PADDING + 2 * CHAR_RASTER_WIDTH);
    w.write_text("\r");
    assert_eq!(w.x_pos, BORDER_PADDING);
    let y0 = w.y_pos;
    w.write_text("\n");
    assert_eq!(w.y_pos, y0 + CHAR_RASTER_HEIGHT + 2);
    assert_eq!(w.x_pos, BORDER_PADDING);
}

#[test]
fn wide_character_wraps_exactly_once() {
    // width 9 holds one bordered glyph; the second must wrap, not clip
    let surface = make_surface(9, 60, 16, 4, PixelFormat::Rgb);
    let mut w = FrameBufferWriter::new(surface);
    w.write_char('A');
    assert_eq!(w.x_pos, BORDER_PADDING + CHAR_RASTER_WIDTH);
    assert_eq!(w.y_pos, BORDER_PADDING);
    w.write_char('B');
    // one newline happened before drawing: new line, glyph drawn in full
    assert_eq!(w.y_pos, BORDER_PADDING + CHAR_RASTER_HEIGHT + 2);
    assert_eq!(w.x_pos, BORDER_PADDING + CHAR_RASTER_WIDTH);
}

#[test]
fn tall_character_clears_and_still_draws() {
    let surface = make_surface(120, 40, 128, 4, PixelFormat::Bgr);
    let mut w = FrameBufferWriter::new(surface);
    w.write_text("A\nB");
    // find a lit byte of 'B' on the second text line
    let row_start = (BORDER_PADDING + CHAR_RASTER_HEIGHT + 2) * 128 * 4;
    let lit = (row_start..row_start + 16 * 128 * 4)
        .find(|&i| w.framebuffer.buf[i] != 0)
        .expect("B should have lit at least one byte");
    w.write_text("\nC");
    // the newline pushed the cursor past the bottom threshold, so 'C'
    // forced a full clear: the old pixel is gone, the cursor was reset,
    // and 'C' was still drawn at the top
    assert_eq!(w.framebuffer.buf[lit], 0);
    assert_eq!(w.y_pos, BORDER_PADDING);
    assert_eq!(w.x_pos, BORDER_PADDING + CHAR_RASTER_WIDTH);
    assert!(w.framebuffer.buf.iter().any(|&b| b != 0));
}

#[test]
fn unknown_glyph_substitutes_replacement() {
    let a = kernel::font::get_char_raster('\u{0080}');
    let backup = kernel::font::get_char_raster(BACKUP_CHAR);
    assert_eq!(a.len(), CHAR_RASTER_HEIGHT);
    for row in &a {
        assert_eq!(row.len(), CHAR_RASTER_WIDTH);
    }
    let a_flat: Vec<u8> = a.iter().flatten().copied().collect();
    let b_flat: Vec<u8> = backup.iter().flatten().copied().collect();
    assert_eq!(a_flat, b_flat);
}

#[test]
fn known_glyph_is_not_the_replacement() {
    let a = kernel::font::get_char_raster('A');
    let backup = kernel::font::get_char_raster(BACKUP_CHAR);
    assert!(a.iter().flatten().any(|&b| b != 0));
    let a_flat: Vec<u8> = a.iter().flatten().copied().collect();
    let b_flat: Vec<u8> = backup.iter().flatten().copied().collect();
    assert_ne!(a_flat, b_flat);
}
