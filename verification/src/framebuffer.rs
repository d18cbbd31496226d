use crate::font::{
    get_char_raster, raster_of, BACKUP_CHAR, BORDER_PADDING, CHAR_RASTER_HEIGHT,
    CHAR_RASTER_WIDTH, LETTER_SPACING, LINE_SPACING,
};
use vstd::prelude::*;

verus! {

/// Pixel memory layouts the renderer understands. Anything the firmware
/// reports beyond these is `Unknown` and degrades to a fixed opaque
/// white, never a failure.
#[derive(Clone, Copy, PartialEq, Eq, Structural, Debug)]
pub enum PixelFormat {
    Rgb,
    Bgr,
    U8,
    Unknown,
}

/// Geometry and format of the pixel surface, supplied once by the
/// firmware and never changed.
#[derive(Clone, Copy, PartialEq, Eq, Structural, Debug)]
pub struct SurfaceInfo {
    pub width: usize,
    pub height: usize,
    pub stride: usize,
    pub bytes_per_pixel: usize,
    pub pixel_format: PixelFormat,
}

/// A surface descriptor the renderer can work on: each pixel fits in the
/// four computed color bytes, a row fits in the stride, one bordered
/// glyph fits on the screen in both directions, and the buffer covers
/// the whole surface.
pub open spec fn info_wf(info: SurfaceInfo) -> bool {
    &&& 1 <= info.bytes_per_pixel <= 4
    &&& info.width <= info.stride
    &&& BORDER_PADDING + CHAR_RASTER_WIDTH <= info.width
    &&& BORDER_PADDING + CHAR_RASTER_HEIGHT <= info.height
    &&& info.height * info.stride * info.bytes_per_pixel <= usize::MAX
}

pub open spec fn buf_len_ok(info: SurfaceInfo, len: nat) -> bool {
    len == info.height * info.stride * info.bytes_per_pixel
}

/// The raw pixel surface: geometry descriptor plus the byte buffer the
/// renderer owns exclusively once constructed.
pub struct Surface {
    pub info: SurfaceInfo,
    pub buf: Vec<u8>,
}

impl Surface {
    pub open spec fn wf(self) -> bool {
        &&& info_wf(self.info)
        &&& buf_len_ok(self.info, self.buf@.len())
    }

    /// Accepts a descriptor and buffer only when they form a surface the
    /// renderer can work on, so a well-formed `Surface` is the only kind
    /// that exists.
    pub fn new(info: SurfaceInfo, buf: Vec<u8>) -> (r: Option<Surface>)
        ensures
            r is Some <==> (info_wf(info) && buf_len_ok(info, buf@.len())),
            r is Some ==> ({
                &&& r.unwrap().wf()
                &&& r.unwrap().info == info
                &&& r.unwrap().buf@ == buf@
            }),
    {
        if info.bytes_per_pixel < 1 || info.bytes_per_pixel > 4 {
            return None;
        }
        if info.stride < info.width {
            return None;
        }
        if info.width < BORDER_PADDING + CHAR_RASTER_WIDTH {
            return None;
        }
        if info.height < BORDER_PADDING + CHAR_RASTER_HEIGHT {
            return None;
        }
        proof {
            let h = info.height as int;
            let s = info.stride as int;
            let b = info.bytes_per_pixel as int;
            assert(s * b <= h * (s * b)) by (nonlinear_arith)
                requires
                    h >= 1,
                    s >= 0,
                    b >= 0,
            ;
            assert(h * (s * b) == h * s * b) by (nonlinear_arith);
        }
        let row_bytes = match info.stride.checked_mul(info.bytes_per_pixel) {
            Some(n) => n,
            None => {
                return None;
            },
        };
        let total = match info.height.checked_mul(row_bytes) {
            Some(n) => n,
            None => {
                return None;
            },
        };
        if buf.len() != total {
            return None;
        }
        Some(Surface { info, buf })
    }
}

/// The renderer's abstract state: the surface bytes, its fixed geometry,
/// and the cursor in pixel coordinates.
#[verifier::ext_equal]
pub ghost struct WriterState {
    pub info: SurfaceInfo,
    pub buf: Seq<u8>,
    pub x: int,
    pub y: int,
}

impl WriterState {
    pub open spec fn wf(self) -> bool {
        &&& info_wf(self.info)
        &&& buf_len_ok(self.info, self.buf.len())
        &&& 0 <= self.x <= self.info.width
        &&& 0 <= self.y <= self.info.height
    }
}

/// The four color bytes one intensity encodes to under a pixel format.
/// Grayscale is a hard threshold: an intensity of exactly 200 is off,
/// anything above is on. An unrecognized format paints opaque white.
pub open spec fn color_bytes(intensity: u8, format: PixelFormat) -> Seq<u8> {
    match format {
        PixelFormat::Bgr => seq![intensity, intensity, (intensity / 2) as u8, 0u8],
        PixelFormat::Rgb => seq![(intensity / 2) as u8, intensity, intensity, 0u8],
        PixelFormat::U8 => seq![
            if 200 < intensity {
                0xfu8
            } else {
                0u8
            },
            0u8,
            0u8,
            0u8,
        ],
        PixelFormat::Unknown => seq![0xffu8, 0xffu8, 0xffu8, 0u8],
    }
}

/// `buf` with `bytes` written over the range starting at `off`.
pub open spec fn spec_splice(buf: Seq<u8>, off: int, bytes: Seq<u8>) -> Seq<u8> {
    Seq::new(
        buf.len(),
        |i: int|
            if off <= i < off + bytes.len() {
                bytes[i - off]
            } else {
                buf[i]
            },
    )
}

/// Byte offset of the pixel at `(x, y)` in the buffer.
pub open spec fn pixel_offset(info: SurfaceInfo, x: int, y: int) -> int {
    (y * info.stride + x) * info.bytes_per_pixel
}

/// One pixel written: the first `bytes_per_pixel` of the computed color
/// bytes land at the pixel's offset; everything else is untouched.
pub open spec fn spec_write_pixel(st: WriterState, x: int, y: int, intensity: u8) -> WriterState {
    WriterState {
        buf: spec_splice(
            st.buf,
            pixel_offset(st.info, x, y),
            color_bytes(intensity, st.info.pixel_format).take(st.info.bytes_per_pixel as int),
        ),
        ..st
    }
}

/// The surface blanked and the cursor homed to the border padding.
pub open spec fn spec_clear(st: WriterState) -> WriterState {
    WriterState {
        info: st.info,
        buf: Seq::new(st.buf.len(), |i: int| 0u8),
        x: BORDER_PADDING as int,
        y: BORDER_PADDING as int,
    }
}

pub open spec fn spec_carriage_return(st: WriterState) -> WriterState {
    WriterState { x: BORDER_PADDING as int, ..st }
}

/// The cursor moved down one text line and returned to the left margin.
/// The vertical position saturates at the surface height: every position
/// at or past the clear threshold behaves identically (the next printable
/// character triggers the full clear), so positions further down are
/// indistinguishable and capping keeps the coordinate in bounds.
pub open spec fn spec_newline(st: WriterState) -> WriterState {
    let adv = st.y + CHAR_RASTER_HEIGHT + LINE_SPACING;
    WriterState {
        x: BORDER_PADDING as int,
        y: if adv > st.info.height {
            st.info.height as int
        } else {
            adv
        },
        ..st
    }
}

/// The first `n` bytes of `row` drawn as pixels at `(x0 .. , y0)`.
pub open spec fn spec_draw_row(
    st: WriterState,
    x0: int,
    y0: int,
    row: Seq<u8>,
    n: int,
) -> WriterState
    decreases n,
{
    if n <= 0 {
        st
    } else {
        spec_write_pixel(spec_draw_row(st, x0, y0, row, n - 1), x0 + (n - 1), y0, row[n - 1])
    }
}

/// The first `m` rows of `rows` drawn with their top-left at `(x0, y0)`.
pub open spec fn spec_draw_rows(
    st: WriterState,
    x0: int,
    y0: int,
    rows: Seq<Seq<u8>>,
    m: int,
) -> WriterState
    decreases m,
{
    if m <= 0 {
        st
    } else {
        spec_draw_row(
            spec_draw_rows(st, x0, y0, rows, m - 1),
            x0,
            y0 + (m - 1),
            rows[m - 1],
            rows[m - 1].len() as int,
        )
    }
}

/// A glyph raster drawn at the cursor, and the cursor advanced by the
/// glyph width plus letter spacing.
pub open spec fn spec_draw_raster(st: WriterState, rows: Seq<Seq<u8>>) -> WriterState {
    let drawn = spec_draw_rows(st, st.x, st.y, rows, rows.len() as int);
    WriterState { x: st.x + CHAR_RASTER_WIDTH + LETTER_SPACING, ..drawn }
}

/// One character processed: newline and carriage return move the cursor;
/// any other character wraps to a new line if its width would reach the
/// right edge, clears the whole surface if its height would reach the
/// bottom (a destructive reset, not a scroll), and is then drawn at the
/// resulting cursor.
pub open spec fn spec_write_char(st: WriterState, c: char) -> WriterState {
    if c == '\n' {
        spec_newline(st)
    } else if c == '\r' {
        spec_carriage_return(st)
    } else {
        let st1 = if st.x + CHAR_RASTER_WIDTH >= st.info.width {
            spec_newline(st)
        } else {
            st
        };
        let st2 = if st1.y + CHAR_RASTER_HEIGHT + BORDER_PADDING >= st1.info.height {
            spec_clear(st1)
        } else {
            st1
        };
        spec_draw_raster(st2, raster_of(c))
    }
}

/// A text processed character by character, left to right.
pub open spec fn spec_write_text(st: WriterState, s: Seq<char>) -> WriterState
    decreases s.len(),
{
    if s.len() == 0 {
        st
    } else {
        spec_write_text(spec_write_char(st, s[0]), s.drop_first())
    }
}

/// Renders characters as glyph rasters onto an exclusively owned pixel
/// surface. No internal synchronization: the console multiplexer is the
/// sole caller and serializes access externally.
pub struct FrameBufferWriter {
    pub framebuffer: Surface,
    pub x_pos: usize,
    pub y_pos: usize,
}

impl View for FrameBufferWriter {
    type V = WriterState;

    open spec fn view(&self) -> WriterState {
        WriterState {
            info: self.framebuffer.info,
            buf: self.framebuffer.buf@,
            x: self.x_pos as int,
            y: self.y_pos as int,
        }
    }
}

impl FrameBufferWriter {
    pub open spec fn wf(self) -> bool {
        self@.wf()
    }

    /// Takes ownership of the surface, clears it, and homes the cursor.
    pub fn new(framebuffer: Surface) -> (w: Self)
        requires
            framebuffer.wf(),
        ensures
            w.wf(),
            w@ == spec_clear(
                WriterState { info: framebuffer.info, buf: framebuffer.buf@, x: 0, y: 0 },
            ),
    {
        let mut writer = FrameBufferWriter { framebuffer, x_pos: 0, y_pos: 0 };
        writer.clear();
        writer
    }

    fn width(&self) -> (r: usize)
        ensures
            r == self@.info.width,
    {
        self.framebuffer.info.width
    }

    fn height(&self) -> (r: usize)
        ensures
            r == self@.info.height,
    {
        self.framebuffer.info.height
    }

    /// Blanks every byte of the surface and homes the cursor. This is
    /// the deliberate no-scroll policy: prior content is fully discarded.
    pub fn clear(&mut self)
        requires
            old(self).wf(),
        ensures
            final(self).wf(),
            final(self)@ == spec_clear(old(self)@),
    {
        self.x_pos = BORDER_PADDING;
        self.y_pos = BORDER_PADDING;
        let n = self.framebuffer.buf.len();
        let mut i: usize = 0;
        while i < n
            invariant
                i <= n,
                n == self.framebuffer.buf@.len(),
                self.framebuffer.info == old(self).framebuffer.info,
                self.x_pos == BORDER_PADDING,
                self.y_pos == BORDER_PADDING,
                forall|j: int| 0 <= j < i ==> self.framebuffer.buf@[j] == 0u8,
            decreases n - i,
        {
            self.framebuffer.buf[i] = 0;
            i = i + 1;
        }
        proof {
            assert(self@.buf =~= spec_clear(old(self)@).buf);
        }
    }

    fn carriage_return(&mut self)
        ensures
            final(self)@ == spec_carriage_return(old(self)@),
    {
        self.x_pos = BORDER_PADDING;
    }

    fn newline(&mut self)
        requires
            old(self).wf(),
        ensures
            final(self).wf(),
            final(self)@ == spec_newline(old(self)@),
    {
        proof {
            lemma_dims_bounded(old(self)@.info, old(self)@.buf.len());
        }
        let h = self.framebuffer.info.height;
        let next = self.y_pos + CHAR_RASTER_HEIGHT + LINE_SPACING;
        self.y_pos = if next > h {
            h
        } else {
            next
        };
        self.carriage_return();
    }

    /// Writes the color for `intensity` at pixel `(x, y)` and reads the
    /// first written byte back, mirroring the observable hardware access
    /// to display memory that must not be elided.
    pub fn write_pixel(&mut self, x: usize, y: usize, intensity: u8)
        requires
            old(self).wf(),
            x < old(self)@.info.width,
            y < old(self)@.info.height,
        ensures
            final(self).wf(),
            final(self)@ == spec_write_pixel(old(self)@, x as int, y as int, intensity),
    {
        let info = self.framebuffer.info;
        proof {
            lemma_pixel_offset_in_bounds(info, old(self)@.buf.len(), x as int, y as int);
        }
        let pixel_off = y * info.stride + x;
        let off = pixel_off * info.bytes_per_pixel;
        let color = encode_color(intensity, info.pixel_format);
        let bpp = info.bytes_per_pixel;
        self.framebuffer.buf[off] = color.0;
        if bpp > 1 {
            self.framebuffer.buf[off + 1] = color.1;
        }
        if bpp > 2 {
            self.framebuffer.buf[off + 2] = color.2;
        }
        if bpp > 3 {
            self.framebuffer.buf[off + 3] = color.3;
        }
        let _readback = self.framebuffer.buf[off];
        proof {
            assert(self@.buf =~= spec_write_pixel(old(self)@, x as int, y as int, intensity).buf);
        }
    }

    /// Draws a full glyph raster at the cursor and advances the cursor
    /// by the glyph width plus letter spacing.
    pub fn write_rendered_char(&mut self, rows: &Vec<Vec<u8>>)
        requires
            old(self).wf(),
            rows@.len() == CHAR_RASTER_HEIGHT,
            forall|i: int| 0 <= i < rows@.len() ==> (#[trigger] rows@[i])@.len()
                == CHAR_RASTER_WIDTH,
            old(self)@.x + CHAR_RASTER_WIDTH <= old(self)@.info.width,
            old(self)@.y + CHAR_RASTER_HEIGHT <= old(self)@.info.height,
        ensures
            final(self).wf(),
            final(self)@ == spec_draw_raster(
                old(self)@,
                rows@.map_values(|row: Vec<u8>| row@),
            ),
    {
        let ghost rowseqs = rows@.map_values(|row: Vec<u8>| row@);
        let ghost x0 = old(self)@.x;
        let ghost y0 = old(self)@.y;
        let mut ry: usize = 0;
        while ry < rows.len()
            invariant
                old(self).wf(),
                ry <= rows@.len(),
                rows@.len() == CHAR_RASTER_HEIGHT,
                forall|i: int| 0 <= i < rows@.len() ==> (#[trigger] rows@[i])@.len()
                    == CHAR_RASTER_WIDTH,
                rowseqs == rows@.map_values(|row: Vec<u8>| row@),
                x0 == old(self)@.x,
                y0 == old(self)@.y,
                x0 + CHAR_RASTER_WIDTH <= old(self)@.info.width,
                y0 + CHAR_RASTER_HEIGHT <= old(self)@.info.height,
                self@ == spec_draw_rows(old(self)@, x0, y0, rowseqs, ry as int),
                self.wf(),
                self@.info == old(self)@.info,
                self@.x == x0,
                self@.y == y0,
            decreases rows@.len() - ry,
        {
            let row = &rows[ry];
            let ghost rowseq = row@;
            proof {
                assert(rowseqs[ry as int] == rows@[ry as int]@);
            }
            let mut rx: usize = 0;
            while rx < row.len()
                invariant
                    old(self).wf(),
                    rx <= row@.len(),
                    row@.len() == CHAR_RASTER_WIDTH,
                    rowseq == row@,
                    ry < CHAR_RASTER_HEIGHT,
                    x0 + CHAR_RASTER_WIDTH <= old(self)@.info.width,
                    y0 + CHAR_RASTER_HEIGHT <= old(self)@.info.height,
                    self@ == spec_draw_row(
                        spec_draw_rows(old(self)@, x0, y0, rowseqs, ry as int),
                        x0,
                        y0 + ry as int,
                        rowseq,
                        rx as int,
                    ),
                    self.wf(),
                    self@.info == old(self)@.info,
                    self@.x == x0,
                    self@.y == y0,
                    self.x_pos == old(self).x_pos,
                    self.y_pos == old(self).y_pos,
                decreases row@.len() - rx,
            {
                let byte = row[rx];
                self.write_pixel(self.x_pos + rx, self.y_pos + ry, byte);
                rx = rx + 1;
            }
            proof {
                assert(self@ == spec_draw_rows(old(self)@, x0, y0, rowseqs, ry as int + 1));
            }
            ry = ry + 1;
        }
        self.x_pos = self.x_pos + CHAR_RASTER_WIDTH + LETTER_SPACING;
        proof {
            assert(self@ =~= spec_draw_raster(old(self)@, rowseqs));
        }
    }

    /// Processes one character: moves the cursor for the control
    /// characters, wraps or clears as the edges demand, and draws every
    /// other character's glyph.
    pub fn write_char(&mut self, c: char)
        requires
            old(self).wf(),
        ensures
            final(self).wf(),
            final(self)@ == spec_write_char(old(self)@, c),
    {
        if c == '\n' {
            self.newline();
        } else if c == '\r' {
            self.carriage_return();
        } else {
            proof {
                lemma_dims_bounded(old(self)@.info, old(self)@.buf.len());
            }
            let new_xpos = self.x_pos + CHAR_RASTER_WIDTH;
            if new_xpos >= self.width() {
                self.newline();
            }
            let new_ypos = self.y_pos + CHAR_RASTER_HEIGHT + BORDER_PADDING;
            if new_ypos >= self.height() {
                self.clear();
            }
            let raster = get_char_raster(c);
            self.write_rendered_char(&raster);
        }
    }

    /// Processes a text character by character, left to right.
    pub fn write_text(&mut self, s: &str)
        requires
            old(self).wf(),
        ensures
            final(self).wf(),
            final(self)@ == spec_write_text(old(self)@, s@),
    {
        let n = s.unicode_len();
        let mut i: usize = 0;
        while i < n
            invariant
                old(self).wf(),
                i <= n,
                n == s@.len(),
                self.wf(),
                self@ == spec_write_text(old(self)@, s@.subrange(0, i as int)),
            decreases n - i,
        {
            let c = s.get_char(i);
            proof {
                lemma_write_text_snoc(old(self)@, s@.subrange(0, i as int), c);
                assert(s@.subrange(0, i as int).push(c) =~= s@.subrange(0, i as int + 1));
            }
            self.write_char(c);
            i = i + 1;
        }
        proof {
            assert(s@.subrange(0, n as int) =~= s@);
        }
    }
}

/// Pure pixel encoding: the color bytes for one intensity under one
/// format, exactly `color_bytes`.
pub fn encode_color(intensity: u8, format: PixelFormat) -> (r: (u8, u8, u8, u8))
    ensures
        seq![r.0, r.1, r.2, r.3] == color_bytes(intensity, format),
{
    match format {
        PixelFormat::Bgr => (intensity, intensity, intensity / 2, 0),
        PixelFormat::Rgb => (intensity / 2, intensity, intensity, 0),
        PixelFormat::U8 => (
            if intensity > 200 {
                0xf
            } else {
                0
            },
            0,
            0,
            0,
        ),
        PixelFormat::Unknown => (0xff, 0xff, 0xff, 0),
    }
}

/// On a well-formed surface both screen dimensions leave ample headroom
/// below `usize::MAX` for cursor arithmetic, since every pixel of the
/// surface occupies at least one buffer byte.
proof fn lemma_dims_bounded(info: SurfaceInfo, len: nat)
    requires
        info_wf(info),
        buf_len_ok(info, len),
    ensures
        info.height + CHAR_RASTER_HEIGHT + LINE_SPACING + BORDER_PADDING <= usize::MAX,
        info.width + CHAR_RASTER_WIDTH <= usize::MAX,
{
    assert(8 * info.height <= info.height * info.stride * info.bytes_per_pixel)
        by (nonlinear_arith)
        requires
            info.stride >= 8,
            info.bytes_per_pixel >= 1,
            info.height >= 0,
    ;
    assert(8 * info.width <= info.height * info.stride * info.bytes_per_pixel)
        by (nonlinear_arith)
        requires
            info.width <= info.stride,
            info.height >= 17,
            info.bytes_per_pixel >= 1,
            info.width >= 0,
            info.stride >= 0,
    ;
}

/// A pixel inside the surface occupies bytes strictly inside the buffer.
proof fn lemma_pixel_offset_in_bounds(info: SurfaceInfo, len: nat, x: int, y: int)
    requires
        info_wf(info),
        buf_len_ok(info, len),
        0 <= x < info.width,
        0 <= y < info.height,
    ensures
        0 <= y * info.stride + x,
        (y * info.stride + x) * info.bytes_per_pixel + info.bytes_per_pixel <= len,
        y * info.stride + x <= len,
        pixel_offset(info, x, y) == (y * info.stride + x) * info.bytes_per_pixel,
{
    let s = info.stride as int;
    let h = info.height as int;
    let b = info.bytes_per_pixel as int;
    assert(0 <= y * s + x && y * s + x < h * s) by (nonlinear_arith)
        requires
            0 <= x < s,
            0 <= y < h,
    ;
    assert((y * s + x) * b + b <= h * s * b) by (nonlinear_arith)
        requires
            y * s + x < h * s,
            1 <= b,
    ;
    assert(h * s <= h * s * b) by (nonlinear_arith)
        requires
            1 <= b,
            0 <= h * s,
    ;
}

proof fn lemma_draw_row_geometry(st: WriterState, x0: int, y0: int, row: Seq<u8>, n: int)
    ensures
        spec_draw_row(st, x0, y0, row, n).info == st.info,
        spec_draw_row(st, x0, y0, row, n).buf.len() == st.buf.len(),
        spec_draw_row(st, x0, y0, row, n).x == st.x,
        spec_draw_row(st, x0, y0, row, n).y == st.y,
    decreases n,
{
    if n > 0 {
        lemma_draw_row_geometry(st, x0, y0, row, n - 1);
    }
}

proof fn lemma_draw_rows_geometry(st: WriterState, x0: int, y0: int, rows: Seq<Seq<u8>>, m: int)
    ensures
        spec_draw_rows(st, x0, y0, rows, m).info == st.info,
        spec_draw_rows(st, x0, y0, rows, m).buf.len() == st.buf.len(),
        spec_draw_rows(st, x0, y0, rows, m).x == st.x,
        spec_draw_rows(st, x0, y0, rows, m).y == st.y,
    decreases m,
{
    if m > 0 {
        lemma_draw_rows_geometry(st, x0, y0, rows, m - 1);
        lemma_draw_row_geometry(
            spec_draw_rows(st, x0, y0, rows, m - 1),
            x0,
            y0 + (m - 1),
            rows[m - 1],
            rows[m - 1].len() as int,
        );
    }
}

/// Processing a character never changes the surface geometry or the
/// buffer's size, only its bytes and the cursor.
pub proof fn lemma_write_char_geometry(st: WriterState, c: char)
    ensures
        spec_write_char(st, c).info == st.info,
        spec_write_char(st, c).buf.len() == st.buf.len(),
{
    if c != '\n' && c != '\r' {
        let st1 = if st.x + CHAR_RASTER_WIDTH >= st.info.width {
            spec_newline(st)
        } else {
            st
        };
        let st2 = if st1.y + CHAR_RASTER_HEIGHT + BORDER_PADDING >= st1.info.height {
            spec_clear(st1)
        } else {
            st1
        };
        lemma_draw_rows_geometry(st2, st2.x, st2.y, raster_of(c), raster_of(c).len() as int);
    }
}

/// Processing a text never changes the surface geometry or the buffer's
/// size, only its bytes and the cursor.
pub proof fn lemma_write_text_geometry(st: WriterState, s: Seq<char>)
    ensures
        spec_write_text(st, s).info == st.info,
        spec_write_text(st, s).buf.len() == st.buf.len(),
    decreases s.len(),
{
    if s.len() > 0 {
        lemma_write_char_geometry(st, s[0]);
        lemma_write_text_geometry(spec_write_char(st, s[0]), s.drop_first());
    }
}

/// Rendering is idempotent across a clear: writing a text on a freshly
/// initialized writer, clearing, and writing the same text again gives a
/// state identical to the first rendering, pixel for pixel — the clear
/// returns the writer exactly to its starting state.
pub proof fn lemma_write_clear_write(st: WriterState, s: Seq<char>)
    requires
        st == spec_clear(st),
    ensures
        spec_write_text(spec_clear(spec_write_text(st, s)), s) == spec_write_text(st, s),
{
    lemma_write_text_geometry(st, s);
    assert(spec_clear(spec_write_text(st, s)) =~= spec_clear(st));
}

/// A printable character whose width would reach or exceed the right
/// edge triggers exactly one newline before it is drawn: the glyph is
/// rendered in full from the left margin of the following (possibly
/// cleared) line, never clipped at the edge.
pub proof fn lemma_wrap_before_draw(st: WriterState, c: char)
    requires
        st.wf(),
        c != '\n',
        c != '\r',
        st.x + CHAR_RASTER_WIDTH >= st.info.width,
    ensures
        ({
            let started = if spec_newline(st).y + CHAR_RASTER_HEIGHT + BORDER_PADDING
                >= st.info.height {
                spec_clear(spec_newline(st))
            } else {
                spec_newline(st)
            };
            &&& spec_write_char(st, c) == spec_draw_raster(started, raster_of(c))
            &&& started.x == BORDER_PADDING
            &&& started.x + CHAR_RASTER_WIDTH <= st.info.width
        }),
{
}

/// A printable character whose height would reach or exceed the bottom
/// edge (with no horizontal wrap intervening) triggers the full
/// clear-and-reset, and the glyph is still drawn afterwards on the
/// blanked surface from its top border — the character is never lost.
pub proof fn lemma_clear_before_draw(st: WriterState, c: char)
    requires
        st.wf(),
        c != '\n',
        c != '\r',
        st.x + CHAR_RASTER_WIDTH < st.info.width,
        st.y + CHAR_RASTER_HEIGHT + BORDER_PADDING >= st.info.height,
    ensures
        spec_write_char(st, c) == spec_draw_raster(spec_clear(st), raster_of(c)),
        spec_clear(st).x == BORDER_PADDING,
        spec_clear(st).y == BORDER_PADDING,
        spec_clear(st).y + CHAR_RASTER_HEIGHT <= st.info.height,
{
}

/// Grayscale encoding is a hard threshold: intensity 200 is off, 201 on.
pub proof fn lemma_grayscale_boundary()
    ensures
        color_bytes(200, PixelFormat::U8) == seq![0u8, 0u8, 0u8, 0u8],
        color_bytes(201, PixelFormat::U8) == seq![0xfu8, 0u8, 0u8, 0u8],
{
}

/// An unrecognized pixel format never fails: every intensity encodes to
/// the same fixed opaque-white fallback color.
pub proof fn lemma_unknown_format_white(intensity: u8)
    ensures
        color_bytes(intensity, PixelFormat::Unknown) == seq![0xffu8, 0xffu8, 0xffu8, 0u8],
{
}

/// Rendering a concatenated text is rendering its two parts in turn.
pub proof fn lemma_write_text_concat(st: WriterState, a: Seq<char>, b: Seq<char>)
    ensures
        spec_write_text(st, a + b) == spec_write_text(spec_write_text(st, a), b),
    decreases a.len(),
{
    if a.len() == 0 {
        assert(a + b =~= b);
        assert(spec_write_text(st, a) == st);
    } else {
        assert((a + b)[0] == a[0]);
        assert((a + b).drop_first() =~= a.drop_first() + b);
        lemma_write_text_concat(spec_write_char(st, a[0]), a.drop_first(), b);
        assert(spec_write_text(st, a + b) == spec_write_text(
            spec_write_char(st, a[0]),
            a.drop_first() + b,
        ));
    }
}

/// Appending one character to a text extends the rendering by exactly
/// that character's processing.
pub proof fn lemma_write_text_snoc(st: WriterState, s: Seq<char>, c: char)
    ensures
        spec_write_text(st, s.push(c)) == spec_write_char(spec_write_text(st, s), c),
    decreases s.len(),
{
    if s.len() == 0 {
        assert(s.push(c)[0] == c);
        assert(s.push(c).drop_first() =~= Seq::<char>::empty());
        assert(spec_write_text(st, s.push(c)) == spec_write_text(
            spec_write_char(st, c),
            Seq::<char>::empty(),
        ));
    } else {
        assert(s.push(c)[0] == s[0]);
        assert(s.push(c).drop_first() =~= s.drop_first().push(c));
        lemma_write_text_snoc(spec_write_char(st, s[0]), s.drop_first(), c);
        assert(spec_write_text(st, s.push(c)) == spec_write_text(
            spec_write_char(st, s[0]),
            s.drop_first().push(c),
        ));
        assert(spec_write_text(st, s) == spec_write_text(
            spec_write_char(st, s[0]),
            s.drop_first(),
        ));
    }
}

} // verus!
