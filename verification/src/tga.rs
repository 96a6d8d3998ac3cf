//! Compile-time images: TGA decoding into RGB888, conversion to RGB565, and
//! colour-key visibility masks.

use vstd::prelude::*;
use crate::orientation::{Point, Size};
use crate::tiling::Rectangle;

verus! {

/// Bytes a one-bit-per-pixel mask of `pixel_count` pixels needs.
pub open spec fn mask_bytes_for(pixel_count: int) -> int {
    (pixel_count + 7) / 8
}

/// Returns the storage length required by [`MaskFixed`] for an image size:
/// one bit per pixel, the last byte padded.
pub fn mask_byte_count(width: usize, height: usize) -> (byte_count: usize)
    requires
        width * height <= usize::MAX,
    ensures
        byte_count == mask_bytes_for(width * height),
{
    let pixel_count = width * height;
    let whole = pixel_count / 8;
    if pixel_count % 8 == 0 {
        whole
    } else {
        whole + 1
    }
}

/// A fixed-size RGB888 source image, row-major from the top-left, each
/// pixel `[red, green, blue]`.
pub struct Image888Fixed<const W: usize, const H: usize, const N: usize> {
    pub pixels: [[u8; 3]; N],
}

/// A fixed-size RGB565 image, row-major from the top-left, each pixel
/// packed as `RRRRR_GGGGGG_BBBBB`.
pub struct Image565Fixed<const W: usize, const H: usize, const N: usize> {
    pub pixels: [u16; N],
}

/// A packed binary visibility mask with one bit per image pixel, row-major,
/// least-significant bit first within each byte.
pub struct MaskFixed<const W: usize, const H: usize, const MASK_N: usize> {
    pub bits: [u8; MASK_N],
}

/// The little-endian `u16` at `offset`.
pub open spec fn tga_u16(bytes: Seq<u8>, offset: int) -> int {
    bytes[offset] + 256 * bytes[offset + 1]
}

/// `bytes` hold an uncompressed true-colour TGA of the given size, with 24
/// or 32 bits per pixel, no colour map, left-to-right rows, and enough pixel
/// data.
pub open spec fn tga_header_ok(bytes: Seq<u8>, width: int, height: int) -> bool {
    &&& bytes.len() >= 18
    &&& bytes[1] == 0
    &&& bytes[2] == 2
    &&& bytes[3] == 0 && bytes[4] == 0 && bytes[5] == 0 && bytes[6] == 0 && bytes[7] == 0
    &&& tga_u16(bytes, 12) == width
    &&& tga_u16(bytes, 14) == height
    &&& (bytes[16] == 24 || bytes[16] == 32)
    &&& bytes[17] & 0x10 == 0
    &&& bytes.len() >= 18 + bytes[0] + width * height * (bytes[16] / 8)
}

/// The offset of the first pixel byte (after the header and the image ID).
pub open spec fn tga_pixel_start(bytes: Seq<u8>) -> int {
    18 + bytes[0]
}

/// Rows are stored top row first.
pub open spec fn tga_top_origin(bytes: Seq<u8>) -> bool {
    bytes[17] & 0x20 != 0
}

/// The byte offset of the pixel at column `x`, row `y` (from the top) of a
/// TGA image `width` by `height`.
pub open spec fn tga_pixel_offset(bytes: Seq<u8>, width: int, height: int, x: int, y: int) -> int {
    let source_y = if tga_top_origin(bytes) { y } else { height - 1 - y };
    tga_pixel_start(bytes) + (source_y * width + x) * (bytes[16] / 8)
}

fn read_u16(bytes: &[u8], offset: usize) -> (value: u16)
    requires
        offset + 1 < bytes@.len(),
    ensures
        value == tga_u16(bytes@, offset as int),
{
    let low = bytes[offset];
    let high = bytes[offset + 1];
    let value = low as u16 | ((high as u16) << 8);
    proof {
        crate::bits::lemma_u16_from_le_bytes(low, high);
    }
    value
}

fn parse_header(bytes: &[u8], width: usize, height: usize) -> (layout: (usize, usize, bool))
    requires
        tga_header_ok(bytes@, width as int, height as int),
    ensures
        layout.0 == tga_pixel_start(bytes@),
        layout.1 == bytes@[16] / 8,
        layout.2 == tga_top_origin(bytes@),
{
    let bytes_per_pixel = (bytes[16] / 8) as usize;
    let pixel_start = 18 + bytes[0] as usize;
    (pixel_start, bytes_per_pixel, bytes[17] & 0x20 != 0)
}

proof fn lemma_pixel_offset_in_bounds(bytes: Seq<u8>, width: int, height: int, x: int, y: int)
    requires
        tga_header_ok(bytes, width, height),
        0 <= x < width,
        0 <= y < height,
    ensures
        ({
            let source_y = if tga_top_origin(bytes) { y } else { height - 1 - y };
            let bpp = bytes[16] / 8;
            &&& 0 <= source_y < height
            &&& 0 <= source_y * width + x <= (source_y * width + x) * bpp
            &&& tga_pixel_offset(bytes, width, height, x, y) == tga_pixel_start(bytes) + (source_y
                * width + x) * bpp
            &&& tga_pixel_offset(bytes, width, height, x, y) + 2 < bytes.len()
        }),
{
    let source_y = if tga_top_origin(bytes) { y } else { height - 1 - y };
    let bpp = bytes[16] / 8;
    assert(bpp == 3 || bpp == 4);
    assert((source_y * width + x) * bpp + bpp <= width * height * bpp) by (nonlinear_arith)
        requires
            0 <= source_y < height,
            0 <= x < width,
            bpp >= 3,
    ;
    assert(0 <= source_y * width + x <= (source_y * width + x) * bpp) by (nonlinear_arith)
        requires
            0 <= source_y,
            0 <= x,
            width >= 0,
            bpp >= 3,
    ;
}

/// TGA row order: rows are stored bottom row first unless bit 5 (`0x20`) of
/// the image descriptor (byte 17) is set. So the pixel at column `x` of row
/// `y`, counted from the top, is read from stored row `height - 1 - y` of a
/// bottom-origin file and from stored row `y` of a top-origin file, each
/// stored row holding `width` pixels of `bytes[16] / 8` bytes after the
/// header and the image ID.
pub proof fn law_tga_row_order(bytes: Seq<u8>, width: int, height: int, x: int, y: int)
    requires
        tga_header_ok(bytes, width, height),
        0 <= x < width,
        0 <= y < height,
    ensures
        bytes[17] & 0x20 == 0 ==> tga_pixel_offset(bytes, width, height, x, y) == 18 + bytes[0] + ((
        height - 1 - y) * width + x) * (bytes[16] / 8),
        bytes[17] & 0x20 != 0 ==> tga_pixel_offset(bytes, width, height, x, y) == 18 + bytes[0] + (y
            * width + x) * (bytes[16] / 8),
{
}

/// Whether a pixel is treated as the magenta colour key: red and blue at
/// least 200, green at most 60.
pub open spec fn is_magenta(red: u8, green: u8, blue: u8) -> bool {
    red >= 200 && blue >= 200 && green <= 60
}

/// The RGB565 packing of an RGB888 colour: each channel keeps its top bits.
pub open spec fn rgb565_of(red: u8, green: u8, blue: u8) -> int {
    (red / 8) * 2048 + (green / 4) * 32 + blue / 8
}

/// Bit `index` of a packed mask.
pub open spec fn mask_bit(bits: Seq<u8>, index: int) -> bool {
    bits[index / 8] & (1u8 << ((index % 8) as u8)) != 0
}

proof fn lemma_set_bit(byte: u8, k: u8, j: u8)
    requires
        k < 8,
        j < 8,
    ensures
        ((byte | (1u8 << k)) & (1u8 << j) != 0) == (j == k || byte & (1u8 << j) != 0),
{
    assert(((byte | (1u8 << k)) & (1u8 << j) != 0) == (j == k || byte & (1u8 << j) != 0))
        by (bit_vector)
        requires
            k < 8,
            j < 8,
    ;
}

impl<const W: usize, const H: usize, const N: usize> Image888Fixed<W, H, N> {
    /// Decodes a supported TGA, preserving RGB and discarding alpha; rows
    /// stored bottom-up are flipped so pixel 0 is the top-left.
    pub fn from_tga(bytes: &[u8]) -> (image: Self)
        requires
            N == W * H,
            tga_header_ok(bytes@, W as int, H as int),
        ensures
            forall|x: int, y: int|
                0 <= x < W && 0 <= y < H ==> {
                    let offset = tga_pixel_offset(bytes@, W as int, H as int, x, y);
                    #[trigger] image.pixels@[y * W + x]@ == seq![
                        bytes@[offset + 2],
                        bytes@[offset + 1],
                        bytes@[offset],
                    ]
                },
            forall|x: int, y: int|
                0 <= x < W && 0 <= y < H ==> {
                    let stored_row = if bytes@[17] & 0x20 == 0 { H - 1 - y } else { y };
                    let offset = 18 + bytes@[0] + (stored_row * W + x) * (bytes@[16] / 8);
                    #[trigger] image.pixels@[y * W + x]@ == seq![
                        bytes@[offset + 2],
                        bytes@[offset + 1],
                        bytes@[offset],
                    ]
                },
    {
        let (pixel_start, bytes_per_pixel, top_origin) = parse_header(bytes, W, H);
        let byte_len = bytes.len();
        let mut pixels = [[0u8; 3]; N];
        let mut y = 0usize;
        while y < H
            invariant
                N == W * H,
                tga_header_ok(bytes@, W as int, H as int),
                pixel_start == tga_pixel_start(bytes@),
                bytes_per_pixel == bytes@[16] / 8,
                top_origin == tga_top_origin(bytes@),
                byte_len == bytes@.len(),
                y <= H,
                forall|px: int, py: int|
                    0 <= px < W && 0 <= py < y ==> {
                        let offset = tga_pixel_offset(bytes@, W as int, H as int, px, py);
                        #[trigger] pixels@[py * W + px]@ == seq![
                            bytes@[offset + 2],
                            bytes@[offset + 1],
                            bytes@[offset],
                        ]
                    },
            decreases H - y,
        {
            let mut x = 0usize;
            while x < W
                invariant
                    N == W * H,
                    tga_header_ok(bytes@, W as int, H as int),
                    pixel_start == tga_pixel_start(bytes@),
                    bytes_per_pixel == bytes@[16] / 8,
                    top_origin == tga_top_origin(bytes@),
                    byte_len == bytes@.len(),
                    y < H,
                    x <= W,
                    forall|px: int, py: int|
                        0 <= px < W && 0 <= py < y ==> {
                            let offset = tga_pixel_offset(bytes@, W as int, H as int, px, py);
                            #[trigger] pixels@[py * W + px]@ == seq![
                                bytes@[offset + 2],
                                bytes@[offset + 1],
                                bytes@[offset],
                            ]
                        },
                    forall|px: int|
                        0 <= px < x ==> {
                            let offset = tga_pixel_offset(bytes@, W as int, H as int, px, y as int);
                            #[trigger] pixels@[y * W + px]@ == seq![
                                bytes@[offset + 2],
                                bytes@[offset + 1],
                                bytes@[offset],
                            ]
                        },
                decreases W - x,
            {
                proof {
                    lemma_pixel_offset_in_bounds(bytes@, W as int, H as int, x as int, y as int);
                    assert(y * W + x < N) by (nonlinear_arith)
                        requires
                            y < H,
                            x < W,
                            N == W * H,
                    ;
                }
                let source_y = if top_origin {
                    y
                } else {
                    H - 1 - y
                };
                assert(0 <= source_y * W + x <= (source_y * W + x) * bytes_per_pixel);
                assert(pixel_start + (source_y * W + x) * bytes_per_pixel + 2 < bytes@.len());
                let offset = pixel_start + (source_y * W + x) * bytes_per_pixel;
                let red = bytes[offset + 2];
                let green = bytes[offset + 1];
                let blue = bytes[offset];
                let ghost before = pixels@;
                pixels[y * W + x] = [red, green, blue];
                proof {
                    assert forall|px: int, py: int|
                        0 <= px < W && 0 <= py < y implies #[trigger] pixels@[py * W + px]
                        == before[py * W + px] by {
                        assert(0 <= py * W + px < y * W) by (nonlinear_arith)
                            requires
                                0 <= px < W,
                                0 <= py < y,
                        ;
                        assert(y * W <= y * W + x);
                    }
                    assert forall|px: int| 0 <= px < x implies #[trigger] pixels@[y * W + px]
                        == before[y * W + px] by {}
                    assert([red, green, blue]@ =~= seq![red, green, blue]);
                }
                x += 1;
            }
            proof {
                assert forall|px: int, py: int|
                    0 <= px < W && 0 <= py < y + 1 implies {
                        let offset = tga_pixel_offset(bytes@, W as int, H as int, px, py);
                        #[trigger] pixels@[py * W + px]@ == seq![
                            bytes@[offset + 2],
                            bytes@[offset + 1],
                            bytes@[offset],
                        ]
                    } by {
                    if py == y {
                    }
                }
            }
            y += 1;
        }
        proof {
            assert forall|x: int, y: int| 0 <= x < W && 0 <= y < H implies {
                let stored_row = if bytes@[17] & 0x20 == 0 { H - 1 - y } else { y };
                let offset = 18 + bytes@[0] + (stored_row * W + x) * (bytes@[16] / 8);
                #[trigger] pixels@[y * W + x]@ == seq![
                    bytes@[offset + 2],
                    bytes@[offset + 1],
                    bytes@[offset],
                ]
            } by {
                law_tga_row_order(bytes@, W as int, H as int, x, y);
            }
        }
        Self { pixels }
    }

    /// Converts this source image to RGB565, each channel reduced to the
    /// RGB565 bit depth.
    pub fn to_565(&self) -> (image: Image565Fixed<W, H, N>)
        ensures
            forall|i: int|
                0 <= i < N ==> #[trigger] image.pixels@[i] == rgb565_of(
                    self.pixels@[i]@[0],
                    self.pixels@[i]@[1],
                    self.pixels@[i]@[2],
                ),
    {
        let mut pixels = [0u16; N];
        let mut index = 0usize;
        while index < N
            invariant
                index <= N,
                forall|i: int|
                    0 <= i < index ==> #[trigger] pixels@[i] == rgb565_of(
                        self.pixels@[i]@[0],
                        self.pixels@[i]@[1],
                        self.pixels@[i]@[2],
                    ),
            decreases N - index,
        {
            let pixel = self.pixels[index];
            let red = pixel[0];
            let green = pixel[1];
            let blue = pixel[2];
            let packed = ((red as u16 >> 3) << 11) | ((green as u16 >> 2) << 5) | (blue as u16 >> 3);
            assert(packed == (red / 8) * 2048 + (green / 4) * 32 + blue / 8) by (bit_vector)
                requires
                    packed == ((red as u16 >> 3) << 11) | ((green as u16 >> 2) << 5) | (blue as u16
                        >> 3),
            ;
            pixels[index] = packed;
            index += 1;
        }
        Image565Fixed { pixels }
    }

    /// Derives a binary visibility mask using magenta as the transparent
    /// colour: magenta pixels are clear, all others set, padding bits clear.
    pub fn to_mask_magenta<const MASK_N: usize>(&self) -> (mask: MaskFixed<W, H, MASK_N>)
        requires
            N == W * H,
            MASK_N == mask_bytes_for(W * H),
        ensures
            forall|i: int|
                0 <= i < N ==> #[trigger] mask_bit(mask.bits@, i) == !is_magenta(
                    self.pixels@[i]@[0],
                    self.pixels@[i]@[1],
                    self.pixels@[i]@[2],
                ),
            forall|i: int| N <= i < 8 * MASK_N ==> !#[trigger] mask_bit(mask.bits@, i),
    {
        let mut bits = [0u8; MASK_N];
        let mut index = 0usize;
        proof {
            assert forall|i: int| 0 <= i < 8 * MASK_N implies !#[trigger] mask_bit(bits@, i) by {
                let k = (i % 8) as u8;
                assert(0u8 & (1u8 << k) == 0) by (bit_vector)
                    requires
                        k < 8,
                ;
            }
        }
        while index < N
            invariant
                index <= N,
                N == W * H,
                MASK_N == mask_bytes_for(W * H),
                forall|i: int|
                    0 <= i < index ==> #[trigger] mask_bit(bits@, i) == !is_magenta(
                        self.pixels@[i]@[0],
                        self.pixels@[i]@[1],
                        self.pixels@[i]@[2],
                    ),
                forall|i: int| index <= i < 8 * MASK_N ==> !#[trigger] mask_bit(bits@, i),
            decreases N - index,
        {
            let pixel = self.pixels[index];
            let red = pixel[0];
            let green = pixel[1];
            let blue = pixel[2];
            if !(red >= 200 && blue >= 200 && green <= 60) {
                let byte_index = index / 8;
                let bit_index = (index % 8) as u8;
                let old_byte = bits[byte_index];
                let ghost before = bits@;
                bits[byte_index] = old_byte | (1u8 << bit_index);
                proof {
                    assert forall|i: int| 0 <= i < 8 * MASK_N && i != index implies #[trigger] mask_bit(
                        bits@,
                        i,
                    ) == mask_bit(before, i) by {
                        if i / 8 == byte_index {
                            lemma_set_bit(old_byte, bit_index, (i % 8) as u8);
                        }
                    }
                    lemma_set_bit(old_byte, bit_index, bit_index);
                }
            }
            index += 1;
        }
        MaskFixed { bits }
    }
}

impl<const W: usize, const H: usize, const MASK_N: usize> MaskFixed<W, H, MASK_N> {
    /// Returns whether the row-major pixel at `index` is visible.
    pub fn is_set(&self, index: usize) -> (visible: bool)
        requires
            index / 8 < MASK_N,
        ensures
            visible == mask_bit(self.bits@, index as int),
    {
        self.bits[index / 8] & (1 << (index % 8) as u8) != 0
    }
}


/// The RGB888 expansion of a packed RGB565 colour: each channel's bits are
/// shifted to the top and its top bits repeated below them.
pub open spec fn rgb888_of_565(rgb565: int) -> (int, int, int) {
    let red5 = rgb565 / 2048;
    let green6 = (rgb565 / 32) % 64;
    let blue5 = rgb565 % 32;
    (red5 * 8 + red5 / 4, green6 * 4 + green6 / 16, blue5 * 8 + blue5 / 4)
}

/// Expands a packed RGB565 value (`RRRRR_GGGGGG_BBBBB`) to 8-bit red,
/// green and blue.
pub fn rgb888_from_rgb565(rgb565: u16) -> (rgb: (u8, u8, u8))
    ensures
        (rgb.0 as int, rgb.1 as int, rgb.2 as int) == rgb888_of_565(rgb565 as int),
{
    let red5 = ((rgb565 >> 11) & 0x1f) as u8;
    let green6 = ((rgb565 >> 5) & 0x3f) as u8;
    let blue5 = (rgb565 & 0x1f) as u8;
    let red = (red5 << 3) | (red5 >> 2);
    let green = (green6 << 2) | (green6 >> 4);
    let blue = (blue5 << 3) | (blue5 >> 2);
    assert(red == (rgb565 / 2048) * 8 + (rgb565 / 2048) / 4 && green == ((rgb565 / 32) % 64) * 4
        + ((rgb565 / 32) % 64) / 16 && blue == (rgb565 % 32) * 8 + (rgb565 % 32) / 4)
        by (bit_vector)
        requires
            red5 == ((rgb565 >> 11) & 0x1f) as u8,
            green6 == ((rgb565 >> 5) & 0x3f) as u8,
            blue5 == (rgb565 & 0x1f) as u8,
            red == (red5 << 3) | (red5 >> 2),
            green == (green6 << 2) | (green6 >> 4),
            blue == (blue5 << 3) | (blue5 >> 2),
    ;
    (red, green, blue)
}

/// Packs 8-bit red, green and blue into RGB565 by keeping each channel's
/// high bits.
pub fn rgb565_from_rgb888_components(red: u8, green: u8, blue: u8) -> (rgb565: u16)
    ensures
        rgb565 == rgb565_of(red, green, blue),
{
    let packed = ((red as u16 >> 3) << 11) | ((green as u16 >> 2) << 5) | (blue as u16 >> 3);
    assert(packed == (red / 8) * 2048 + (green / 4) * 32 + blue / 8) by (bit_vector)
        requires
            packed == ((red as u16 >> 3) << 11) | ((green as u16 >> 2) << 5) | (blue as u16 >> 3),
    ;
    packed
}

/// The pixel a display-space point falls on in a `width` × `height`
/// target, or `None` when it lies outside.
pub fn pixel_in_bounds(x: i32, y: i32, width: usize, height: usize) -> (position: Option<(usize, usize)>)
    ensures
        (0 <= x < width && 0 <= y < height) ==> position == Some((x as usize, y as usize)),
        !(0 <= x < width && 0 <= y < height) ==> position is None,
{
    if x < 0 || y < 0 {
        return None;
    }
    let column = x as usize;
    let row = y as usize;
    if column >= width || row >= height {
        return None;
    }
    Some((column, row))
}

/// A read-only view of RGB565 pixels: a rectangle of a row-major image
/// whose rows are `stride` pixels long. View coordinates start at the
/// rectangle's top-left.
#[derive(Clone, Copy, Debug)]
pub struct Image565View {
    pixels: &'static [u16],
    stride: u32,
    source: Rectangle,
}

impl Image565View {
    /// The image's pixels.
    pub closed spec fn spec_pixels(&self) -> Seq<u16> {
        self.pixels@
    }

    /// The image's row length.
    pub closed spec fn spec_stride(&self) -> int {
        self.stride as int
    }

    /// The viewed rectangle, in image coordinates.
    pub closed spec fn spec_source(&self) -> Rectangle {
        self.source
    }

    /// The viewed rectangle lies within the image: a non-negative corner,
    /// rows no longer than the stride, and every row present.
    pub open spec fn wf(&self) -> bool {
        let source = self.spec_source();
        &&& source.top_left.x >= 0
        &&& source.top_left.y >= 0
        &&& source.top_left.x + source.size.width <= self.spec_stride()
        &&& (source.top_left.y + source.size.height) * self.spec_stride()
            <= self.spec_pixels().len()
    }

    /// The pixel at view coordinate `(x, y)`.
    pub open spec fn pixel(&self, x: int, y: int) -> u16 {
        self.spec_pixels()[(self.spec_source().top_left.y + y) * self.spec_stride()
            + self.spec_source().top_left.x + x]
    }

    /// Creates a full-image view of `size` over row-major pixels, which must
    /// number `size.width * size.height`.
    pub fn new(pixels: &'static [u16], size: Size) -> (view: Self)
        requires
            pixels@.len() == size.width * size.height,
        ensures
            view.wf(),
            view.spec_pixels() == pixels@,
            view.spec_stride() == size.width,
            view.spec_source() == (Rectangle { top_left: Point { x: 0, y: 0 }, size }),
    {
        let view = Image565View {
            pixels,
            stride: size.width,
            source: Rectangle::new(Point::new(0, 0), size),
        };
        assert((0 + size.height) * size.width == size.width * size.height) by (nonlinear_arith);
        view
    }

    /// A view of `source` within an image whose rows are `stride` pixels.
    pub(crate) fn new_cropped(pixels: &'static [u16], stride: u32, source: Rectangle) -> (view: Self)
        ensures
            view.spec_pixels() == pixels@,
            view.spec_stride() == stride,
            view.spec_source() == source,
    {
        Image565View { pixels, stride, source }
    }

    /// This view's dimensions (the crop's, for a cropped view).
    pub fn size(&self) -> (size: Size)
        ensures
            size == self.spec_source().size,
    {
        self.source.size
    }

    /// The packed pixel at a view-local coordinate inside the view.
    pub fn pixel_at(&self, point: Point) -> (rgb565: u16)
        requires
            self.wf(),
            0 <= point.x < self.spec_source().size.width,
            0 <= point.y < self.spec_source().size.height,
        ensures
            rgb565 == self.pixel(point.x as int, point.y as int),
    {
        self.pixel_at_coordinates(point.x as usize, point.y as usize)
    }
}


impl Image565View {
    fn pixel_at_coordinates(&self, view_x: usize, view_y: usize) -> (rgb565: u16)
        requires
            self.wf(),
            view_x < self.spec_source().size.width,
            view_y < self.spec_source().size.height,
        ensures
            rgb565 == self.pixel(view_x as int, view_y as int),
    {
        let len = self.pixels.len();
        proof {
            let top = self.source.top_left.y as int;
            let height = self.source.size.height as int;
            assert(top + height <= len) by (nonlinear_arith)
                requires
                    (top + height) * self.stride <= len,
                    self.stride >= 1,
                    top + height >= 0,
            ;
        }
        let source_x = self.source.top_left.x as usize + view_x;
        let source_y = self.source.top_left.y as usize + view_y;
        let stride = self.stride as usize;
        proof {
            let top = self.source.top_left.y as int;
            let height = self.source.size.height as int;
            assert(source_y * stride + source_x < len) by (nonlinear_arith)
                requires
                    source_y < top + height,
                    source_x < stride,
                    (top + height) * stride <= len,
                    0 <= source_y,
                    0 <= source_x,
            ;
        }
        self.pixels[source_y * stride + source_x]
    }

    /// The view's pixels in row-major order (rgb565 iteration order).
    pub fn pixels_row_major(&self) -> (pixels: Vec<u16>)
        requires
            self.wf(),
            self.spec_source().size.width * self.spec_source().size.height <= usize::MAX,
        ensures
            pixels@.len() == self.spec_source().size.width * self.spec_source().size.height,
            forall|y: int, x: int|
                0 <= y < self.spec_source().size.height && 0 <= x < self.spec_source().size.width
                    ==> #[trigger] pixels@[y * self.spec_source().size.width + x] == self.pixel(
                    x,
                    y,
                ),
    {
        let width = self.source.size.width as usize;
        let height = self.source.size.height as usize;
        let total = width * height;
        let mut pixels: Vec<u16> = Vec::new();
        let mut index: usize = 0;
        while index < total
            invariant
                self.wf(),
                width == self.spec_source().size.width,
                height == self.spec_source().size.height,
                total == width * height,
                index <= total,
                pixels@.len() == index,
                forall|i: int|
                    0 <= i < index ==> #[trigger] pixels@[i] == self.pixel(i % width as int, i / width as int),
            decreases total - index,
        {
            proof {
                assert(width > 0 && index / width < height) by (nonlinear_arith)
                    requires
                        index < width * height,
                ;
            }
            let pixel = self.pixel_at_coordinates(index % width, index / width);
            pixels.push(pixel);
            index += 1;
        }
        proof {
            assert forall|y: int, x: int|
                0 <= y < height && 0 <= x < width implies #[trigger] pixels@[y * width + x]
                    == self.pixel(x, y) by {
                vstd::arithmetic::div_mod::lemma_fundamental_div_mod_converse(
                    y * width + x,
                    width as int,
                    y,
                    x,
                );
                assert(y * width + x < width * height) by (nonlinear_arith)
                    requires
                        y < height,
                        x < width,
                        0 <= y,
                        0 <= x,
                ;
            }
        }
        pixels
    }
}

impl<const W: usize, const H: usize, const N: usize> Image565Fixed<W, H, N> {
    /// A view of the rectangle `source` (in image coordinates) of this
    /// image; the rectangle must lie within the image.
    pub fn view_rect(&'static self, source: Rectangle) -> (view: Image565View)
        requires
            N == W * H,
            W <= u32::MAX,
            source.top_left.x >= 0,
            source.top_left.y >= 0,
            source.top_left.x + source.size.width <= W,
            source.top_left.y + source.size.height <= H,
        ensures
            view.wf(),
            view.spec_pixels() == self.pixels@,
            view.spec_stride() == W,
            view.spec_source() == source,
    {
        proof {
            assert((source.top_left.y + source.size.height) * W <= H * W) by (nonlinear_arith)
                requires
                    source.top_left.y + source.size.height <= H,
            ;
            vstd::arithmetic::mul::lemma_mul_is_commutative(W as int, H as int);
        }
        let pixels = self.pixels.as_slice();
        proof {
            broadcast use vstd::array::group_array_axioms;
            assert(pixels@ == self.pixels@);
        }
        Image565View::new_cropped(pixels, W as u32, source)
    }

    /// The whole image as a view.
    pub fn view(&'static self) -> (view: Image565View)
        requires
            N == W * H,
            W <= u32::MAX,
            H <= u32::MAX,
            H <= i32::MAX,
        ensures
            view.wf(),
            view.spec_pixels() == self.pixels@,
            view.spec_stride() == W,
            view.spec_source() == (Rectangle {
                top_left: Point { x: 0, y: 0 },
                size: Size { width: W as u32, height: H as u32 },
            }),
    {
        self.view_rect(Rectangle::new(Point::new(0, 0), Size::new(W as u32, H as u32)))
    }
}

} // verus!
