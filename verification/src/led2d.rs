//! Building blocks for NeoPixel-style 2D LED panels: the frame of pixels,
//! the fonts, and where the glyphs of a text go.

use vstd::prelude::*;

verus! {

/// An LED color: red, green and blue levels.
#[derive(Clone, Copy, Debug, PartialEq, Eq, Structural)]
pub struct Rgb8 {
    pub r: u8,
    pub g: u8,
    pub b: u8,
}

impl Rgb8 {
    /// Creates a color.
    pub fn new(r: u8, g: u8, b: u8) -> (color: Self)
        ensures
            color == (Rgb8 { r, g, b }),
    {
        Rgb8 { r, g, b }
    }
}

/// The color of the `glyph_index`-th drawn glyph: the colors cycle one per
/// glyph, and with no colors every glyph is white.
pub fn glyph_color(colors: &[Rgb8], glyph_index: usize) -> (color: Rgb8)
    ensures
        colors@.len() == 0 ==> color == (Rgb8 { r: 255, g: 255, b: 255 }),
        colors@.len() > 0 ==> color == colors@[glyph_index as int % colors@.len() as int],
{
    if colors.len() == 0 {
        Rgb8 { r: 255, g: 255, b: 255 }
    } else {
        colors[glyph_index % colors.len()]
    }
}

/// 2D pixel array used for general graphics on LED panels: rows of pixels,
/// `(0, 0)` at the top-left, x growing to the right and y downward.
#[derive(Clone, Copy, Debug)]
pub struct Frame2d<const W: usize, const H: usize>(pub [[Rgb8; W]; H]);

impl<const W: usize, const H: usize> Frame2d<W, H> {
    /// The pixel at column `x` of row `y`.
    pub open spec fn pixel(&self, x: int, y: int) -> Rgb8 {
        self.0@[y]@[x]
    }

    /// Whether every pixel has `color`.
    pub open spec fn is_filled_with(&self, color: Rgb8) -> bool {
        forall|y: int, x: int| 0 <= y < H && 0 <= x < W ==> #[trigger] self.pixel(x, y) == color
    }

    /// Create a new blank (all black) frame.
    #[must_use]
    pub fn new() -> (frame: Self)
        ensures
            frame.is_filled_with(Rgb8 { r: 0, g: 0, b: 0 }),
    {
        Frame2d([[Rgb8 { r: 0, g: 0, b: 0 }; W]; H])
    }

    /// Create a frame filled with a single color.
    #[must_use]
    pub fn filled(color: Rgb8) -> (frame: Self)
        ensures
            frame.is_filled_with(color),
    {
        Frame2d([[color; W]; H])
    }

    /// The pixel at `(x_index, y_index)`; both must lie inside the frame.
    pub fn get(&self, x_index: usize, y_index: usize) -> (color: Rgb8)
        requires
            x_index < W,
            y_index < H,
        ensures
            color == self.pixel(x_index as int, y_index as int),
    {
        self.0[y_index][x_index]
    }

    /// Sets the pixel at `(x_index, y_index)`; both must lie inside the frame.
    /// Every other pixel keeps its color.
    pub fn set(&mut self, x_index: usize, y_index: usize, color: Rgb8)
        requires
            x_index < W,
            y_index < H,
        ensures
            forall|y: int, x: int|
                0 <= y < H && 0 <= x < W ==> #[trigger] final(self).pixel(x, y) == if x
                    == x_index && y == y_index {
                    color
                } else {
                    old(self).pixel(x, y)
                },
    {
        let mut row = self.0[y_index];
        row[x_index] = color;
        self.0[y_index] = row;
    }

    /// Draws one pixel at a point that may lie outside the frame: points
    /// outside are clipped away.
    pub fn draw_pixel(&mut self, x: i32, y: i32, color: Rgb8)
        ensures
            forall|row: int, column: int|
                0 <= row < H && 0 <= column < W ==> #[trigger] final(self).pixel(column, row)
                    == if column == x && row == y {
                    color
                } else {
                    old(self).pixel(column, row)
                },
    {
        if x >= 0 && y >= 0 && (x as usize) < W && (y as usize) < H {
            self.set(x as usize, y as usize, color);
        }
    }
}

impl<const W: usize, const H: usize> Default for Frame2d<W, H> {
    fn default() -> (frame: Self)
        ensures
            frame.is_filled_with(Rgb8 { r: 0, g: 0, b: 0 }),
    {
        Self::new()
    }
}

/// Fonts available for use with LED panel displays.
///
/// Fonts with `Trim` suffix remove blank spacing to pack text more tightly on small displays.
#[derive(Clone, Copy, Debug, PartialEq, Eq)]
pub enum Led2dFont {
    /// 3x4 monospace font, trimmed (compact layout).
    Font3x4Trim,
    /// 4x6 monospace font.
    Font4x6,
    /// 3x5 monospace font, trimmed (compact layout).
    Font3x5Trim,
    /// 5x7 monospace font.
    Font5x7,
    /// 4x6 monospace font, trimmed (compact layout).
    Font4x6Trim,
    /// 5x8 monospace font.
    Font5x8,
    /// 4x7 monospace font, trimmed (compact layout).
    Font4x7Trim,
    /// 6x9 monospace font.
    Font6x9,
    /// 5x8 monospace font, trimmed (compact layout).
    Font5x8Trim,
    /// 6x10 monospace font.
    Font6x10,
    /// 5x9 monospace font, trimmed (compact layout).
    Font5x9Trim,
    /// 6x12 monospace font.
    Font6x12,
    /// 5x11 monospace font, trimmed (compact layout).
    Font5x11Trim,
    /// 6x13 monospace font.
    Font6x13,
    /// 5x12 monospace font, trimmed (compact layout).
    Font5x12Trim,
    /// 6x13 bold monospace font.
    Font6x13Bold,
    /// 5x12 bold monospace font, trimmed (compact layout).
    Font5x12TrimBold,
    /// 6x13 italic monospace font.
    Font6x13Italic,
    /// 5x12 italic monospace font, trimmed (compact layout).
    Font5x12TrimItalic,
    /// 7x13 monospace font.
    Font7x13,
    /// 6x12 monospace font, trimmed (compact layout).
    Font6x12Trim,
    /// 7x13 bold monospace font.
    Font7x13Bold,
    /// 6x12 bold monospace font, trimmed (compact layout).
    Font6x12TrimBold,
    /// 7x13 italic monospace font.
    Font7x13Italic,
    /// 6x12 italic monospace font, trimmed (compact layout).
    Font6x12TrimItalic,
    /// 7x14 monospace font.
    Font7x14,
    /// 6x13 monospace font, trimmed (compact layout).
    Font6x13Trim,
    /// 7x14 bold monospace font.
    Font7x14Bold,
    /// 6x13 bold monospace font, trimmed (compact layout).
    Font6x13TrimBold,
    /// 8x13 monospace font.
    Font8x13,
    /// 7x12 monospace font, trimmed (compact layout).
    Font7x12Trim,
    /// 8x13 bold monospace font.
    Font8x13Bold,
    /// 7x12 bold monospace font, trimmed (compact layout).
    Font7x12TrimBold,
    /// 8x13 italic monospace font.
    Font8x13Italic,
    /// 7x12 italic monospace font, trimmed (compact layout).
    Font7x12TrimItalic,
    /// 9x15 monospace font.
    Font9x15,
    /// 8x14 monospace font, trimmed (compact layout).
    Font8x14Trim,
    /// 9x15 bold monospace font.
    Font9x15Bold,
    /// 8x14 bold monospace font, trimmed (compact layout).
    Font8x14TrimBold,
    /// 9x18 monospace font.
    Font9x18,
    /// 8x17 monospace font, trimmed (compact layout).
    Font8x17Trim,
    /// 9x18 bold monospace font.
    Font9x18Bold,
    /// 8x17 bold monospace font, trimmed (compact layout).
    Font8x17TrimBold,
    /// 10x20 monospace font.
    Font10x20,
    /// 9x19 monospace font, trimmed (compact layout).
    Font9x19Trim,
}

/// Whether a font packs its glyphs one pixel tighter in each direction.
pub open spec fn packs_tighter(font: Led2dFont) -> bool {
    match font {
        Led2dFont::Font3x5Trim
        | Led2dFont::Font4x6Trim
        | Led2dFont::Font4x7Trim
        | Led2dFont::Font5x8Trim
        | Led2dFont::Font5x9Trim
        | Led2dFont::Font5x11Trim
        | Led2dFont::Font5x12Trim
        | Led2dFont::Font5x12TrimBold
        | Led2dFont::Font5x12TrimItalic
        | Led2dFont::Font6x12Trim
        | Led2dFont::Font6x12TrimBold
        | Led2dFont::Font6x12TrimItalic
        | Led2dFont::Font6x13Trim
        | Led2dFont::Font6x13TrimBold
        | Led2dFont::Font7x12Trim
        | Led2dFont::Font7x12TrimBold
        | Led2dFont::Font7x12TrimItalic
        | Led2dFont::Font8x14Trim
        | Led2dFont::Font8x14TrimBold
        | Led2dFont::Font8x17Trim
        | Led2dFont::Font8x17TrimBold
        | Led2dFont::Font9x19Trim => true,
        _ => false,
    }
}

impl Led2dFont {
    /// Return spacing reduction for trimmed variants as `(width_reduction, height_reduction)`.
    #[must_use]
    pub fn spacing_reduction(self) -> (reduction: (i32, i32))
        ensures
            reduction == if packs_tighter(self) { (1i32, 1i32) } else { (0i32, 0i32) },
    {
        match self {
            Self::Font3x4Trim
            | Self::Font4x6
            | Self::Font5x7
            | Self::Font5x8
            | Self::Font6x9
            | Self::Font6x10
            | Self::Font6x12
            | Self::Font6x13
            | Self::Font6x13Bold
            | Self::Font6x13Italic
            | Self::Font7x13
            | Self::Font7x13Bold
            | Self::Font7x13Italic
            | Self::Font7x14
            | Self::Font7x14Bold
            | Self::Font8x13
            | Self::Font8x13Bold
            | Self::Font8x13Italic
            | Self::Font9x15
            | Self::Font9x15Bold
            | Self::Font9x18
            | Self::Font9x18Bold
            | Self::Font10x20 => (0, 0),
            Self::Font3x5Trim
            | Self::Font4x6Trim
            | Self::Font4x7Trim
            | Self::Font5x8Trim
            | Self::Font5x9Trim
            | Self::Font5x11Trim
            | Self::Font5x12Trim
            | Self::Font5x12TrimBold
            | Self::Font5x12TrimItalic
            | Self::Font6x12Trim
            | Self::Font6x12TrimBold
            | Self::Font6x12TrimItalic
            | Self::Font6x13Trim
            | Self::Font6x13TrimBold
            | Self::Font7x12Trim
            | Self::Font7x12TrimBold
            | Self::Font7x12TrimItalic
            | Self::Font8x14Trim
            | Self::Font8x14TrimBold
            | Self::Font8x17Trim
            | Self::Font8x17TrimBold
            | Self::Font9x19Trim => (1, 1),
        }
    }
}

/// A font's glyph cell and baseline, in pixels.
#[derive(Clone, Copy, Debug, PartialEq, Eq)]
pub struct GlyphMetrics {
    pub width: i32,
    pub height: i32,
    pub baseline: i32,
}

/// Where one glyph of a text is drawn: the character and its baseline
/// position. Glyphs take the colors in turn by their place in the list.
#[derive(Clone, Copy, Debug, PartialEq, Eq)]
pub struct GlyphPosition {
    pub ch: char,
    pub x: i32,
    pub y: i32,
}

/// Where the text cursor stands, whether the text ran off the bottom, and
/// the glyphs placed so far.
pub ghost struct TextLayout {
    pub x: int,
    pub y: int,
    pub done: bool,
    pub placed: Seq<GlyphPosition>,
}

/// One character of text layout: a newline moves to the start of the next
/// row and ends the text once that row starts below the frame; a glyph that
/// would cross the right edge is skipped; any other glyph is placed and the
/// cursor advances.
pub open spec fn layout_step(
    layout: TextLayout,
    ch: char,
    advance_x: int,
    advance_y: int,
    baseline: int,
    width: int,
    height: int,
) -> TextLayout {
    if layout.done {
        layout
    } else if ch == '\n' {
        let y = layout.y + advance_y;
        TextLayout { x: 0, y, done: y - baseline >= height, placed: layout.placed }
    } else if layout.x + advance_x > width {
        layout
    } else {
        TextLayout {
            x: layout.x + advance_x,
            y: layout.y,
            done: false,
            placed: layout.placed.push(
                GlyphPosition { ch, x: layout.x as i32, y: layout.y as i32 },
            ),
        }
    }
}

/// The layout after the first `count` characters of `text`.
pub open spec fn layout_prefix(
    text: Seq<char>,
    count: nat,
    advance_x: int,
    advance_y: int,
    baseline: int,
    width: int,
    height: int,
) -> TextLayout
    decreases count,
{
    if count == 0 {
        TextLayout { x: 0, y: baseline, done: false, placed: Seq::empty() }
    } else {
        layout_step(
            layout_prefix(text, (count - 1) as nat, advance_x, advance_y, baseline, width, height),
            text[count - 1],
            advance_x,
            advance_y,
            baseline,
            width,
            height,
        )
    }
}

/// The glyphs of `text` on a `W`×`H` frame.
pub open spec fn text_glyphs(
    text: Seq<char>,
    metrics: GlyphMetrics,
    spacing_reduction: (i32, i32),
    width: int,
    height: int,
) -> Seq<GlyphPosition> {
    if width <= 0 || height <= 0 {
        Seq::empty()
    } else {
        layout_prefix(
            text,
            text.len(),
            metrics.width - spacing_reduction.0,
            metrics.height - spacing_reduction.1,
            metrics.baseline as int,
            width,
            height,
        ).placed
    }
}

/// Lays out text on a `W`×`H` frame in a font with `metrics`, packed
/// tighter by `spacing_reduction`.
///
/// Text flows left to right from the top-left baseline; a newline starts
/// the next row. Characters that would cross the right edge are skipped (no
/// wrapping), and the text ends once a row starts below the frame.
pub fn text_glyph_positions<const W: usize, const H: usize>(
    text: &[char],
    metrics: GlyphMetrics,
    spacing_reduction: (i32, i32),
) -> (glyphs: Vec<GlyphPosition>)
    requires
        W <= i32::MAX,
        H <= i32::MAX,
        0 <= metrics.width - spacing_reduction.0,
        0 <= metrics.height - spacing_reduction.1,
        W + metrics.width - spacing_reduction.0 <= i32::MAX,
        metrics.height - spacing_reduction.1 <= i32::MAX,
        metrics.baseline + H + metrics.height - spacing_reduction.1 <= i32::MAX,
        H + metrics.height - spacing_reduction.1 <= i32::MAX,
    ensures
        glyphs@ == text_glyphs(text@, metrics, spacing_reduction, W as int, H as int),
{
    let advance_x = metrics.width - spacing_reduction.0;
    let advance_y = metrics.height - spacing_reduction.1;
    let width_limit = W as i32;
    let height_limit = H as i32;
    let mut glyphs: Vec<GlyphPosition> = Vec::new();
    if height_limit <= 0 || width_limit <= 0 {
        return glyphs;
    }
    let baseline = metrics.baseline;
    let mut x = 0i32;
    let mut y = baseline;
    let mut done = false;
    let mut index = 0usize;
    let ghost ax = advance_x as int;
    let ghost ay = advance_y as int;
    while index < text.len() && !done
        invariant
            index <= text@.len(),
            ax == advance_x,
            ay == advance_y,
            0 <= ax,
            0 <= ay,
            W + ax <= i32::MAX,
            baseline + H + ay <= i32::MAX,
            H + ay <= i32::MAX,
            width_limit == W,
            height_limit == H,
            0 <= x <= W,
            baseline <= y,
            !done ==> y - baseline < H,
            layout_prefix(text@, index as nat, ax, ay, baseline as int, W as int, H as int)
                == (TextLayout { x: x as int, y: y as int, done, placed: glyphs@ }),
            done ==> forall|count: nat|
                index <= count <= text@.len() ==> #[trigger] layout_prefix(
                    text@,
                    count,
                    ax,
                    ay,
                    baseline as int,
                    W as int,
                    H as int,
                ) == layout_prefix(text@, index as nat, ax, ay, baseline as int, W as int, H as int),
        decreases text@.len() - index,
    {
        let ch = text[index];
        let ghost before = layout_prefix(
            text@,
            index as nat,
            ax,
            ay,
            baseline as int,
            W as int,
            H as int,
        );
        if ch == '\n' {
            x = 0;
            y = y + advance_y;
            if y - baseline >= height_limit {
                done = true;
            }
        } else if x + advance_x <= width_limit {
            glyphs.push(GlyphPosition { ch, x, y });
            x = x + advance_x;
        }
        index += 1;
        proof {
            assert(layout_prefix(text@, index as nat, ax, ay, baseline as int, W as int, H as int)
                == layout_step(before, ch, ax, ay, baseline as int, W as int, H as int));
            if done {
                assert forall|count: nat| index <= count <= text@.len() implies #[trigger] layout_prefix(
                    text@,
                    count,
                    ax,
                    ay,
                    baseline as int,
                    W as int,
                    H as int,
                ) == layout_prefix(text@, index as nat, ax, ay, baseline as int, W as int, H as int) by {
                    lemma_layout_stays_done(text@, index as nat, count, ax, ay, baseline as int, W as int, H as int);
                }
            }
        }
    }
    proof {
        if !done {
            assert(index == text@.len());
        }
        assert(layout_prefix(text@, text@.len(), ax, ay, baseline as int, W as int, H as int)
            == layout_prefix(text@, index as nat, ax, ay, baseline as int, W as int, H as int));
    }
    glyphs
}

/// Once the text has run off the bottom, the layout no longer changes.
proof fn lemma_layout_stays_done(
    text: Seq<char>,
    from: nat,
    to: nat,
    advance_x: int,
    advance_y: int,
    baseline: int,
    width: int,
    height: int,
)
    requires
        from <= to,
        layout_prefix(text, from, advance_x, advance_y, baseline, width, height).done,
    ensures
        layout_prefix(text, to, advance_x, advance_y, baseline, width, height) == layout_prefix(
            text,
            from,
            advance_x,
            advance_y,
            baseline,
            width,
            height,
        ),
    decreases to - from,
{
    if from < to {
        lemma_layout_stays_done(text, from, (to - 1) as nat, advance_x, advance_y, baseline, width, height);
    }
}

} // verus!
