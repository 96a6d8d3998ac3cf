//! The DNS tester screen: what it shows and where.
//!
//! The dashboard shows the lookup target, a status word, the latest latency
//! and three counters over a background picture chosen by orientation; a
//! notice covers the dashboard while Wi-Fi is not usable. This module decides
//! every text, its rectangle, font, alignment and color; drawing them is the
//! display's business.

use vstd::prelude::*;
use crate::orientation::{Orientation, Point, Size};
use crate::tiling::Rectangle;
use vstd::string::StringSliceAdditionalSpecFns;

verus! {

/// Capacity, in bytes, of the latency text.
pub const LATENCY_TEXT_CAPACITY: usize = 16;

/// Capacity, in bytes, of each counter text.
pub const COUNT_TEXT_CAPACITY: usize = 12;

/// Height, in pixels, of the strips a notice panel is filled in.
pub const PANEL_STRIP_HEIGHT: u32 = 20;

/// The changing values shown by the DNS tester UI.
#[derive(Clone, Copy, Debug, Eq, PartialEq)]
pub struct DnsTesterUiState {
    /// DNS name for the current test.
    pub target: &'static str,
    /// Number of DNS tests started.
    pub queries: u32,
    /// Number of successful DNS tests.
    pub successes: u32,
    /// Number of failed DNS tests.
    pub failures: u32,
    /// Most recent lookup latency in milliseconds.
    pub last_latency_millis: u64,
}

impl Default for DnsTesterUiState {
    fn default() -> (state: Self)
        ensures
            state.target@.len() == 0,
            state.queries == 0,
            state.successes == 0,
            state.failures == 0,
            state.last_latency_millis == 0,
    {
        let target = "";
        proof {
            reveal_strlit("");
        }
        DnsTesterUiState {
            target,
            queries: 0,
            successes: 0,
            failures: 0,
            last_latency_millis: 0,
        }
    }
}

/// A full-screen DNS tester notice shown before the test dashboard is usable.
#[derive(Clone, Copy, Debug, Eq, PartialEq)]
pub enum DnsTesterUiNotice {
    /// The device is joining the configured Wi-Fi network.
    WifiConnecting,
    /// Browser WebAssembly cannot perform arbitrary DNS queries.
    WifiUnavailable,
}

/// Errors from rendering the DNS tester UI.
#[derive(Debug)]
pub enum DnsTesterUiError<F> {
    /// A text did not fit its fixed-size buffer.
    Text,
    /// The display failed to flush.
    Display(F),
}

/// The background picture behind the screen.
#[derive(Clone, Copy, Debug, PartialEq, Eq)]
pub enum DnsTesterBackground {
    /// The 320×240 picture.
    Landscape,
    /// The 240×320 picture.
    Portrait,
}

impl DnsTesterBackground {
    /// The picture for a display orientation: the landscape picture for both
    /// landscape orientations, the portrait one otherwise.
    pub fn for_orientation(orientation: Orientation) -> (background: Self)
        ensures
            background == background_for(orientation),
    {
        match orientation {
            Orientation::Landscape | Orientation::LandscapeInverted => {
                DnsTesterBackground::Landscape
            },
            Orientation::Portrait | Orientation::PortraitInverted => DnsTesterBackground::Portrait,
        }
    }
}

/// The background picture for an orientation.
pub open spec fn background_for(orientation: Orientation) -> DnsTesterBackground {
    match orientation {
        Orientation::Landscape | Orientation::LandscapeInverted => DnsTesterBackground::Landscape,
        _ => DnsTesterBackground::Portrait,
    }
}

/// The fonts the screen uses.
#[derive(Clone, Copy, Debug, PartialEq, Eq)]
pub enum DnsTesterFont {
    /// The 10×20 monospaced font.
    Mono10x20,
    /// The 24-point ProFont.
    ProFont24,
}

/// Horizontal alignment of a text within its rectangle.
#[derive(Clone, Copy, Debug, PartialEq, Eq)]
pub enum DnsTesterAlignment {
    Left,
    Center,
    Right,
}

/// The colors texts are drawn in.
#[derive(Clone, Copy, Debug, PartialEq, Eq)]
pub enum DnsTesterTextColor {
    /// White, for plain values.
    Value,
    /// Soft green, for successes.
    Success,
    /// Coral red, for failures.
    Failure,
}

impl DnsTesterTextColor {
    /// The color as red, green and blue components.
    pub fn rgb(self) -> (rgb: (u8, u8, u8))
        ensures
            rgb == text_rgb(self),
    {
        match self {
            DnsTesterTextColor::Value => (255, 255, 255),
            DnsTesterTextColor::Success => (121, 226, 164),
            DnsTesterTextColor::Failure => (255, 117, 110),
        }
    }
}

/// Red, green and blue components of each text color.
pub open spec fn text_rgb(color: DnsTesterTextColor) -> (u8, u8, u8) {
    match color {
        DnsTesterTextColor::Value => (255u8, 255u8, 255u8),
        DnsTesterTextColor::Success => (121u8, 226u8, 164u8),
        DnsTesterTextColor::Failure => (255u8, 117u8, 110u8),
    }
}

/// The dark desaturated blue of a notice panel, as red, green and blue.
pub fn panel_fill_rgb() -> (rgb: (u8, u8, u8))
    ensures
        rgb == (15u8, 38u8, 55u8),
{
    (15, 38, 55)
}

/// One text of the screen: where it goes, what it says (ASCII or UTF-8
/// bytes), and how it is drawn.
#[derive(Clone, Debug)]
pub struct DnsTesterTextItem {
    pub rectangle: Rectangle,
    pub text: Vec<u8>,
    pub font: DnsTesterFont,
    pub alignment: DnsTesterAlignment,
    pub color: DnsTesterTextColor,
}

/// A text item as a mathematical value.
pub ghost struct TextItemModel {
    pub rectangle: Rectangle,
    pub text: Seq<u8>,
    pub font: DnsTesterFont,
    pub alignment: DnsTesterAlignment,
    pub color: DnsTesterTextColor,
}

impl View for DnsTesterTextItem {
    type V = TextItemModel;

    open spec fn view(&self) -> TextItemModel {
        TextItemModel {
            rectangle: self.rectangle,
            text: self.text@,
            font: self.font,
            alignment: self.alignment,
            color: self.color,
        }
    }
}

/// A rectangle given by its corner and size.
pub open spec fn rect(x: i32, y: i32, width: u32, height: u32) -> Rectangle {
    Rectangle { top_left: Point { x, y }, size: Size { width, height } }
}

/// A text item model.
pub open spec fn text_model(
    rectangle: Rectangle,
    text: Seq<u8>,
    font: DnsTesterFont,
    alignment: DnsTesterAlignment,
    color: DnsTesterTextColor,
) -> TextItemModel {
    TextItemModel { rectangle, text, font, alignment, color }
}

/// The decimal digits of `n` in ASCII, most significant first, without
/// leading zeros (`0` is one digit).
pub open spec fn decimal(n: nat) -> Seq<u8>
    decreases n,
{
    if n < 10 {
        seq![(48 + n) as u8]
    } else {
        decimal(n / 10).push((48 + n % 10) as u8)
    }
}

/// The word in the status box: `TAP` before the first test, `FAIL` once a
/// test failed, `OK` otherwise.
pub open spec fn status_text(state: DnsTesterUiState) -> Seq<u8> {
    if state.queries == 0 {
        seq![0x54u8, 0x41u8, 0x50u8]
    } else if state.failures > 0 {
        seq![0x46u8, 0x41u8, 0x49u8, 0x4cu8]
    } else {
        seq![0x4fu8, 0x4bu8]
    }
}

/// The status box is red once a test failed, green otherwise.
pub open spec fn status_color(state: DnsTesterUiState) -> DnsTesterTextColor {
    if state.failures > 0 {
        DnsTesterTextColor::Failure
    } else {
        DnsTesterTextColor::Success
    }
}

/// The latency text: `--` before the first test, else the latest latency in
/// milliseconds followed by ` ms`.
pub open spec fn latency_text(state: DnsTesterUiState) -> Seq<u8> {
    if state.queries == 0 {
        seq![0x2du8, 0x2du8]
    } else {
        decimal(state.last_latency_millis as nat) + seq![0x20u8, 0x6du8, 0x73u8]
    }
}

/// Whether the latency text fits its buffer (it does up to 13 digits).
pub open spec fn latency_fits(state: DnsTesterUiState) -> bool {
    latency_text(state).len() <= LATENCY_TEXT_CAPACITY
}

/// The dashboard's texts, in drawing order, for an orientation wider than
/// tall and for one taller than wide. The portrait layout has no status box.
pub open spec fn dashboard_layout(orientation: Orientation, state: DnsTesterUiState) -> Seq<
    TextItemModel,
> {
    let mono = DnsTesterFont::Mono10x20;
    let big = DnsTesterFont::ProFont24;
    let value = DnsTesterTextColor::Value;
    let target = state.target.spec_bytes();
    let queries = decimal(state.queries as nat);
    let successes = decimal(state.successes as nat);
    let failures = decimal(state.failures as nat);
    if background_for(orientation) == DnsTesterBackground::Landscape {
        seq![
            text_model(rect(22, 76, 150, 20), target, mono, DnsTesterAlignment::Left, value),
            text_model(
                rect(244, 82, 56, 20),
                status_text(state),
                mono,
                DnsTesterAlignment::Center,
                status_color(state),
            ),
            text_model(
                rect(100, 100, 120, 29),
                latency_text(state),
                big,
                DnsTesterAlignment::Center,
                value,
            ),
            text_model(rect(27, 156, 50, 20), queries, mono, DnsTesterAlignment::Center, value),
            text_model(
                rect(135, 156, 50, 20),
                successes,
                mono,
                DnsTesterAlignment::Center,
                DnsTesterTextColor::Success,
            ),
            text_model(
                rect(243, 156, 50, 20),
                failures,
                mono,
                DnsTesterAlignment::Center,
                DnsTesterTextColor::Failure,
            ),
        ]
    } else {
        seq![
            text_model(rect(22, 68, 190, 20), target, mono, DnsTesterAlignment::Left, value),
            text_model(
                rect(60, 119, 120, 29),
                latency_text(state),
                big,
                DnsTesterAlignment::Center,
                value,
            ),
            text_model(rect(160, 180, 50, 20), queries, mono, DnsTesterAlignment::Right, value),
            text_model(
                rect(160, 202, 50, 20),
                successes,
                mono,
                DnsTesterAlignment::Right,
                DnsTesterTextColor::Success,
            ),
            text_model(
                rect(160, 220, 50, 20),
                failures,
                mono,
                DnsTesterAlignment::Right,
                DnsTesterTextColor::Failure,
            ),
        ]
    }
}

/// Appends the decimal digits of `value` to `out`.
fn push_decimal(value: u64, out: &mut Vec<u8>)
    ensures
        final(out)@ == old(out)@ + decimal(value as nat),
    decreases value,
{
    if value >= 10 {
        push_decimal(value / 10, out);
    }
    let digit = (value % 10) as u8;
    out.push(48 + digit);
    proof {
        let ghost before = old(out)@;
        if value >= 10 {
            assert(decimal(value as nat) == decimal((value / 10) as nat).push(
                (48 + value % 10) as u8,
            ));
            assert(final(out)@ =~= before + decimal(value as nat));
        } else {
            assert(final(out)@ =~= before + decimal(value as nat));
        }
    }
}

/// The decimal digits of `value` in ASCII.
pub fn decimal_text(value: u64) -> (text: Vec<u8>)
    ensures
        text@ == decimal(value as nat),
{
    let mut text: Vec<u8> = Vec::new();
    push_decimal(value, &mut text);
    assert(text@ =~= decimal(value as nat));
    text
}

/// Numbers below `10^digits` have at most `digits` decimal digits.
proof fn lemma_decimal_len(n: nat, digits: nat, bound: int)
    requires
        n < bound,
        bound == vstd::arithmetic::power::pow(10, digits),
        digits >= 1,
    ensures
        decimal(n).len() <= digits,
    decreases digits,
{
    vstd::arithmetic::power::lemma_pow_positive(10, digits);
    if n >= 10 {
        let smaller = vstd::arithmetic::power::pow(10, (digits - 1) as nat);
        assert(bound == 10 * smaller) by {
            reveal(vstd::arithmetic::power::pow);
        }
        if digits == 1 {
            assert(smaller == 1) by {
                reveal(vstd::arithmetic::power::pow);
            }
        } else {
            assert(n / 10 < smaller) by (nonlinear_arith)
                requires
                    n < bound,
                    bound == 10 * smaller,
            ;
            lemma_decimal_len(n / 10, (digits - 1) as nat, smaller);
        }
    }
}

/// Every `u32` has at most ten decimal digits, so the counter texts always
/// fit their buffers.
pub proof fn lemma_count_text_fits(count: u32)
    ensures
        decimal(count as nat).len() <= 10 < COUNT_TEXT_CAPACITY,
{
    assert(vstd::arithmetic::power::pow(10, 10) == 10000000000) by {
        reveal_with_fuel(vstd::arithmetic::power::pow, 11);
    }
    lemma_decimal_len(count as nat, 10, 10000000000);
}

/// The bytes of a string literal's ASCII letters.
fn ascii(bytes: &[u8]) -> (text: Vec<u8>)
    ensures
        text@ == bytes@,
{
    vstd::slice::slice_to_vec(bytes)
}

/// The status word of the dashboard.
fn status_word(state: DnsTesterUiState) -> (word: Vec<u8>)
    ensures
        word@ == status_text(state),
{
    if state.queries == 0 {
        ascii(&[0x54u8, 0x41, 0x50])
    } else if state.failures > 0 {
        ascii(&[0x46u8, 0x41, 0x49, 0x4c])
    } else {
        ascii(&[0x4fu8, 0x4b])
    }
}

/// The latency text, or `None` when it does not fit its buffer.
fn latency_word(state: DnsTesterUiState) -> (word: Option<Vec<u8>>)
    ensures
        match word {
            Some(text) => latency_fits(state) && text@ == latency_text(state),
            None => !latency_fits(state),
        },
{
    if state.queries == 0 {
        return Some(ascii(&[0x2du8, 0x2d]));
    }
    let mut text = decimal_text(state.last_latency_millis);
    if text.len() > LATENCY_TEXT_CAPACITY - 3 {
        return None;
    }
    text.push(0x20);
    text.push(0x6d);
    text.push(0x73);
    assert(text@ =~= latency_text(state));
    Some(text)
}

fn item(
    x: i32,
    y: i32,
    width: u32,
    height: u32,
    text: Vec<u8>,
    font: DnsTesterFont,
    alignment: DnsTesterAlignment,
    color: DnsTesterTextColor,
) -> (item: DnsTesterTextItem)
    ensures
        item@ == text_model(rect(x, y, width, height), text@, font, alignment, color),
{
    DnsTesterTextItem {
        rectangle: Rectangle::new(Point::new(x, y), Size::new(width, height)),
        text,
        font,
        alignment,
        color,
    }
}

/// The dashboard's texts for `state`, in drawing order, laid out for
/// `orientation`; a text error when the latency does not fit its buffer.
pub fn dashboard_text_items<F>(orientation: Orientation, state: DnsTesterUiState) -> (items:
    Result<Vec<DnsTesterTextItem>, DnsTesterUiError<F>>)
    ensures
        match items {
            Ok(items) => latency_fits(state) && items@.map_values(
                |item: DnsTesterTextItem| item@,
            ) == dashboard_layout(orientation, state),
            Err(error) => !latency_fits(state) && error is Text,
        },
{
    let status = status_word(state);
    let latency = match latency_word(state) {
        Some(latency) => latency,
        None => return Err(DnsTesterUiError::Text),
    };
    let queries = decimal_text(state.queries as u64);
    let successes = decimal_text(state.successes as u64);
    let failures = decimal_text(state.failures as u64);
    let target = vstd::slice::slice_to_vec(state.target.as_bytes());
    let mono = DnsTesterFont::Mono10x20;
    let big = DnsTesterFont::ProFont24;
    let value = DnsTesterTextColor::Value;
    let mut items: Vec<DnsTesterTextItem> = Vec::new();
    if orientation.width() > orientation.height() {
        let status_color = if state.failures > 0 {
            DnsTesterTextColor::Failure
        } else {
            DnsTesterTextColor::Success
        };
        items.push(item(22, 76, 150, 20, target, mono, DnsTesterAlignment::Left, value));
        items.push(item(244, 82, 56, 20, status, mono, DnsTesterAlignment::Center, status_color));
        items.push(item(100, 100, 120, 29, latency, big, DnsTesterAlignment::Center, value));
        items.push(item(27, 156, 50, 20, queries, mono, DnsTesterAlignment::Center, value));
        items.push(
            item(
                135,
                156,
                50,
                20,
                successes,
                mono,
                DnsTesterAlignment::Center,
                DnsTesterTextColor::Success,
            ),
        );
        items.push(
            item(
                243,
                156,
                50,
                20,
                failures,
                mono,
                DnsTesterAlignment::Center,
                DnsTesterTextColor::Failure,
            ),
        );
    } else {
        items.push(item(22, 68, 190, 20, target, mono, DnsTesterAlignment::Left, value));
        items.push(item(60, 119, 120, 29, latency, big, DnsTesterAlignment::Center, value));
        items.push(item(160, 180, 50, 20, queries, mono, DnsTesterAlignment::Right, value));
        items.push(
            item(
                160,
                202,
                50,
                20,
                successes,
                mono,
                DnsTesterAlignment::Right,
                DnsTesterTextColor::Success,
            ),
        );
        items.push(
            item(
                160,
                220,
                50,
                20,
                failures,
                mono,
                DnsTesterAlignment::Right,
                DnsTesterTextColor::Failure,
            ),
        );
    }
    assert(items@.map_values(|item: DnsTesterTextItem| item@) =~= dashboard_layout(
        orientation,
        state,
    ));
    Ok(items)
}


/// The notice screen: a panel, a heading and a detail line.
#[derive(Clone, Debug)]
pub struct DnsTesterNoticeLayout {
    /// The panel filled behind the texts.
    pub panel: Rectangle,
    /// The heading, in the large font.
    pub heading: DnsTesterTextItem,
    /// The detail line, in the small font.
    pub detail: DnsTesterTextItem,
}

/// Whether an orientation uses the landscape layout.
pub open spec fn is_landscape(orientation: Orientation) -> bool {
    background_for(orientation) == DnsTesterBackground::Landscape
}

/// The notice panel for an orientation.
pub open spec fn notice_panel(orientation: Orientation) -> Rectangle {
    if is_landscape(orientation) {
        rect(20, 54, 280, 112)
    } else {
        rect(20, 96, 200, 80)
    }
}

/// The heading of every notice: `WI-FI`.
pub open spec fn notice_heading_text() -> Seq<u8> {
    seq![0x57u8, 0x49u8, 0x2du8, 0x46u8, 0x49u8]
}

/// The detail line of a notice: `CONNECTING` or `UNAVAILABLE`.
pub open spec fn notice_detail_text(notice: DnsTesterUiNotice) -> Seq<u8> {
    match notice {
        DnsTesterUiNotice::WifiConnecting => seq![
            0x43u8,
            0x4fu8,
            0x4eu8,
            0x4eu8,
            0x45u8,
            0x43u8,
            0x54u8,
            0x49u8,
            0x4eu8,
            0x47u8,
        ],
        DnsTesterUiNotice::WifiUnavailable => seq![
            0x55u8,
            0x4eu8,
            0x41u8,
            0x56u8,
            0x41u8,
            0x49u8,
            0x4cu8,
            0x41u8,
            0x42u8,
            0x4cu8,
            0x45u8,
        ],
    }
}

/// Lays out a notice for `orientation`: the panel, the heading centered in a
/// 200×29 box and the detail centered in a 200×20 box below it, both white.
pub fn notice_layout(orientation: Orientation, notice: DnsTesterUiNotice) -> (layout:
    DnsTesterNoticeLayout)
    ensures
        layout.panel == notice_panel(orientation),
        layout.heading@ == text_model(
            rect(60, if is_landscape(orientation) { 70 } else { 104 }, 200, 29),
            notice_heading_text(),
            DnsTesterFont::ProFont24,
            DnsTesterAlignment::Center,
            DnsTesterTextColor::Value,
        ),
        layout.detail@ == text_model(
            rect(60, if is_landscape(orientation) { 110 } else { 145 }, 200, 20),
            notice_detail_text(notice),
            DnsTesterFont::Mono10x20,
            DnsTesterAlignment::Center,
            DnsTesterTextColor::Value,
        ),
{
    let (panel, heading_y, detail_y) = if orientation.width() > orientation.height() {
        (Rectangle::new(Point::new(20, 54), Size::new(280, 112)), 70i32, 110i32)
    } else {
        (Rectangle::new(Point::new(20, 96), Size::new(200, 80)), 104i32, 145i32)
    };
    let heading = ascii(&[0x57u8, 0x49, 0x2d, 0x46, 0x49]);
    let detail = match notice {
        DnsTesterUiNotice::WifiConnecting => ascii(
            &[0x43u8, 0x4f, 0x4e, 0x4e, 0x45, 0x43, 0x54, 0x49, 0x4e, 0x47],
        ),
        DnsTesterUiNotice::WifiUnavailable => ascii(
            &[0x55u8, 0x4e, 0x41, 0x56, 0x41, 0x49, 0x4c, 0x41, 0x42, 0x4c, 0x45],
        ),
    };
    DnsTesterNoticeLayout {
        panel,
        heading: item(
            60,
            heading_y,
            200,
            29,
            heading,
            DnsTesterFont::ProFont24,
            DnsTesterAlignment::Center,
            DnsTesterTextColor::Value,
        ),
        detail: item(
            60,
            detail_y,
            200,
            20,
            detail,
            DnsTesterFont::Mono10x20,
            DnsTesterAlignment::Center,
            DnsTesterTextColor::Value,
        ),
    }
}

/// Strip `index` of a panel: full width, starting `PANEL_STRIP_HEIGHT`
/// rows further down than the one before, clipped to the panel's bottom.
pub open spec fn panel_strip(panel: Rectangle, index: int) -> Rectangle {
    let offset = index * PANEL_STRIP_HEIGHT;
    rect(
        panel.top_left.x,
        (panel.top_left.y + offset) as i32,
        panel.size.width,
        crate::tiling::min_int(PANEL_STRIP_HEIGHT as int, panel.size.height - offset) as u32,
    )
}

/// Splits a panel into the strips it is filled in, top to bottom; an empty
/// panel has none.
pub fn panel_strips(panel: Rectangle) -> (strips: Vec<Rectangle>)
    requires
        panel.top_left.y + panel.size.height <= i32::MAX + 1,
        panel.size.height <= i32::MAX + 1,
    ensures
        strips.len() == crate::tiling::ceil_div(panel.size.height as int, PANEL_STRIP_HEIGHT as int),
        forall|index: int| 0 <= index < strips.len() ==> strips[index] == panel_strip(panel, index),
{
    let mut strips: Vec<Rectangle> = Vec::new();
    let mut offset_y: u32 = 0;
    while offset_y < panel.size.height
        invariant
            panel.top_left.y + panel.size.height <= i32::MAX + 1,
            panel.size.height <= i32::MAX + 1,
            offset_y <= panel.size.height,
            offset_y == crate::tiling::min_int(
                strips.len() * PANEL_STRIP_HEIGHT,
                panel.size.height as int,
            ),
            strips.len() > 0 ==> (strips.len() - 1) * PANEL_STRIP_HEIGHT < panel.size.height,
            forall|index: int|
                0 <= index < strips.len() ==> strips[index] == panel_strip(panel, index),
        decreases panel.size.height - offset_y,
    {
        let remaining = panel.size.height - offset_y;
        let height = if remaining < PANEL_STRIP_HEIGHT {
            remaining
        } else {
            PANEL_STRIP_HEIGHT
        };
        let strip = Rectangle::new(
            Point::new(panel.top_left.x, panel.top_left.y + offset_y as i32),
            Size::new(panel.size.width, height),
        );
        assert(strip == panel_strip(panel, strips.len() as int));
        strips.push(strip);
        offset_y = offset_y + height;
    }
    proof {
        let count = strips.len() as int;
        let total = panel.size.height as int;
        assert(count == crate::tiling::ceil_div(total, 20)) by (nonlinear_arith)
            requires
                count > 0 ==> (count - 1) * 20 < total,
                total <= count * 20,
                0 <= total,
                0 <= count,
        ;
    }
    strips
}

} // verus!
