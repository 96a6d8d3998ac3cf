//! Four-digit seven-segment LED displays: the segment patterns of text, and
//! the blink states of the display loop.

use vstd::prelude::*;
use vstd::std_specs::iter::IteratorSpec;

verus! {

/// Number of digit cells.
pub const CELL_COUNT_U8: u8 = 4;

/// Number of digit cells.
pub const CELL_COUNT: usize = 4;

/// Number of segments per cell (seven plus the decimal point).
pub const SEGMENT_COUNT: usize = 8;

/// Most frames an animation holds.
pub const ANIMATION_MAX_FRAMES: usize = 16;

/// How a text is shown: steadily, or blinking (currently lit or dark).
#[derive(Debug, Clone, Copy)]
pub enum BlinkState {
    Solid,
    BlinkingAndOn,
    BlinkingButOff,
}

impl Default for BlinkState {
    fn default() -> (state: Self)
        ensures
            state is Solid,
    {
        BlinkState::Solid
    }
}

/// The blink state after the current phase's delay runs out: a blinking
/// display alternates between lit and dark; a solid one stays solid.
pub fn next_blink_state(blink_state: BlinkState) -> (next: BlinkState)
    ensures
        blink_state is Solid ==> next is Solid,
        blink_state is BlinkingAndOn ==> next is BlinkingButOff,
        blink_state is BlinkingButOff ==> next is BlinkingAndOn,
{
    match blink_state {
        BlinkState::Solid => BlinkState::Solid,
        BlinkState::BlinkingAndOn => BlinkState::BlinkingButOff,
        BlinkState::BlinkingButOff => BlinkState::BlinkingAndOn,
    }
}

/// The cell contents shown in a blink state: the text, or blanks while a
/// blinking display is dark.
pub fn shown_text(blink_state: BlinkState, text: [char; CELL_COUNT]) -> (shown: [char; CELL_COUNT])
    ensures
        blink_state is BlinkingButOff ==> shown@ == seq![' ', ' ', ' ', ' '],
        !(blink_state is BlinkingButOff) ==> shown == text,
{
    match blink_state {
        BlinkState::BlinkingButOff => {
            let blank = [' '; CELL_COUNT];
            assert(blank@ =~= seq![' ', ' ', ' ', ' ']);
            blank
        },
        _ => text,
    }
}

/// The frame an animation of `len` frames shows after frame `index`: the
/// next one, wrapping to the first.
pub fn next_frame_index(index: usize, len: usize) -> (next: usize)
    requires
        index < len,
    ensures
        next == (index + 1) % (len as int),
        next < len,
{
    (index + 1) % len
}

/// One frame of a looping text animation: the text, and how many
/// milliseconds it shows.
#[derive(Debug, Clone, Copy)]
pub struct AnimationFrame {
    /// Text of the four cells.
    pub text: [char; CELL_COUNT],
    /// How long the frame shows, in milliseconds.
    pub duration_millis: u64,
}

impl AnimationFrame {
    /// A frame showing `text` for `duration_millis` milliseconds.
    #[must_use]
    pub fn new(text: [char; CELL_COUNT], duration_millis: u64) -> (frame: Self)
        ensures
            frame.text == text,
            frame.duration_millis == duration_millis,
    {
        Self { text, duration_millis }
    }
}

/// A looping animation of at most `ANIMATION_MAX_FRAMES` frames, held in a
/// `heapless::Vec`.
#[verifier::external_body]
pub struct Animation {
    frames: heapless::Vec<AnimationFrame, ANIMATION_MAX_FRAMES>,
}

/// What an animation holds: its frames in order.
pub uninterp spec fn animation_frames(animation: Animation) -> Seq<AnimationFrame>;

impl Animation {
    /// `heapless::Vec::new`: no frames.
    #[verifier::external_body]
    fn empty() -> (animation: Self)
        ensures
            animation_frames(animation) == Seq::<AnimationFrame>::empty(),
    {
        Animation { frames: heapless::Vec::new() }
    }

    /// The frame count, from `heapless::Vec::as_slice`; a `heapless::Vec`
    /// never holds more than its capacity.
    #[verifier::external_body]
    fn frame_count(&self) -> (count: usize)
        ensures
            count == animation_frames(*self).len(),
            count <= ANIMATION_MAX_FRAMES,
    {
        self.frames.as_slice().len()
    }

    /// Frame `index`, from `heapless::Vec::as_slice`.
    #[verifier::external_body]
    fn frame_at(&self, index: usize) -> (frame: AnimationFrame)
        requires
            index < animation_frames(*self).len(),
        ensures
            frame == animation_frames(*self)[index as int],
    {
        self.frames.as_slice()[index]
    }

    /// `heapless::Vec::push` while there is room: the frame goes last.
    #[verifier::external_body]
    fn push_within_capacity(&mut self, frame: AnimationFrame)
        requires
            animation_frames(*old(self)).len() < ANIMATION_MAX_FRAMES,
        ensures
            animation_frames(*final(self)) == animation_frames(*old(self)).push(frame),
    {
        let _ = self.frames.push(frame);
    }

    /// An animation with no frames.
    pub fn new() -> (animation: Self)
        ensures
            animation_frames(animation) == Seq::<AnimationFrame>::empty(),
    {
        Self::empty()
    }

    /// The number of frames.
    pub fn len(&self) -> (count: usize)
        ensures
            count == animation_frames(*self).len(),
            count <= ANIMATION_MAX_FRAMES,
    {
        self.frame_count()
    }

    /// Whether the animation has no frames.
    pub fn is_empty(&self) -> (empty: bool)
        ensures
            empty == (animation_frames(*self).len() == 0),
    {
        self.frame_count() == 0
    }

    /// Frame `index`.
    pub fn frame(&self, index: usize) -> (frame: AnimationFrame)
        requires
            index < animation_frames(*self).len(),
        ensures
            frame == animation_frames(*self)[index as int],
    {
        self.frame_at(index)
    }

    /// Appends a frame; a full animation hands the frame back unchanged.
    pub fn push(&mut self, frame: AnimationFrame) -> (result: Result<(), AnimationFrame>)
        ensures
            animation_frames(*old(self)).len() < ANIMATION_MAX_FRAMES ==> result is Ok
                && animation_frames(*final(self)) == animation_frames(*old(self)).push(frame),
            animation_frames(*old(self)).len() >= ANIMATION_MAX_FRAMES ==> result == Err::<
                (),
                AnimationFrame,
            >(frame) && animation_frames(*final(self)) == animation_frames(*old(self)),
    {
        if self.frame_count() < ANIMATION_MAX_FRAMES {
            self.push_within_capacity(frame);
            Ok(())
        } else {
            Err(frame)
        }
    }
}

/// How long each frame of the circular outline animation shows, in
/// milliseconds.
pub const CIRCULAR_OUTLINE_FRAME_MILLIS: u64 = 120;

/// The circular outline animation's texts, chasing clockwise around the
/// display's edges.
pub const CIRCULAR_OUTLINE_CLOCKWISE: [[char; CELL_COUNT]; 8] = [
    ['\'', '\'', '\'', '\''],
    ['\'', '\'', '\'', '"'],
    [' ', ' ', ' ', '>'],
    [' ', ' ', ' ', ')'],
    ['_', '_', '_', '_'],
    ['*', '_', '_', '_'],
    ['<', ' ', ' ', ' '],
    ['(', '\'', '\'', '\''],
];

/// A circular outline animation that chases around the display's edges:
/// the clockwise texts in order, or in reverse order for counterclockwise,
/// each shown for `CIRCULAR_OUTLINE_FRAME_MILLIS`.
#[must_use]
pub fn circular_outline_animation(clockwise: bool) -> (animation: Animation)
    ensures
        animation_frames(animation).len() == 8,
        forall|k: int|
            0 <= k < 8 ==> (#[trigger] animation_frames(animation)[k]).duration_millis
                == CIRCULAR_OUTLINE_FRAME_MILLIS && animation_frames(animation)[k].text == (if clockwise {
                CIRCULAR_OUTLINE_CLOCKWISE@[k]
            } else {
                CIRCULAR_OUTLINE_CLOCKWISE@[7 - k]
            }),
{
    let mut animation = Animation::new();
    let mut index = 0usize;
    while index < 8
        invariant
            index <= 8,
            animation_frames(animation).len() == index,
            forall|k: int|
                0 <= k < index ==> (#[trigger] animation_frames(animation)[k]).duration_millis
                    == CIRCULAR_OUTLINE_FRAME_MILLIS && animation_frames(animation)[k].text == (if clockwise {
                    CIRCULAR_OUTLINE_CLOCKWISE@[k]
                } else {
                    CIRCULAR_OUTLINE_CLOCKWISE@[7 - k]
                }),
        decreases 8 - index,
    {
        let text = if clockwise {
            CIRCULAR_OUTLINE_CLOCKWISE[index]
        } else {
            CIRCULAR_OUTLINE_CLOCKWISE[7 - index]
        };
        animation.push_within_capacity(AnimationFrame::new(text, CIRCULAR_OUTLINE_FRAME_MILLIS));
        index += 1;
    }
    animation
}

#[derive(Debug, Clone, Copy, Eq, PartialEq)]
pub enum Led4BitsToIndexesError {
    Full,
}

#[derive(Debug)]
pub enum Led4SimpleLoopError<E> {
    BitsToIndexes(Led4BitsToIndexesError),
    Output(E),
}

/// Segment patterns of the ASCII characters (bit 0 is segment A, bit 7 the
/// decimal point); characters with no pattern are blank.
pub const ASCII_SEGMENTS: [u8; 128] = [
    0x00, 0x00, 0x00, 0x00, 0x00, 0x00, 0x00, 0x00,
    0x00, 0x00, 0x00, 0x00, 0x00, 0x00, 0x00, 0x00,
    0x00, 0x00, 0x00, 0x00, 0x00, 0x00, 0x00, 0x00,
    0x00, 0x00, 0x00, 0x00, 0x00, 0x00, 0x00, 0x00,
    0x00, 0x86, 0x03, 0x00, 0x00, 0x00, 0x00, 0x01,
    0x21, 0x0c, 0x18, 0x00, 0x00, 0x40, 0x80, 0x00,
    0x3f, 0x06, 0x5b, 0x4f, 0x66, 0x6d, 0x7d, 0x07,
    0x7f, 0x6f, 0x00, 0x00, 0x30, 0x00, 0x06, 0x00,
    0x00, 0x77, 0x7c, 0x39, 0x5e, 0x79, 0x71, 0x3d,
    0x76, 0x06, 0x1e, 0x76, 0x38, 0x15, 0x54, 0x3f,
    0x73, 0x67, 0x50, 0x6d, 0x78, 0x3e, 0x2a, 0x1d,
    0x76, 0x6e, 0x5b, 0x39, 0x00, 0x0f, 0x00, 0x08,
    0x00, 0x77, 0x7c, 0x39, 0x5e, 0x79, 0x71, 0x3d,
    0x74, 0x10, 0x1e, 0x76, 0x38, 0x15, 0x54, 0x5c,
    0x73, 0x67, 0x50, 0x6d, 0x78, 0x3e, 0x2a, 0x1d,
    0x76, 0x6e, 0x5b, 0x39, 0x06, 0x0f, 0x40, 0x00,
];

/// The segment pattern a character shows as: its table entry when ASCII,
/// blank otherwise.
pub open spec fn char_segments(ch: char) -> u8 {
    if (ch as u32) < 128 {
        ASCII_SEGMENTS@[(ch as u32) as int]
    } else {
        0
    }
}

/// The segment patterns of the four digit cells.
#[derive(Debug, Clone, PartialEq, Eq)]
pub struct BitMatrixLed4(pub [u8; CELL_COUNT]);

impl BitMatrixLed4 {
    /// A display showing the given segment patterns.
    #[must_use]
    pub fn new(bits: [u8; CELL_COUNT]) -> (matrix: Self)
        ensures
            matrix.0 == bits,
    {
        Self(bits)
    }

    /// The segment patterns that show `text`.
    #[must_use]
    pub fn from_text(text: &[char; CELL_COUNT]) -> (matrix: Self)
        ensures
            forall|i: int| 0 <= i < CELL_COUNT ==> #[trigger] matrix.0@[i] == char_segments(text@[i]),
    {
        let mut bytes = [0u8; CELL_COUNT];
        let mut index = 0usize;
        while index < CELL_COUNT
            invariant
                index <= CELL_COUNT,
                forall|i: int| 0 <= i < index ==> #[trigger] bytes@[i] == char_segments(text@[i]),
            decreases CELL_COUNT - index,
        {
            let code = text[index] as u32;
            bytes[index] = if code < 128 {
                ASCII_SEGMENTS[code as usize]
            } else {
                0
            };
            index += 1;
        }
        Self::new(bytes)
    }

    /// Iterates over the four segment patterns.
    pub fn iter(&self) -> (iter: core::slice::Iter<'_, u8>)
        ensures
            iter.remaining() == self.0@.as_ref(),
    {
        let cells = self.0.as_slice();
        proof {
            assert(cells@ == self.0@);
        }
        cells.iter()
    }

    /// The segment pattern of cell `index`.
    pub fn index(&self, index: usize) -> (bits: u8)
        requires
            index < CELL_COUNT,
        ensures
            bits == self.0@[index as int],
    {
        self.0[index]
    }

    /// Lights the segments of `rhs` in every cell.
    pub fn bitor_assign(&mut self, rhs: u8)
        ensures
            forall|i: int| 0 <= i < CELL_COUNT ==> #[trigger] final(self).0@[i] == old(self).0@[i] | rhs,
    {
        let mut index = 0usize;
        while index < CELL_COUNT
            invariant
                index <= CELL_COUNT,
                forall|i: int| 0 <= i < index ==> #[trigger] self.0@[i] == old(self).0@[i] | rhs,
                forall|i: int| index <= i < CELL_COUNT ==> #[trigger] self.0@[i] == old(self).0@[i],
            decreases CELL_COUNT - index,
        {
            self.0[index] = self.0[index] | rhs;
            index += 1;
        }
    }
}

/// The distinct lit segment patterns among the first `n` cells, in the
/// order in which they first appear.
pub open spec fn lit_patterns(cells: Seq<u8>, n: nat) -> Seq<u8>
    decreases n,
{
    if n == 0 {
        seq![]
    } else {
        let earlier = lit_patterns(cells, (n - 1) as nat);
        let bits = cells[n - 1];
        if bits == 0 || earlier.contains(bits) {
            earlier
        } else {
            earlier.push(bits)
        }
    }
}

/// The indexes of the cells among the first `n` that show `bits`, ascending.
pub open spec fn cells_showing(cells: Seq<u8>, bits: u8, n: nat) -> Seq<u8>
    decreases n,
{
    if n == 0 {
        seq![]
    } else {
        let earlier = cells_showing(cells, bits, (n - 1) as nat);
        if cells[n - 1] == bits {
            earlier.push((n - 1) as u8)
        } else {
            earlier
        }
    }
}

/// Each lit segment pattern of a display, in the order of the cell that
/// first shows it, together with all the cells that show it.
pub open spec fn pattern_groups(cells: Seq<u8>) -> Seq<(u8, Seq<u8>)> {
    let patterns = lit_patterns(cells, cells.len());
    Seq::new(patterns.len(), |g: int| (patterns[g], cells_showing(cells, patterns[g], cells.len())))
}

/// The lit patterns are nonzero, distinct, and no more than the cells
/// they come from.
proof fn lemma_lit_patterns(cells: Seq<u8>, n: nat)
    requires
        n <= cells.len(),
    ensures
        lit_patterns(cells, n).len() <= n,
        forall|g: int| 0 <= g < lit_patterns(cells, n).len() ==> #[trigger] lit_patterns(cells, n)[g] != 0,
        forall|g: int, h: int|
            0 <= g < h < lit_patterns(cells, n).len() ==> #[trigger] lit_patterns(cells, n)[g]
                != #[trigger] lit_patterns(cells, n)[h],
    decreases n,
{
    if n > 0 {
        lemma_lit_patterns(cells, (n - 1) as nat);
    }
}

/// A cell list is no longer than the cells it comes from.
proof fn lemma_cells_showing(cells: Seq<u8>, bits: u8, n: nat)
    requires
        n <= cells.len(),
        n <= 256,
    ensures
        cells_showing(cells, bits, n).len() <= n,
    decreases n,
{
    if n > 0 {
        lemma_cells_showing(cells, bits, (n - 1) as nat);
    }
}

/// Segment patterns mapped to the cells that show them, held in a
/// `heapless::LinearMap` with room for one entry per cell.
#[verifier::external_body]
pub struct BitsToIndexes {
    map: heapless::LinearMap<core::num::NonZeroU8, heapless::Vec<u8, CELL_COUNT>, CELL_COUNT>,
}

/// What a segment-pattern map holds: its entries in storage order, each a
/// pattern with the cell indexes stored for it.
pub uninterp spec fn bits_to_indexes_entries(map: BitsToIndexes) -> Seq<(u8, Seq<u8>)>;

impl BitsToIndexes {
    /// `heapless::LinearMap::new`: the map starts with no entries.
    #[verifier::external_body]
    fn empty() -> (map: Self)
        ensures
            bits_to_indexes_entries(map) == Seq::<(u8, Seq<u8>)>::empty(),
    {
        BitsToIndexes { map: heapless::LinearMap::new() }
    }

    /// `heapless::LinearMap::clear`: every entry is removed.
    #[verifier::external_body]
    fn clear(&mut self)
        ensures
            bits_to_indexes_entries(*final(self)) == Seq::<(u8, Seq<u8>)>::empty(),
    {
        self.map.clear();
    }

    /// `heapless::LinearMap::insert` of a pattern the map does not hold yet,
    /// with its cells copied into a `heapless::Vec`: the map's buffer has
    /// room, so the new entry goes after the existing ones.
    #[verifier::external_body]
    fn insert_new(&mut self, bits: u8, indexes: &[u8])
        requires
            bits != 0,
            indexes@.len() <= CELL_COUNT,
            bits_to_indexes_entries(*old(self)).len() < CELL_COUNT,
            forall|g: int|
                0 <= g < bits_to_indexes_entries(*old(self)).len()
                    ==> #[trigger] bits_to_indexes_entries(*old(self))[g].0 != bits,
        ensures
            bits_to_indexes_entries(*final(self)) == bits_to_indexes_entries(*old(self)).push(
                (bits, indexes@),
            ),
    {
        let key = core::num::NonZeroU8::new(bits).unwrap();
        let value = heapless::Vec::from_slice(indexes).unwrap();
        let _ = self.map.insert(key, value);
    }

    /// `heapless::LinearMap::iter`: the entries in storage order, each
    /// pattern and cell list as plain values.
    #[verifier::external_body]
    fn entries(&self) -> (groups: Vec<(u8, Vec<u8>)>)
        ensures
            groups.len() == bits_to_indexes_entries(*self).len(),
            forall|g: int|
                0 <= g < groups.len() ==> #[trigger] groups[g].0 == bits_to_indexes_entries(*self)[g].0
                    && groups[g].1@ == bits_to_indexes_entries(*self)[g].1,
    {
        self.map.iter().map(|(bits, indexes)| (bits.get(), indexes.to_vec())).collect()
    }
}

impl Default for BitsToIndexes {
    fn default() -> (map: Self)
        ensures
            bits_to_indexes_entries(map) == Seq::<(u8, Seq<u8>)>::empty(),
    {
        Self::empty()
    }
}

/// Whether `bits` is among `patterns`.
fn contains_pattern(patterns: &Vec<u8>, bits: u8) -> (found: bool)
    ensures
        found == patterns@.contains(bits),
{
    let mut index = 0usize;
    while index < patterns.len()
        invariant
            index <= patterns.len(),
            forall|i: int| 0 <= i < index ==> patterns@[i] != bits,
        decreases patterns.len() - index,
    {
        if patterns[index] == bits {
            assert(patterns@[index as int] == bits);
            return true;
        }
        index += 1;
    }
    false
}

impl BitMatrixLed4 {
    /// The indexes of the cells that show `bits`, ascending.
    fn cells_showing(&self, bits: u8) -> (indexes: Vec<u8>)
        ensures
            indexes@ == cells_showing(self.0@, bits, CELL_COUNT as nat),
    {
        let mut indexes: Vec<u8> = Vec::new();
        let mut cell: u8 = 0;
        while cell < CELL_COUNT_U8
            invariant
                cell <= CELL_COUNT_U8,
                indexes@ == cells_showing(self.0@, bits, cell as nat),
            decreases CELL_COUNT_U8 - cell,
        {
            if self.0[cell as usize] == bits {
                indexes.push(cell);
            }
            cell += 1;
        }
        indexes
    }

    /// Groups the lit cells by segment pattern for multiplexing: afterwards
    /// `bits_to_indexes` holds one entry per lit pattern, in the order of
    /// the cell that first shows it, with every cell showing that pattern.
    /// The map has room for one entry per cell, so it never fills up.
    pub fn bits_to_indexes(&self, bits_to_indexes: &mut BitsToIndexes) -> (result: Result<
        (),
        Led4BitsToIndexesError,
    >)
        ensures
            result is Ok,
            bits_to_indexes_entries(*final(bits_to_indexes)) == pattern_groups(self.0@),
    {
        bits_to_indexes.clear();
        let ghost cells = self.0@;
        let mut patterns: Vec<u8> = Vec::new();
        let mut cell = 0usize;
        while cell < CELL_COUNT
            invariant
                cell <= CELL_COUNT,
                cells == self.0@,
                cells.len() == CELL_COUNT,
                patterns@ == lit_patterns(cells, cell as nat),
            decreases CELL_COUNT - cell,
        {
            let bits = self.0[cell];
            if bits != 0 && !contains_pattern(&patterns, bits) {
                patterns.push(bits);
            }
            cell += 1;
        }
        proof {
            lemma_lit_patterns(cells, CELL_COUNT as nat);
        }
        let mut group = 0usize;
        while group < patterns.len()
            invariant
                group <= patterns.len(),
                cells == self.0@,
                cells.len() == CELL_COUNT,
                patterns@ == lit_patterns(cells, CELL_COUNT as nat),
                patterns.len() <= CELL_COUNT,
                forall|g: int| 0 <= g < patterns.len() ==> #[trigger] patterns@[g] != 0,
                forall|g: int, h: int|
                    0 <= g < h < patterns.len() ==> #[trigger] patterns@[g] != #[trigger] patterns@[h],
                bits_to_indexes_entries(*bits_to_indexes) == pattern_groups(cells).take(group as int),
            decreases patterns.len() - group,
        {
            let bits = patterns[group];
            let indexes = self.cells_showing(bits);
            proof {
                lemma_cells_showing(cells, bits, CELL_COUNT as nat);
                assert forall|g: int|
                    0 <= g < bits_to_indexes_entries(*bits_to_indexes).len() implies
                    #[trigger] bits_to_indexes_entries(*bits_to_indexes)[g].0 != bits by {
                    assert(bits_to_indexes_entries(*bits_to_indexes)[g].0 == patterns@[g]);
                }
            }
            bits_to_indexes.insert_new(bits, indexes.as_slice());
            assert(pattern_groups(cells).take(group as int).push((bits, indexes@))
                =~= pattern_groups(cells).take(group as int + 1));
            group += 1;
        }
        assert(pattern_groups(cells).take(group as int) =~= pattern_groups(cells));
        Ok(())
    }
}

/// What the multiplex loop does with the grouped cells.
#[derive(Debug, PartialEq, Eq)]
pub enum MultiplexPlan {
    /// No cell is lit: wait for the next segment matrix.
    Dark,
    /// One pattern is lit: show it on its cells until the next matrix.
    Steady { bits: u8, indexes: Vec<u8> },
    /// Several patterns are lit: show each group in turn, in this order.
    Cycle(Vec<(u8, Vec<u8>)>),
}

/// How the multiplex loop shows a grouping: nothing when no pattern is lit,
/// the one pattern steadily, or the groups in turn in storage order.
pub fn multiplex_plan(bits_to_indexes: &BitsToIndexes) -> (plan: MultiplexPlan)
    ensures
        bits_to_indexes_entries(*bits_to_indexes).len() == 0 <==> plan is Dark,
        bits_to_indexes_entries(*bits_to_indexes).len() == 1 ==> (plan matches MultiplexPlan::Steady {
            bits,
            indexes,
        } && bits == bits_to_indexes_entries(*bits_to_indexes)[0].0 && indexes@
            == bits_to_indexes_entries(*bits_to_indexes)[0].1),
        bits_to_indexes_entries(*bits_to_indexes).len() > 1 ==> (plan matches MultiplexPlan::Cycle(
            groups,
        ) && groups.len() == bits_to_indexes_entries(*bits_to_indexes).len() && forall|g: int|
            0 <= g < groups.len() ==> #[trigger] groups[g].0 == bits_to_indexes_entries(
                *bits_to_indexes,
            )[g].0 && groups[g].1@ == bits_to_indexes_entries(*bits_to_indexes)[g].1),
{
    let mut groups = bits_to_indexes.entries();
    if groups.len() == 0 {
        MultiplexPlan::Dark
    } else if groups.len() == 1 {
        let ghost first = groups[0];
        let (bits, indexes) = groups.pop().unwrap();
        assert(bits == first.0 && indexes == first.1);
        MultiplexPlan::Steady { bits, indexes }
    } else {
        MultiplexPlan::Cycle(groups)
    }
}

impl Default for BitMatrixLed4 {
    fn default() -> (matrix: Self)
        ensures
            matrix.0@ == seq![0u8, 0, 0, 0],
    {
        let matrix = Self([0; CELL_COUNT]);
        assert(matrix.0@ =~= seq![0u8, 0, 0, 0]);
        matrix
    }
}

} // verus!
