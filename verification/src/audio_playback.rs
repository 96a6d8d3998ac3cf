//! The decisions of the playback loop, apart from the waiting for the output.
//!
//! Playing a clip alternates computing samples with handing full buffers to
//! the output and checking for a new command. The computing half lives here:
//! an [`AdpcmPlaybackCursor`] decodes an ADPCM clip one sample at a time and
//! says where its blocks end (the points where the loop checks for a
//! command), and [`fill_pcm_buffer`] prepares one buffer of a PCM clip.

use vstd::prelude::*;
use crate::audio_player::{
    adpcm_block_state, adpcm_decoded_sample, adpcm_nibble_at, adpcm_samples_in_block,
    adpcm_state_ok, decode_adpcm_nibble_const, lemma_adpcm_delta_bounds, lemma_block_state_step,
    read_i16_le_const, sample_bits, scale_linear, scale_sample_with_volume, scaled_linear,
    scaled_sample, stereo_sample, Volume,
};

verus! {

/// What the ADPCM cursor did on one step.
#[derive(Clone, Copy, Debug, PartialEq, Eq)]
pub enum AdpcmPlaybackStep {
    /// The next sample of the clip; `starts_block` when it is a block's
    /// header sample, where the loop reads the volume anew.
    Sample { sample: i16, starts_block: bool },
    /// A block ended: the loop checks for a new command.
    EndOfBlock,
    /// Every sample was produced, or no whole block is left: the loop plays
    /// what it buffered and ends the clip.
    Finished,
    /// The next block is malformed (blocks shorter than their 4-byte header,
    /// or a step index beyond 88): the loop ends the clip at once, dropping
    /// what it buffered.
    Invalid,
}

/// Decodes an ADPCM clip for playback, one sample at a time, block after
/// block.
pub struct AdpcmPlaybackCursor<'a> {
    data: &'a [u8],
    block_align: usize,
    samples_per_block: usize,
    sample_count: usize,
    block_index: usize,
    block_start: usize,
    in_block: bool,
    decoded_in_block: usize,
    produced: usize,
    predictor: i32,
    step_index: i32,
}

impl<'a> AdpcmPlaybackCursor<'a> {
    /// The clip's encoded blocks.
    pub closed spec fn spec_data(&self) -> Seq<u8> {
        self.data@
    }

    /// Bytes per block.
    pub closed spec fn spec_block_align(&self) -> int {
        self.block_align as int
    }

    /// Samples a block declares.
    pub closed spec fn spec_samples_per_block(&self) -> int {
        self.samples_per_block as int
    }

    /// Samples the clip holds.
    pub closed spec fn spec_sample_count(&self) -> int {
        self.sample_count as int
    }

    /// Samples produced so far.
    pub closed spec fn produced(&self) -> int {
        self.produced as int
    }

    /// The block being decoded, or the next one at a block boundary.
    pub closed spec fn block_index(&self) -> int {
        self.block_index as int
    }

    /// Whether the cursor stands between two blocks.
    pub closed spec fn at_block_boundary(&self) -> bool {
        !self.in_block
    }

    /// Samples one block of the clip decodes to.
    pub open spec fn per_block(&self) -> int {
        adpcm_samples_in_block(self.spec_block_align(), self.spec_samples_per_block())
    }

    /// The cursor's state agrees with the samples it produced.
    pub closed spec fn wf(&self) -> bool {
        let ba = self.block_align as int;
        let per_block = self.per_block();
        &&& 0 < ba <= u16::MAX
        &&& 0 < self.samples_per_block <= u16::MAX
        &&& self.sample_count <= u32::MAX
        &&& self.block_start == self.block_index * ba
        &&& self.block_start <= self.data@.len()
        &&& !self.in_block ==> self.produced == if self.block_index * per_block
            < self.sample_count {
            self.block_index * per_block
        } else {
            self.sample_count as int
        }
        &&& self.in_block ==> {
            &&& ba >= 4
            &&& self.block_start + ba <= self.data@.len()
            &&& 1 <= self.decoded_in_block <= per_block
            &&& self.produced == self.block_index * per_block + self.decoded_in_block
            &&& self.produced <= self.sample_count
            &&& (self.predictor as int, self.step_index as int) == adpcm_block_state(
                self.data@,
                self.block_start as int,
                self.decoded_in_block as nat,
            )
            &&& adpcm_state_ok(self.predictor as int, self.step_index as int)
        }
    }

    /// Starts playing a clip of `sample_count` samples stored in blocks of
    /// `block_align` bytes, each declaring `samples_per_block` samples.
    pub fn new(data: &'a [u8], block_align: u16, samples_per_block: u16, sample_count: u32) -> (cursor: Self)
        requires
            block_align > 0,
            samples_per_block > 0,
        ensures
            cursor.wf(),
            cursor.spec_data() == data@,
            cursor.spec_block_align() == block_align,
            cursor.spec_samples_per_block() == samples_per_block,
            cursor.spec_sample_count() == sample_count,
            cursor.produced() == 0,
            cursor.block_index() == 0,
            cursor.at_block_boundary(),
    {
        proof {
            assert(0 * adpcm_samples_in_block(block_align as int, samples_per_block as int) == 0)
                by (nonlinear_arith);
            assert(0 * (block_align as int) == 0) by (nonlinear_arith);
        }
        AdpcmPlaybackCursor {
            data,
            block_align: block_align as usize,
            samples_per_block: samples_per_block as usize,
            sample_count: sample_count as usize,
            block_index: 0,
            block_start: 0,
            in_block: false,
            decoded_in_block: 0,
            produced: 0,
            predictor: 0,
            step_index: 0,
        }
    }

    /// Takes one step of playback.
    ///
    /// At a block boundary the cursor finishes when every sample was
    /// produced or no whole block is left, reports a malformed block, or
    /// starts the block with its header sample. Inside a block it produces
    /// the next sample until the block has given its share, then ends the
    /// block. The samples come out in the order, and with the values, that
    /// decoding the whole clip gives.
    pub fn step(&mut self) -> (step: AdpcmPlaybackStep)
        requires
            old(self).wf(),
        ensures
            final(self).wf(),
            final(self).spec_data() == old(self).spec_data(),
            final(self).spec_block_align() == old(self).spec_block_align(),
            final(self).spec_samples_per_block() == old(self).spec_samples_per_block(),
            final(self).spec_sample_count() == old(self).spec_sample_count(),
            ({
                let data = old(self).spec_data();
                let ba = old(self).spec_block_align();
                let count = old(self).spec_sample_count();
                let produced = old(self).produced();
                let block = old(self).block_index();
                let boundary = old(self).at_block_boundary();
                let block_fits = (block + 1) * ba <= data.len();
                match step {
                    AdpcmPlaybackStep::Sample { sample, starts_block } => {
                        &&& produced < count
                        &&& sample == adpcm_decoded_sample(
                            data,
                            ba,
                            old(self).spec_samples_per_block(),
                            produced,
                        )
                        &&& starts_block == boundary
                        &&& final(self).produced() == produced + 1
                        &&& final(self).block_index() == block
                        &&& !final(self).at_block_boundary()
                    },
                    AdpcmPlaybackStep::EndOfBlock => {
                        &&& !boundary
                        &&& (produced == count || produced == (block + 1) * old(self).per_block())
                        &&& final(self).produced() == produced
                        &&& final(self).block_index() == block + 1
                        &&& final(self).at_block_boundary()
                    },
                    AdpcmPlaybackStep::Finished => {
                        &&& boundary
                        &&& (produced >= count || !block_fits)
                        &&& *final(self) == *old(self)
                    },
                    AdpcmPlaybackStep::Invalid => {
                        &&& boundary
                        &&& produced < count
                        &&& block_fits
                        &&& (ba < 4 || data[block * ba + 2] > 88)
                        &&& *final(self) == *old(self)
                    },
                }
            }),
            old(self).at_block_boundary() && old(self).produced() < old(self).spec_sample_count()
                && (old(self).block_index() + 1) * old(self).spec_block_align()
                <= old(self).spec_data().len() && old(self).spec_block_align() >= 4
                && old(self).spec_data()[old(self).block_index() * old(self).spec_block_align()
                + 2] <= 88 ==> step is Sample,
            !old(self).at_block_boundary() && old(self).produced() < old(self).spec_sample_count()
                && old(self).produced() < (old(self).block_index() + 1) * old(self).per_block()
                ==> step is Sample,
    {
        let ghost data = self.data@;
        let ghost ba = self.block_align as int;
        let ghost spb = self.samples_per_block as int;
        let ghost per_block = adpcm_samples_in_block(ba, spb);
        let ghost block = self.block_index as int;
        proof {
            assert((block + 1) * ba == self.block_start + ba) by (nonlinear_arith)
                requires
                    self.block_start == block * ba,
            ;
        }
        if !self.in_block {
            if self.produced >= self.sample_count || self.data.len() - self.block_start
                < self.block_align {
                return AdpcmPlaybackStep::Finished;
            }
            if self.block_align < 4 {
                return AdpcmPlaybackStep::Invalid;
            }
            let block_start = self.block_start;
            let predictor = read_i16_le_const(self.data, block_start) as i32;
            let step_index = self.data[block_start + 2] as i32;
            if step_index > 88 {
                return AdpcmPlaybackStep::Invalid;
            }
            proof {
                assert(per_block >= 1);
                assert(self.produced == block * per_block);
                vstd::arithmetic::div_mod::lemma_fundamental_div_mod_converse(
                    self.produced as int,
                    per_block,
                    block,
                    0,
                );
                assert((block + 1) * ba == block_start + ba) by (nonlinear_arith)
                    requires
                        block_start == block * ba,
                ;
                assert(predictor as i16 == adpcm_decoded_sample(data, ba, spb, self.produced as int));
            }
            self.in_block = true;
            self.decoded_in_block = 1;
            self.produced = self.produced + 1;
            self.predictor = predictor;
            self.step_index = step_index;
            return AdpcmPlaybackStep::Sample { sample: predictor as i16, starts_block: true };
        }
        let per_block_exec = if self.samples_per_block < 2 * self.block_align - 7 {
            self.samples_per_block
        } else {
            2 * self.block_align - 7
        };
        let data_len = self.data.len();
        proof {
            assert(self.block_start + ba <= data_len);
            assert(block <= self.block_start) by (nonlinear_arith)
                requires
                    self.block_start == block * ba,
                    ba >= 1,
                    block >= 0,
            ;
        }
        if self.decoded_in_block < per_block_exec && self.produced < self.sample_count {
            let code_number = self.decoded_in_block - 1;
            assert(code_number / 2 < ba - 4);
            let byte = self.data[self.block_start + 4 + code_number / 2];
            let nibble = if code_number % 2 == 0 {
                byte & 0x0F
            } else {
                byte >> 4
            };
            proof {
                crate::bits::lemma_nibbles(byte);
                assert(nibble == adpcm_nibble_at(data, self.block_start as int, code_number as int));
                lemma_adpcm_delta_bounds(nibble as int, self.step_index as int);
                lemma_block_state_step(data, self.block_start as int, self.decoded_in_block as nat);
            }
            let sample = decode_adpcm_nibble_const(nibble, &mut self.predictor, &mut self.step_index);
            proof {
                vstd::arithmetic::div_mod::lemma_fundamental_div_mod_converse(
                    self.produced as int,
                    per_block,
                    block,
                    self.decoded_in_block as int,
                );
                assert((block + 1) * ba <= data.len()) by (nonlinear_arith)
                    requires
                        self.block_start == block * ba,
                        self.block_start + ba <= data.len(),
                ;
            }
            self.decoded_in_block = self.decoded_in_block + 1;
            self.produced = self.produced + 1;
            return AdpcmPlaybackStep::Sample { sample, starts_block: false };
        }
        proof {
            assert((block + 1) * per_block == block * per_block + per_block) by (nonlinear_arith);
            assert((block + 1) * ba == block * ba + ba) by (nonlinear_arith);
        }
        self.in_block = false;
        self.block_index = self.block_index + 1;
        self.block_start = self.block_start + self.block_align;
        AdpcmPlaybackStep::EndOfBlock
    }
}


/// The stereo word of a sample.
pub open spec fn stereo_word(sample: int) -> int {
    sample_bits(sample) * 0x1_0000 + sample_bits(sample)
}

/// Fills `buffer` with the PCM samples from `start` on, scaled by `volume`
/// and packed as stereo words, as many as fit; the rest of the buffer is
/// silence. Returns how many samples it took.
pub fn fill_pcm_buffer<const SAMPLE_BUFFER_LEN: usize>(
    samples: &[i16],
    start: usize,
    volume: Volume,
    buffer: &mut [u32; SAMPLE_BUFFER_LEN],
) -> (taken: usize)
    requires
        start <= samples@.len(),
    ensures
        taken == if samples@.len() - start < SAMPLE_BUFFER_LEN {
            samples@.len() - start
        } else {
            SAMPLE_BUFFER_LEN as int
        },
        forall|i: int|
            0 <= i < taken ==> #[trigger] final(buffer)@[i] == stereo_word(
                scaled_sample(samples@[start + i] as int, volume.spec_value()),
            ),
        forall|i: int| taken <= i < SAMPLE_BUFFER_LEN ==> #[trigger] final(buffer)@[i] == 0,
{
    let sample_len = samples.len();
    let remaining = sample_len - start;
    let taken = if remaining < SAMPLE_BUFFER_LEN {
        remaining
    } else {
        SAMPLE_BUFFER_LEN
    };
    let mut index = 0usize;
    while index < SAMPLE_BUFFER_LEN
        invariant
            taken <= SAMPLE_BUFFER_LEN,
            start + taken <= sample_len,
            sample_len == samples@.len(),
            index <= SAMPLE_BUFFER_LEN,
            forall|i: int|
                0 <= i < index && i < taken ==> #[trigger] buffer@[i] == stereo_word(
                    scaled_sample(samples@[start + i] as int, volume.spec_value()),
                ),
            forall|i: int| taken <= i < index ==> #[trigger] buffer@[i] == 0,
        decreases SAMPLE_BUFFER_LEN - index,
    {
        let word = if index < taken {
            stereo_sample(scale_sample_with_volume(samples[start + index], volume))
        } else {
            0
        };
        buffer[index] = word;
        index += 1;
    }
    taken
}


/// Where filling a buffer from an ADPCM clip stopped.
#[derive(Clone, Copy, Debug, PartialEq, Eq)]
pub enum AdpcmFillStop {
    /// The buffer is full: the loop writes it and checks for a command.
    BufferFull,
    /// A block ended: the loop checks for a command, then reads the volume
    /// for the next block.
    EndOfBlock,
    /// The clip is done; the rest of the buffer is silence.
    Finished,
    /// The next block is malformed: the loop drops what it buffered and
    /// ends the clip.
    Invalid,
}

/// The buffered stereo word of sample `k` of an ADPCM clip, at `volume`.
pub open spec fn adpcm_word(data: Seq<u8>, block_align: int, samples_per_block: int, k: int, volume: int) -> int {
    stereo_word(scaled_sample(adpcm_decoded_sample(data, block_align, samples_per_block, k) as int, volume))
}

/// Sets the buffer from `from` on to silence.
fn pad_with_silence<const SAMPLE_BUFFER_LEN: usize>(buffer: &mut [u32; SAMPLE_BUFFER_LEN], from: usize)
    ensures
        forall|i: int| 0 <= i < from && i < SAMPLE_BUFFER_LEN ==> #[trigger] final(buffer)@[i] == old(buffer)@[i],
        forall|i: int| from <= i < SAMPLE_BUFFER_LEN ==> #[trigger] final(buffer)@[i] == 0,
{
    let mut index = from;
    while index < SAMPLE_BUFFER_LEN
        invariant
            from <= index,
            forall|i: int| 0 <= i < from && i < SAMPLE_BUFFER_LEN ==> #[trigger] buffer@[i] == old(buffer)@[i],
            forall|i: int| from <= i < index && i < SAMPLE_BUFFER_LEN ==> #[trigger] buffer@[i] == 0,
        decreases SAMPLE_BUFFER_LEN - index,
    {
        buffer[index] = 0;
        index += 1;
    }
}

/// Continues filling `buffer`, which holds `len` words already, with the
/// clip's next samples scaled by `volume`, until the buffer is full, the
/// current block ends, the clip finishes (the rest of the buffer then
/// becomes silence) or the next block turns out malformed. Returns where it
/// stopped and how many words the buffer holds.
pub fn fill_adpcm_buffer<const SAMPLE_BUFFER_LEN: usize>(
    cursor: &mut AdpcmPlaybackCursor,
    volume: Volume,
    buffer: &mut [u32; SAMPLE_BUFFER_LEN],
    len: usize,
) -> (filled: (AdpcmFillStop, usize))
    requires
        old(cursor).wf(),
        len < SAMPLE_BUFFER_LEN,
    ensures
        final(cursor).wf(),
        final(cursor).spec_data() == old(cursor).spec_data(),
        final(cursor).spec_block_align() == old(cursor).spec_block_align(),
        final(cursor).spec_samples_per_block() == old(cursor).spec_samples_per_block(),
        final(cursor).spec_sample_count() == old(cursor).spec_sample_count(),
        len <= filled.1 <= SAMPLE_BUFFER_LEN,
        final(cursor).produced() == old(cursor).produced() + (filled.1 - len),
        forall|i: int| 0 <= i < len ==> #[trigger] final(buffer)@[i] == old(buffer)@[i],
        forall|i: int|
            len <= i < filled.1 ==> #[trigger] final(buffer)@[i] == adpcm_word(
                old(cursor).spec_data(),
                old(cursor).spec_block_align(),
                old(cursor).spec_samples_per_block(),
                old(cursor).produced() + (i - len),
                volume.spec_value(),
            ),
        ({
            let after = *final(cursor);
            let block = old(cursor).block_index();
            match filled.0 {
                AdpcmFillStop::BufferFull => {
                    &&& filled.1 == SAMPLE_BUFFER_LEN
                    &&& after.block_index() == block
                },
                AdpcmFillStop::EndOfBlock => {
                    &&& filled.1 < SAMPLE_BUFFER_LEN
                    &&& after.at_block_boundary()
                    &&& after.block_index() == block + 1
                    &&& (after.produced() == after.spec_sample_count() || after.produced()
                        == after.block_index() * after.per_block())
                },
                AdpcmFillStop::Finished => {
                    &&& filled.1 < SAMPLE_BUFFER_LEN
                    &&& after.at_block_boundary()
                    &&& (after.produced() >= after.spec_sample_count() || (after.block_index() + 1)
                        * after.spec_block_align() > after.spec_data().len())
                    &&& forall|i: int|
                        filled.1 <= i < SAMPLE_BUFFER_LEN ==> #[trigger] final(buffer)@[i] == 0
                },
                AdpcmFillStop::Invalid => {
                    &&& filled.1 < SAMPLE_BUFFER_LEN
                    &&& after.at_block_boundary()
                    &&& after.produced() < after.spec_sample_count()
                    &&& (after.block_index() + 1) * after.spec_block_align() <= after.spec_data().len()
                    &&& (after.spec_block_align() < 4 || after.spec_data()[after.block_index()
                        * after.spec_block_align() + 2] > 88)
                },
            }
        }),
{
    let ghost start = *cursor;
    let ghost before = *buffer;
    let mut filled = len;
    loop
        invariant
            cursor.wf(),
            cursor.spec_data() == start.spec_data(),
            cursor.spec_block_align() == start.spec_block_align(),
            cursor.spec_samples_per_block() == start.spec_samples_per_block(),
            cursor.spec_sample_count() == start.spec_sample_count(),
            cursor.block_index() == start.block_index(),
            start == *old(cursor),
            before == *old(buffer),
            len <= filled < SAMPLE_BUFFER_LEN,
            cursor.produced() == start.produced() + (filled - len),
            forall|i: int| 0 <= i < len ==> #[trigger] buffer@[i] == before@[i],
            forall|i: int|
                len <= i < filled ==> #[trigger] buffer@[i] == adpcm_word(
                    start.spec_data(),
                    start.spec_block_align(),
                    start.spec_samples_per_block(),
                    start.produced() + (i - len),
                    volume.spec_value(),
                ),
        decreases SAMPLE_BUFFER_LEN - filled,
    {
        match cursor.step() {
            AdpcmPlaybackStep::Sample { sample, .. } => {
                buffer[filled] = stereo_sample(scale_sample_with_volume(sample, volume));
                filled += 1;
                if filled == SAMPLE_BUFFER_LEN {
                    return (AdpcmFillStop::BufferFull, filled);
                }
            },
            AdpcmPlaybackStep::EndOfBlock => {
                return (AdpcmFillStop::EndOfBlock, filled);
            },
            AdpcmPlaybackStep::Finished => {
                pad_with_silence(buffer, filled);
                return (AdpcmFillStop::Finished, filled);
            },
            AdpcmPlaybackStep::Invalid => {
                return (AdpcmFillStop::Invalid, filled);
            },
        }
    }
}

/// What the player shares with its playback loop: whether a play request is
/// pending or playing, the volume ceiling it was made with, and the runtime
/// volume relative to that ceiling.
#[derive(Clone, Copy, Debug)]
pub struct AudioPlayerState {
    is_playing: bool,
    has_pending_play: bool,
    max_volume: Volume,
    runtime_volume: Volume,
}

/// The volume a player plays at: the runtime volume applied to the ceiling.
pub open spec fn effective_volume(max_volume: Volume, runtime_volume: Volume) -> int {
    scaled_linear(max_volume.spec_value(), runtime_volume.spec_value())
}

impl AudioPlayerState {
    /// Whether a play request waits for the loop.
    pub closed spec fn pending(&self) -> bool {
        self.has_pending_play
    }

    /// Whether the loop is playing.
    pub closed spec fn playing(&self) -> bool {
        self.is_playing
    }

    /// The volume ceiling.
    pub closed spec fn ceiling(&self) -> Volume {
        self.max_volume
    }

    /// The runtime volume, relative to the ceiling.
    pub closed spec fn relative(&self) -> Volume {
        self.runtime_volume
    }

    /// An idle player with a volume ceiling and an initial runtime volume.
    pub fn new_with_max_volume_and_initial_volume(max_volume: Volume, initial_volume: Volume) -> (state: Self)
        ensures
            !state.pending(),
            !state.playing(),
            state.ceiling() == max_volume,
            state.relative() == initial_volume,
    {
        AudioPlayerState {
            is_playing: false,
            has_pending_play: false,
            max_volume,
            runtime_volume: initial_volume,
        }
    }

    /// A play request was made.
    pub fn mark_pending_play(&mut self)
        ensures
            final(self).pending(),
            final(self).playing() == old(self).playing(),
            final(self).ceiling() == old(self).ceiling(),
            final(self).relative() == old(self).relative(),
    {
        self.has_pending_play = true;
    }

    /// The loop started playing the request.
    pub fn mark_playing(&mut self)
        ensures
            !final(self).pending(),
            final(self).playing(),
            final(self).ceiling() == old(self).ceiling(),
            final(self).relative() == old(self).relative(),
    {
        self.has_pending_play = false;
        self.is_playing = true;
    }

    /// The loop stopped.
    pub fn mark_stopped(&mut self)
        ensures
            !final(self).pending(),
            !final(self).playing(),
            final(self).ceiling() == old(self).ceiling(),
            final(self).relative() == old(self).relative(),
    {
        self.has_pending_play = false;
        self.is_playing = false;
    }

    /// Whether nothing is pending or playing.
    pub fn is_idle(&self) -> (idle: bool)
        ensures
            idle == (!self.pending() && !self.playing()),
    {
        !self.has_pending_play && !self.is_playing
    }

    /// Changes the runtime volume.
    pub fn set_runtime_volume(&mut self, volume: Volume)
        ensures
            final(self).relative() == volume,
            final(self).pending() == old(self).pending(),
            final(self).playing() == old(self).playing(),
            final(self).ceiling() == old(self).ceiling(),
    {
        self.runtime_volume = volume;
    }

    /// The runtime volume, relative to the ceiling.
    pub fn runtime_volume(&self) -> (volume: Volume)
        ensures
            volume == self.relative(),
    {
        self.runtime_volume
    }

    /// The volume to play at: the runtime volume applied to the ceiling.
    pub fn effective_runtime_volume(&self) -> (volume: Volume)
        ensures
            volume.spec_value() == effective_volume(self.ceiling(), self.relative()),
    {
        let max_linear = self.max_volume.to_i16() as i32;
        let runtime_value = self.runtime_volume.to_i16();
        let scaled = scale_linear(max_linear, self.runtime_volume);
        proof {
            assert(runtime_value == self.runtime_volume.spec_value());
            let linear = max_linear as int;
            let factor = self.runtime_volume.spec_value() + 1;
            if self.runtime_volume.spec_value() != 0 && linear != 0 {
                assert(-32768 * 32768 <= linear * factor <= 32768 * 32768) by (nonlinear_arith)
                    requires
                        -32768 <= linear <= 32767,
                        -32767 <= factor <= 32768,
                ;
                let product = linear * factor;
                if product >= 0 {
                    assert(product / 32768 <= 32768) by (nonlinear_arith)
                        requires
                            0 <= product <= 32768 * 32768,
                    ;
                    assert(product / 32768 <= 32767) by (nonlinear_arith)
                        requires
                            0 <= product <= 32768 * 32768,
                            product == linear * factor,
                            -32768 <= linear <= 32767,
                            -32767 <= factor <= 32768,
                    ;
                } else {
                    assert((-product) / 32768 <= 32768) by (nonlinear_arith)
                        requires
                            0 < -product <= 32768 * 32768,
                    ;
                }
            }
        }
        Volume::from_i16(scaled as i16)
    }
}

} // verus!
