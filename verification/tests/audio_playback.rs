use device_envoy_core::audio_playback::AudioPlayerState;
use device_envoy_core::audio_playback::{
    fill_adpcm_buffer, fill_pcm_buffer, AdpcmFillStop, AdpcmPlaybackCursor, AdpcmPlaybackStep,
};
use device_envoy_core::audio_player::{
    __pcm_clip_from_samples, scale_sample_with_volume, stereo_sample, Volume,
};

fn play_all(cursor: &mut AdpcmPlaybackCursor) -> (Vec<i16>, usize, AdpcmPlaybackStep) {
    let mut samples = Vec::new();
    let mut block_ends = 0;
    loop {
        match cursor.step() {
            AdpcmPlaybackStep::Sample { sample, .. } => samples.push(sample),
            AdpcmPlaybackStep::EndOfBlock => block_ends += 1,
            last => return (samples, block_ends, last),
        }
    }
}

#[test]
fn playback_decodes_what_conversion_decodes() {
    let mut samples = [0i16; 600];
    for (index, sample) in samples.iter_mut().enumerate() {
        *sample = ((index as i32 * 97) % 4000 - 2000) as i16;
    }
    let adpcm = __pcm_clip_from_samples::<8000, 600>(samples).with_adpcm::<512>();
    let decoded = adpcm.with_pcm::<600>();
    let mut cursor = AdpcmPlaybackCursor::new(
        adpcm.data(),
        adpcm.block_align(),
        adpcm.samples_per_block(),
        adpcm.pcm_sample_count() as u32,
    );
    let (played, block_ends, last) = play_all(&mut cursor);
    assert_eq!(played.as_slice(), decoded.samples().as_slice());
    assert_eq!(block_ends, 2);
    assert_eq!(last, AdpcmPlaybackStep::Finished);
    // Once finished, the cursor stays finished.
    assert_eq!(cursor.step(), AdpcmPlaybackStep::Finished);
}

#[test]
fn header_samples_start_blocks() {
    // Two 5-byte blocks: a header (predictor 100, step index 0) and one code byte.
    let data = [100u8, 0, 0, 0, 0x00, 0x9c, 0xff, 0, 0, 0x00];
    let mut cursor = AdpcmPlaybackCursor::new(&data, 5, 3, 6);
    assert_eq!(cursor.step(), AdpcmPlaybackStep::Sample { sample: 100, starts_block: true });
    // Code 0 adds an eighth of step 7: 100 + 0.
    assert_eq!(cursor.step(), AdpcmPlaybackStep::Sample { sample: 100, starts_block: false });
    assert_eq!(cursor.step(), AdpcmPlaybackStep::Sample { sample: 100, starts_block: false });
    assert_eq!(cursor.step(), AdpcmPlaybackStep::EndOfBlock);
    assert_eq!(cursor.step(), AdpcmPlaybackStep::Sample { sample: -100, starts_block: true });
}

#[test]
fn sample_count_limits_playback_mid_block() {
    let data = [100u8, 0, 0, 0, 0x00, 0x9c, 0xff, 0, 0, 0x00];
    let mut cursor = AdpcmPlaybackCursor::new(&data, 5, 3, 2);
    let (played, block_ends, last) = play_all(&mut cursor);
    assert_eq!(played, vec![100, 100]);
    assert_eq!(block_ends, 1);
    assert_eq!(last, AdpcmPlaybackStep::Finished);
}

#[test]
fn playback_stops_when_no_whole_block_is_left() {
    // One whole block and a partial one; the clip claims more samples.
    let data = [7u8, 0, 0, 0, 0x00, 1, 2];
    let mut cursor = AdpcmPlaybackCursor::new(&data, 5, 3, 6);
    let (played, _, last) = play_all(&mut cursor);
    assert_eq!(played.len(), 3);
    assert_eq!(last, AdpcmPlaybackStep::Finished);
}

#[test]
fn bad_step_index_or_short_blocks_are_invalid() {
    let data = [0u8, 0, 89, 0, 0x00];
    let mut cursor = AdpcmPlaybackCursor::new(&data, 5, 3, 3);
    assert_eq!(cursor.step(), AdpcmPlaybackStep::Invalid);
    assert_eq!(cursor.step(), AdpcmPlaybackStep::Invalid);

    let short = [0u8, 0, 0, 0, 0, 0];
    let mut cursor = AdpcmPlaybackCursor::new(&short, 3, 1, 2);
    assert_eq!(cursor.step(), AdpcmPlaybackStep::Invalid);
}

#[test]
fn empty_clip_finishes_at_once() {
    let data = [0u8, 0, 0, 0, 0];
    let mut cursor = AdpcmPlaybackCursor::new(&data, 5, 3, 0);
    assert_eq!(cursor.step(), AdpcmPlaybackStep::Finished);
}

#[test]
fn pcm_buffer_is_filled_then_padded_with_silence() {
    let samples = [1000i16, -2000, 3000, -4000, 5000];
    let volume = Volume::percent(50);
    let mut buffer = [0xdead_beefu32; 4];
    let taken = fill_pcm_buffer(&samples, 0, volume, &mut buffer);
    assert_eq!(taken, 4);
    assert_eq!(buffer[1], stereo_sample(scale_sample_with_volume(-2000, volume)));
    let taken = fill_pcm_buffer(&samples, 4, volume, &mut buffer);
    assert_eq!(taken, 1);
    assert_eq!(buffer[0], stereo_sample(scale_sample_with_volume(5000, volume)));
    assert_eq!(&buffer[1..], &[0, 0, 0]);
    let taken = fill_pcm_buffer(&samples, 5, Volume::max(), &mut buffer);
    assert_eq!(taken, 0);
    assert_eq!(buffer, [0; 4]);
}

#[test]
fn effective_volume_scales_the_ceiling() {
    let mut state = AudioPlayerState::new_with_max_volume_and_initial_volume(
        Volume::percent(50),
        Volume::max(),
    );
    assert_eq!(state.effective_runtime_volume(), Volume::percent(50));
    state.set_runtime_volume(Volume::mute());
    assert_eq!(state.effective_runtime_volume(), Volume::mute());
    let full = AudioPlayerState::new_with_max_volume_and_initial_volume(Volume::max(), Volume::percent(50));
    assert_eq!(full.effective_runtime_volume(), Volume::percent(50));
    assert_eq!(full.runtime_volume(), Volume::percent(50));
}

#[test]
fn player_is_idle_only_when_nothing_is_pending_or_playing() {
    let mut state = AudioPlayerState::new_with_max_volume_and_initial_volume(Volume::max(), Volume::max());
    assert!(state.is_idle());
    state.mark_pending_play();
    assert!(!state.is_idle());
    state.mark_playing();
    assert!(!state.is_idle());
    state.mark_stopped();
    assert!(state.is_idle());
}

#[test]
fn adpcm_buffer_fills_until_block_end_then_full_then_finished() {
    // Two 5-byte blocks of three samples each: 100, 100, 100 then -100, ...
    let data = [100u8, 0, 0, 0, 0x00, 0x9c, 0xff, 0, 0, 0x00];
    let mut cursor = AdpcmPlaybackCursor::new(&data, 5, 3, 6);
    let volume = Volume::max();
    let mut buffer = [0xdead_beefu32; 4];
    let word = |sample: i16| stereo_sample(scale_sample_with_volume(sample, volume));

    assert_eq!(fill_adpcm_buffer(&mut cursor, volume, &mut buffer, 0), (AdpcmFillStop::EndOfBlock, 3));
    assert_eq!(buffer[..3], [word(100), word(100), word(100)]);
    assert_eq!(buffer[3], 0xdead_beef);

    assert_eq!(fill_adpcm_buffer(&mut cursor, volume, &mut buffer, 3), (AdpcmFillStop::BufferFull, 4));
    assert_eq!(buffer[3], word(-100));

    let (stop, filled) = fill_adpcm_buffer(&mut cursor, volume, &mut buffer, 0);
    assert_eq!((stop, filled), (AdpcmFillStop::EndOfBlock, 2));
    assert_eq!(fill_adpcm_buffer(&mut cursor, volume, &mut buffer, filled), (AdpcmFillStop::Finished, 2));
    assert_eq!(buffer[2..], [0, 0]);
}

#[test]
fn adpcm_buffer_stops_at_a_malformed_block() {
    // The second block's step index, 89, is out of range.
    let data = [100u8, 0, 0, 0, 0x00, 0x9c, 0xff, 89, 0, 0x00];
    let mut cursor = AdpcmPlaybackCursor::new(&data, 5, 3, 6);
    let mut buffer = [0u32; 8];
    let volume = Volume::percent(50);
    assert_eq!(fill_adpcm_buffer(&mut cursor, volume, &mut buffer, 0), (AdpcmFillStop::EndOfBlock, 3));
    assert_eq!(buffer[0], stereo_sample(scale_sample_with_volume(100, volume)));
    assert_eq!(fill_adpcm_buffer(&mut cursor, volume, &mut buffer, 3), (AdpcmFillStop::Invalid, 3));
}
