use device_envoy_core::audio_player::{
    ParsedAdpcmWavHeader, SilenceClip, Volume, WavHeaderError, __adpcm_data_len_for_pcm_samples,
    __adpcm_samples_per_block, __parse_adpcm_wav_header, __pcm_clip_from_samples,
    __resample_pcm_clip, __resampled_sample_count, __samples_for_duration, __tone_pcm_clip,
    decode_adpcm_nibble_const, duration_for_sample_count, parse_adpcm_wav_header,
    scale_sample_with_linear, scale_sample_with_volume, stereo_sample, Gain,
};
use device_envoy_core::duration::Duration;

#[test]
fn volume_scales_samples() {
    assert_eq!(scale_sample_with_volume(1000, Volume::max()), 1000);
    assert_eq!(scale_sample_with_volume(1000, Volume::percent(50)), 500);
    assert_eq!(scale_sample_with_volume(-1001, Volume::percent(50)), -500);
    assert_eq!(scale_sample_with_volume(1000, Volume::spinal_tap(5)), 250);
    assert_eq!(scale_sample_with_volume(1000, Volume::spinal_tap(11)), 1000);
    assert_eq!(scale_sample_with_volume(1000, Volume::mute()), 0);
    assert_eq!(scale_sample_with_volume(1000, Volume::percent(250)), 1000);
}

#[test]
fn linear_scaling_saturates() {
    assert_eq!(scale_sample_with_linear(i16::MAX, 32767), i16::MAX);
    assert_eq!(scale_sample_with_linear(i16::MIN, 32767), i16::MIN);
    assert_eq!(scale_sample_with_linear(20_000, 65_534), i16::MAX);
    assert_eq!(scale_sample_with_linear(-20_000, 65_534), i16::MIN);
    assert_eq!(scale_sample_with_linear(123, 0), 0);
}

#[test]
fn gain_in_db_and_percent() {
    let clip = __pcm_clip_from_samples::<8000, 2>([10_000, -10_000]);
    assert_eq!(clip.with_gain(Gain::db(-6)).samples(), &[5012, -5012]);
    let clip = __pcm_clip_from_samples::<8000, 2>([10_000, -10_000]);
    assert_eq!(clip.with_gain(Gain::db(3)).samples(), &[14142, -14142]);
    let clip = __pcm_clip_from_samples::<8000, 2>([10_000, -10_000]);
    assert_eq!(clip.with_gain(Gain::percent(50)).samples(), &[5000, -5000]);
    let clip = __pcm_clip_from_samples::<8000, 2>([10_000, -10_000]);
    assert_eq!(clip.with_gain(Gain::mute()).samples(), &[0, 0]);
}

#[test]
fn stereo_words_duplicate_the_sample_pattern() {
    assert_eq!(stereo_sample(1), 0x0001_0001);
    assert_eq!(stereo_sample(-1), 0xFFFF_FFFF);
    assert_eq!(stereo_sample(i16::MIN), 0x8000_8000);
}

#[test]
fn sample_counts_and_durations() {
    assert_eq!(__samples_for_duration(Duration::from_millis(1500), 8000), 12_000);
    let duration = duration_for_sample_count(12_001, 8000);
    assert_eq!(duration.as_secs(), 1);
    assert_eq!(duration.subsec_nanos(), 500_125_000);
    assert_eq!(__resampled_sample_count(22_050, 22_050, 8000), 8000);
    assert_eq!(__resampled_sample_count(3, 4, 8), 6);
}

#[test]
fn adpcm_block_sizes() {
    assert_eq!(__adpcm_samples_per_block(256), 505);
    assert_eq!(__adpcm_samples_per_block(5), 3);
    assert_eq!(__adpcm_data_len_for_pcm_samples(0), 0);
    assert_eq!(__adpcm_data_len_for_pcm_samples(1010), 512);
    assert_eq!(__adpcm_data_len_for_pcm_samples(1011), 768);
}

#[test]
fn decoding_one_code_follows_the_step_table() {
    let mut predictor = 0;
    let mut step_index = 0;
    assert_eq!(decode_adpcm_nibble_const(0x7, &mut predictor, &mut step_index), 11);
    assert_eq!((predictor, step_index), (11, 8));
    assert_eq!(decode_adpcm_nibble_const(0xF, &mut predictor, &mut step_index), -19);
    assert_eq!((predictor, step_index), (-19, 16));
    let mut predictor = 32_760;
    let mut step_index = 88;
    assert_eq!(decode_adpcm_nibble_const(0x7, &mut predictor, &mut step_index), i16::MAX);
    assert_eq!(step_index, 88);
}

#[test]
fn adpcm_round_trip_keeps_block_starts_exact() {
    let mut samples = [0i16; 600];
    for (index, sample) in samples.iter_mut().enumerate() {
        *sample = ((index as i32 * 97) % 4000 - 2000) as i16;
    }
    let pcm = __pcm_clip_from_samples::<8000, 600>(samples);
    let adpcm = pcm.with_adpcm::<512>();
    assert_eq!(adpcm.block_align(), 256);
    assert_eq!(adpcm.samples_per_block(), 505);
    assert_eq!(adpcm.pcm_sample_count(), 600);
    assert_eq!(adpcm.data()[2], 0);
    let decoded = adpcm.with_pcm::<600>();
    assert_eq!(decoded.samples()[0], samples[0]);
    assert_eq!(decoded.samples()[505], samples[505]);
}

#[test]
fn adpcm_gain_rescales_decoded_audio() {
    let samples = [1000i16; 10];
    let pcm = __pcm_clip_from_samples::<8000, 10>(samples);
    let adpcm = pcm.with_adpcm::<256>();
    let quieter = adpcm.with_gain(Gain::percent(50));
    let decoded = quieter.with_pcm::<10>();
    assert_eq!(decoded.samples()[0], 500);
    assert_eq!(quieter.pcm_sample_count(), 10);
}

#[test]
fn resampling_interpolates_linearly() {
    let clip = __pcm_clip_from_samples::<4, 3>([0, 100, 200]);
    let resampled = __resample_pcm_clip::<4, 3, 8, 6>(clip);
    assert_eq!(resampled.samples(), &[0, 50, 100, 150, 200, 200]);
}

#[test]
fn tone_has_ramped_ends() {
    let clip = __tone_pcm_clip::<8000, 800>(440);
    let samples = clip.samples();
    assert_eq!(samples[0], 0);
    assert_eq!(samples[1], 55);
    assert_eq!(samples[5], 809);
    assert_eq!(samples[799], -55);
}

#[test]
fn silence_clip_keeps_its_duration() {
    let clip = SilenceClip::new(Duration::from_millis(80));
    assert_eq!(clip.duration(), Duration::from_millis(80));
}

fn minimal_wav(channels: u16, data_len: u32) -> Vec<u8> {
    let mut bytes = Vec::new();
    bytes.extend_from_slice(b"RIFF");
    bytes.extend_from_slice(&(4 + 8 + 22 + 8 + data_len).to_le_bytes());
    bytes.extend_from_slice(b"WAVE");
    bytes.extend_from_slice(b"fmt ");
    bytes.extend_from_slice(&22u32.to_le_bytes());
    bytes.extend_from_slice(&0x0011u16.to_le_bytes());
    bytes.extend_from_slice(&channels.to_le_bytes());
    bytes.extend_from_slice(&8000u32.to_le_bytes());
    bytes.extend_from_slice(&4055u32.to_le_bytes());
    bytes.extend_from_slice(&256u16.to_le_bytes());
    bytes.extend_from_slice(&4u16.to_le_bytes());
    bytes.extend_from_slice(&2u16.to_le_bytes());
    bytes.extend_from_slice(&505u16.to_le_bytes());
    bytes.extend_from_slice(&[0, 0]);
    bytes.extend_from_slice(b"data");
    bytes.extend_from_slice(&data_len.to_le_bytes());
    bytes.extend(std::iter::repeat(0u8).take(data_len as usize));
    bytes
}

#[test]
fn wav_header_is_parsed() {
    let bytes = minimal_wav(1, 512);
    let expected = ParsedAdpcmWavHeader {
        sample_rate_hz: 8000,
        block_align: 256,
        samples_per_block: 505,
        data_chunk_start: 50,
        data_chunk_len: 512,
        sample_count: 1010,
    };
    assert_eq!(parse_adpcm_wav_header(&bytes), Ok(expected));
    assert_eq!(__parse_adpcm_wav_header(&bytes), expected);
}

#[test]
fn wav_header_errors() {
    assert_eq!(parse_adpcm_wav_header(b"RIFF"), Err(WavHeaderError::TooSmall));
    let mut bytes = minimal_wav(1, 512);
    bytes[0] = b'X';
    assert_eq!(parse_adpcm_wav_header(&bytes), Err(WavHeaderError::MissingRiff));
    let mut bytes = minimal_wav(1, 512);
    bytes[8] = b'X';
    assert_eq!(parse_adpcm_wav_header(&bytes), Err(WavHeaderError::MissingWave));
    assert_eq!(parse_adpcm_wav_header(&minimal_wav(2, 512)), Err(WavHeaderError::NotMono));
    assert_eq!(
        parse_adpcm_wav_header(&minimal_wav(1, 500)),
        Err(WavHeaderError::DataNotBlockAligned)
    );
    let mut bytes = minimal_wav(1, 512);
    bytes[20] = 1;
    assert_eq!(parse_adpcm_wav_header(&bytes), Err(WavHeaderError::NotAdpcm));
    let mut bytes = minimal_wav(1, 512);
    bytes[34] = 16;
    assert_eq!(parse_adpcm_wav_header(&bytes), Err(WavHeaderError::NotFourBit));
    let mut bytes = minimal_wav(1, 512);
    bytes[38] = 0;
    assert_eq!(
        parse_adpcm_wav_header(&bytes),
        Err(WavHeaderError::UnexpectedSamplesPerBlock)
    );
    let mut bytes = minimal_wav(1, 512);
    bytes[46] = 0xFF;
    bytes[47] = 0xFF;
    assert_eq!(parse_adpcm_wav_header(&bytes), Err(WavHeaderError::ChunkOverrun));
    let bytes = minimal_wav(1, 512);
    assert_eq!(parse_adpcm_wav_header(&bytes[..42]), Err(WavHeaderError::MissingData));
    let mut bytes = minimal_wav(1, 512);
    bytes[12] = b'x';
    assert_eq!(parse_adpcm_wav_header(&bytes), Err(WavHeaderError::MissingFmt));
    let mut bytes = minimal_wav(1, 512);
    bytes[16] = 10;
    assert_eq!(parse_adpcm_wav_header(&bytes), Err(WavHeaderError::FmtTooSmall));
    let mut bytes = minimal_wav(1, 512);
    bytes[32] = 4;
    bytes[33] = 0;
    assert_eq!(parse_adpcm_wav_header(&bytes), Err(WavHeaderError::BlockAlignTooSmall));
}

#[test]
fn db_gains_clamp_at_both_limits_and_boost_above_five() {
    assert_eq!(Gain::db(40), Gain::db(12));
    assert_eq!(Gain::db(i8::MAX), Gain::db(12));
    assert_eq!(Gain::db(-120), Gain::db(-96));
    assert_eq!(Gain::db(0), Gain::percent(100));
    assert_ne!(Gain::db(6), Gain::db(5));
    assert_ne!(Gain::db(12), Gain::db(11));
    // Six one-dB steps double the amplitude: 32767 * 65536 / 32768, rounded.
    assert_eq!(Gain::db(6), Gain::percent(200));
}

#[test]
fn silence_clips_are_equal_when_their_durations_are() {
    let short = Duration::from_millis(80);
    assert_eq!(SilenceClip::new(short), SilenceClip::new(Duration::from_millis(80)));
    assert_ne!(SilenceClip::new(short), SilenceClip::new(Duration::from_millis(81)));
    assert_eq!(SilenceClip::new(short).duration(), short);
}
