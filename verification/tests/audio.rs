use rift::config::{AudioTargetConfig, TargetConfig, TextureTargetConfig};
use rift::converters::audio::{bitrate_to_vorbis_quality, plan_conversion, validate_wav, AudioAction, AudioPlan};
use std::io::Cursor;

fn test_target() -> TargetConfig {
    TargetConfig {
        engine: "unity".into(),
        project: "/tmp/rift-test-out".into(),
        textures: TextureTargetConfig::default(),
        audio: AudioTargetConfig::default(),
    }
}

/// A WAV file in memory, and the header the WAV reader finds in it.
fn wav_bytes(channels: u16, rate: u32, samples: usize) -> (u64, Result<(u16, u32), String>) {
    let spec = hound::WavSpec {
        channels,
        sample_rate: rate,
        bits_per_sample: 16,
        sample_format: hound::SampleFormat::Int,
    };
    let mut cur = Cursor::new(Vec::new());
    {
        let mut writer = hound::WavWriter::new(&mut cur, spec).unwrap();
        for _ in 0..samples {
            writer.write_sample(0i16).unwrap();
        }
        writer.finalize().unwrap();
    }
    let bytes = cur.into_inner();
    let header = match hound::WavReader::new(Cursor::new(&bytes[..])) {
        Ok(r) => Ok((r.spec().channels, r.spec().sample_rate)),
        Err(e) => Err(e.to_string()),
    };
    (bytes.len() as u64, header)
}

#[test]
fn test_validate_wav_valid() {
    let (size, header) = wav_bytes(1, 44100, 44100);
    assert!(validate_wav("test.wav", size, &header).is_ok());
}

#[test]
fn test_validate_wav_empty() {
    let result = validate_wav("empty.wav", 0, &Err("unexpected end of file".to_string()));
    assert!(result.is_err());
    assert!(result.unwrap_err().message().contains("too small"));
}

#[test]
fn test_validate_wav_bad_channels() {
    let (size, header) = wav_bytes(99, 44100, 99);
    let result = validate_wav("bad.wav", size, &header);
    assert!(result.is_err());
    assert!(result.unwrap_err().message().contains("channel"));
}

#[test]
fn wav_messages() {
    let e = validate_wav("a.wav", 10, &Ok((1, 44100))).unwrap_err();
    assert_eq!(e.message(), "Conversion error: WAV file too small (10 bytes) \u{2014} not a valid WAV: a.wav");
    let e = validate_wav("a.wav", 100, &Err("no RIFF tag found".to_string())).unwrap_err();
    assert_eq!(e.message(), "Conversion error: Cannot parse WAV: no RIFF tag found");
    let e = validate_wav("a.wav", 100, &Ok((0, 44100))).unwrap_err();
    assert_eq!(e.message(), "Conversion error: Unsupported channel count (0): a.wav");
    let e = validate_wav("a.wav", 100, &Ok((2, 3999))).unwrap_err();
    assert_eq!(e.message(), "Conversion error: Unsupported sample rate (3999 Hz): a.wav");
    assert!(validate_wav("a.wav", 44, &Ok((8, 384000))).is_ok());
    assert!(validate_wav("a.wav", 44, &Ok((2, 4000))).is_ok());
    assert!(validate_wav("a.wav", 44, &Ok((2, 384001))).is_err());
}

#[test]
fn test_convert_audio_copy_already_ogg() {
    let mut target = test_target();
    target.project = "dir/out".into();
    target.audio.format = "ogg".into();
    match plan_conversion("dir/test.ogg", &target) {
        AudioPlan::CopyAsIs { validate_source, output_path } => {
            assert!(!validate_source);
            assert_eq!(output_path, "dir/out/test.ogg");
            assert!(output_path.ends_with(".ogg"));
        }
        other => panic!("unexpected plan {:?}", other),
    }
}

#[test]
fn test_convert_audio_wav_to_wav() {
    let mut target = test_target();
    target.project = "dir/out".into();
    target.audio.format = "wav".into();
    match plan_conversion("dir/test.wav", &target) {
        AudioPlan::CopyAsIs { validate_source, output_path } => {
            assert!(validate_source);
            assert_eq!(output_path, "dir/out/test.wav");
            assert!(output_path.ends_with(".wav"));
        }
        other => panic!("unexpected plan {:?}", other),
    }
}

#[test]
fn audio_plans() {
    let mut target = test_target();
    target.project = "out".into();
    target.audio.format = "ogg".into();
    target.audio.bitrate = "96k".into();
    match plan_conversion("raw/sound.WAV", &target) {
        AudioPlan::Convert { validate_source, output_path, action } => {
            assert!(validate_source);
            assert_eq!(output_path, "out/sound.ogg");
            assert_eq!(action, AudioAction::Encode { quality: 3 });
        }
        other => panic!("unexpected plan {:?}", other),
    }
    match plan_conversion("raw/sound.mp3", &target) {
        AudioPlan::Convert { validate_source, output_path, action } => {
            assert!(!validate_source);
            assert_eq!(output_path, "out/sound.ogg");
            assert_eq!(action, AudioAction::Copy);
        }
        other => panic!("unexpected plan {:?}", other),
    }
    target.audio.format = "wav".into();
    match plan_conversion("raw/sound.mp3", &target) {
        AudioPlan::Convert { action, .. } => assert_eq!(action, AudioAction::ValidateAndCopy),
        other => panic!("unexpected plan {:?}", other),
    }
    target.audio.format = "flac".into();
    match plan_conversion("raw/noext", &target) {
        AudioPlan::Convert { output_path, action, validate_source } => {
            assert_eq!(output_path, "out/noext.flac");
            assert_eq!(action, AudioAction::Copy);
            assert!(!validate_source);
        }
        other => panic!("unexpected plan {:?}", other),
    }
}

#[test]
fn test_bitrate_to_quality() {
    assert_eq!(f64::from(bitrate_to_vorbis_quality("64k")), 2.0);
    assert_eq!(f64::from(bitrate_to_vorbis_quality("128k")), 4.0);
    assert_eq!(f64::from(bitrate_to_vorbis_quality("192k")), 6.0);
    assert_eq!(f64::from(bitrate_to_vorbis_quality("320k")), 8.0);
    assert_eq!(f64::from(bitrate_to_vorbis_quality("96")), 3.0);
    assert_eq!(f64::from(bitrate_to_vorbis_quality("")), 4.0); // default
}

#[test]
fn bitrate_edge_cases() {
    assert_eq!(bitrate_to_vorbis_quality("  160K "), 5);
    assert_eq!(bitrate_to_vorbis_quality("256kbps"), 4);
    assert_eq!(bitrate_to_vorbis_quality("256bps"), 7);
    assert_eq!(bitrate_to_vorbis_quality("48kk"), 1);
    assert_eq!(bitrate_to_vorbis_quality("+72"), 2);
    assert_eq!(bitrate_to_vorbis_quality("-72"), 4);
    assert_eq!(bitrate_to_vorbis_quality("1000k"), 6);
    assert_eq!(bitrate_to_vorbis_quality("44100"), 6);
    assert_eq!(bitrate_to_vorbis_quality("99999999999"), 4);
    assert_eq!(bitrate_to_vorbis_quality("0"), 1);
}

#[test]
fn quality_rises_with_bitrate() {
    let mut last = 0;
    for kbps in 0..=320u32 {
        let q = bitrate_to_vorbis_quality(&format!("{}k", kbps));
        assert!((1..=8).contains(&q));
        assert!(q >= last, "{}k gave {} after {}", kbps, q, last);
        last = q;
    }
}
