use dloor::config::Config;
use dloor::transcode::{transcode_args, TranscodeError, TranscodePreset, X264Preset};

fn args(preset: &TranscodePreset) -> Vec<String> {
    transcode_args("in.mp4", "out.mp4", preset)
}

#[test]
fn standard_preset_gives_the_default_ffmpeg_arguments() {
    let preset = TranscodePreset::standard();
    assert_eq!(
        args(&preset),
        vec![
            "-y",
            "-i",
            "in.mp4",
            "-c:v",
            "libx264",
            "-crf",
            "28",
            "-preset",
            "fast",
            "-vf",
            "scale='min(1920,iw)':-2",
            "-c:a",
            "aac",
            "-b:a",
            "128k",
            "out.mp4",
        ]
    );
}

#[test]
fn configured_preset_values_reach_ffmpeg() {
    let preset = TranscodePreset::from_stored(Some(0), Some("veryslow"), Some(1280), Some(96)).unwrap();
    let a = args(&preset);
    assert_eq!(a[6], "0");
    assert_eq!(a[8], "veryslow");
    assert_eq!(a[10], "scale='min(1280,iw)':-2");
    assert_eq!(a[14], "96k");
}

#[test]
fn missing_transcode_values_take_their_defaults() {
    let preset = TranscodePreset::from_stored(Some(30), None, None, None).unwrap();
    assert_eq!(preset.crf, 30);
    assert_eq!(preset.preset, X264Preset::Fast);
    assert_eq!(preset.max_width, 1920);
    assert_eq!(preset.audio_bitrate_kbps, 128);
    let config = Config::default();
    assert_eq!(config.transcode.crf, 28);
    assert_eq!(config.transcode.preset, X264Preset::Fast);
}

#[test]
fn transcode_values_out_of_range_are_refused() {
    assert_eq!(TranscodePreset::from_stored(Some(52), None, None, None).unwrap_err(), TranscodeError::Crf);
    assert_eq!(TranscodePreset::from_stored(Some(-1), None, None, None).unwrap_err(), TranscodeError::Crf);
    assert_eq!(
        TranscodePreset::from_stored(None, Some("libx265"), None, None).unwrap_err(),
        TranscodeError::Preset
    );
    assert_eq!(TranscodePreset::from_stored(None, None, Some(1281), None).unwrap_err(), TranscodeError::MaxWidth);
    assert_eq!(TranscodePreset::from_stored(None, None, Some(14), None).unwrap_err(), TranscodeError::MaxWidth);
    assert_eq!(TranscodePreset::from_stored(None, None, Some(1922), None).unwrap_err(), TranscodeError::MaxWidth);
    assert_eq!(TranscodePreset::from_stored(None, None, None, Some(7)).unwrap_err(), TranscodeError::AudioBitrate);
    assert_eq!(TranscodePreset::from_stored(None, None, None, Some(513)).unwrap_err(), TranscodeError::AudioBitrate);
    assert!(TranscodePreset::from_stored(Some(51), Some("placebo"), Some(16), Some(512)).is_ok());
    assert!(TranscodePreset::from_stored(Some(99), Some("bad"), Some(3), Some(1)).unwrap_err() == TranscodeError::Crf);
    assert_eq!(
        TranscodeError::MaxWidth.to_string(),
        "invalid [transcode] max_width: must be an even value from 16 through 1920"
    );
}

#[test]
fn every_preset_name_reads_back() {
    for preset in [
        X264Preset::Ultrafast,
        X264Preset::Superfast,
        X264Preset::Veryfast,
        X264Preset::Faster,
        X264Preset::Fast,
        X264Preset::Medium,
        X264Preset::Slow,
        X264Preset::Slower,
        X264Preset::Veryslow,
        X264Preset::Placebo,
    ] {
        assert_eq!(X264Preset::parse(preset.name()), Some(preset));
    }
    assert_eq!(X264Preset::parse("Fast"), None);
}
