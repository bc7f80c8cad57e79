//! The `[transcode]` preset of Video / Compressed: validated numbers and a
//! known x264 preset name, never free-form ffmpeg arguments.

use vstd::prelude::*;

use crate::text::{decimal, decimal_string, owned, push_decimal, push_str, str_eq, views};

verus! {

broadcast use vstd::string::group_string_axioms;

/// The x264 speed presets that the configuration accepts.
#[derive(Debug, Clone, Copy, PartialEq, Eq, Structural)]
pub enum X264Preset {
    Ultrafast,
    Superfast,
    Veryfast,
    Faster,
    Fast,
    Medium,
    Slow,
    Slower,
    Veryslow,
    Placebo,
}

impl X264Preset {
    pub open spec fn name_spec(self) -> Seq<char> {
        match self {
            X264Preset::Ultrafast => "ultrafast"@,
            X264Preset::Superfast => "superfast"@,
            X264Preset::Veryfast => "veryfast"@,
            X264Preset::Faster => "faster"@,
            X264Preset::Fast => "fast"@,
            X264Preset::Medium => "medium"@,
            X264Preset::Slow => "slow"@,
            X264Preset::Slower => "slower"@,
            X264Preset::Veryslow => "veryslow"@,
            X264Preset::Placebo => "placebo"@,
        }
    }

    /// The name that ffmpeg's `-preset` takes.
    pub fn name(self) -> (r: &'static str)
        ensures
            r@ == self.name_spec(),
    {
        match self {
            X264Preset::Ultrafast => "ultrafast",
            X264Preset::Superfast => "superfast",
            X264Preset::Veryfast => "veryfast",
            X264Preset::Faster => "faster",
            X264Preset::Fast => "fast",
            X264Preset::Medium => "medium",
            X264Preset::Slow => "slow",
            X264Preset::Slower => "slower",
            X264Preset::Veryslow => "veryslow",
            X264Preset::Placebo => "placebo",
        }
    }

    /// The preset with this exact name.
    pub fn parse(name: &str) -> (r: Option<X264Preset>)
        ensures
            r == preset_named(name@),
    {
        if str_eq(name, "ultrafast") {
            Some(X264Preset::Ultrafast)
        } else if str_eq(name, "superfast") {
            Some(X264Preset::Superfast)
        } else if str_eq(name, "veryfast") {
            Some(X264Preset::Veryfast)
        } else if str_eq(name, "faster") {
            Some(X264Preset::Faster)
        } else if str_eq(name, "fast") {
            Some(X264Preset::Fast)
        } else if str_eq(name, "medium") {
            Some(X264Preset::Medium)
        } else if str_eq(name, "slow") {
            Some(X264Preset::Slow)
        } else if str_eq(name, "slower") {
            Some(X264Preset::Slower)
        } else if str_eq(name, "veryslow") {
            Some(X264Preset::Veryslow)
        } else if str_eq(name, "placebo") {
            Some(X264Preset::Placebo)
        } else {
            None
        }
    }
}

/// The preset whose name is `s`, if any.
pub open spec fn preset_named(s: Seq<char>) -> Option<X264Preset> {
    if s == "ultrafast"@ {
        Some(X264Preset::Ultrafast)
    } else if s == "superfast"@ {
        Some(X264Preset::Superfast)
    } else if s == "veryfast"@ {
        Some(X264Preset::Veryfast)
    } else if s == "faster"@ {
        Some(X264Preset::Faster)
    } else if s == "fast"@ {
        Some(X264Preset::Fast)
    } else if s == "medium"@ {
        Some(X264Preset::Medium)
    } else if s == "slow"@ {
        Some(X264Preset::Slow)
    } else if s == "slower"@ {
        Some(X264Preset::Slower)
    } else if s == "veryslow"@ {
        Some(X264Preset::Veryslow)
    } else if s == "placebo"@ {
        Some(X264Preset::Placebo)
    } else {
        None
    }
}

proof fn lemma_preset_names_differ()
    ensures
        "ultrafast"@.len() == 9,
        "superfast"@.len() == 9,
        "veryfast"@.len() == 8,
        "faster"@.len() == 6,
        "fast"@.len() == 4,
        "medium"@.len() == 6,
        "slow"@.len() == 4,
        "slower"@.len() == 6,
        "veryslow"@.len() == 8,
        "placebo"@.len() == 7,
        "superfast"@ != "ultrafast"@,
        "medium"@ != "faster"@,
        "slow"@ != "fast"@,
        "slower"@ != "faster"@,
        "slower"@ != "medium"@,
        "veryslow"@ != "veryfast"@,
{
    reveal_strlit("ultrafast");
    reveal_strlit("superfast");
    reveal_strlit("veryfast");
    reveal_strlit("faster");
    reveal_strlit("fast");
    reveal_strlit("medium");
    reveal_strlit("slow");
    reveal_strlit("slower");
    reveal_strlit("veryslow");
    reveal_strlit("placebo");
    // Names of one length differ in their first or fifth letter.
    assert("superfast"@[0] != "ultrafast"@[0]);
    assert("medium"@[0] != "faster"@[0]);
    assert("slow"@[0] != "fast"@[0]);
    assert("slower"@[0] != "faster"@[0]);
    assert("slower"@[0] != "medium"@[0]);
    assert("veryslow"@[4] != "veryfast"@[4]);
}

/// Reading a preset's own name gives the preset back.
pub proof fn lemma_preset_name_round_trip(p: X264Preset)
    ensures
        preset_named(p.name_spec()) == Some(p),
{
    lemma_preset_names_differ();
}

/// The settings of the compressed-video re-encode.
#[derive(Debug, Clone, Copy)]
pub struct TranscodePreset {
    pub crf: u8,
    pub preset: X264Preset,
    pub max_width: u32,
    pub audio_bitrate_kbps: u32,
}

/// Why a stored `[transcode]` table is refused.
#[derive(Debug, Clone, Copy, PartialEq, Eq, Structural)]
pub enum TranscodeError {
    Crf,
    Preset,
    MaxWidth,
    AudioBitrate,
}

pub open spec fn crf_ok(crf: int) -> bool {
    0 <= crf <= 51
}

pub open spec fn max_width_ok(w: int) -> bool {
    16 <= w <= 1920 && w % 2 == 0
}

pub open spec fn audio_bitrate_ok(kbps: int) -> bool {
    8 <= kbps <= 512
}

pub open spec fn or_default(v: Option<i64>, d: int) -> int {
    match v {
        Some(x) => x as int,
        None => d,
    }
}

/// What a stored table gives: every missing value takes its default; the
/// first value out of its range, in the order crf, preset, max_width,
/// audio_bitrate_kbps, is the error.
pub open spec fn stored_preset(
    crf: Option<i64>,
    preset: Option<Seq<char>>,
    max_width: Option<i64>,
    audio_bitrate_kbps: Option<i64>,
) -> Result<TranscodePreset, TranscodeError> {
    let c = or_default(crf, 28);
    let w = or_default(max_width, 1920);
    let a = or_default(audio_bitrate_kbps, 128);
    if !crf_ok(c) {
        Err(TranscodeError::Crf)
    } else if preset is Some && preset_named(preset->0) is None {
        Err(TranscodeError::Preset)
    } else if !max_width_ok(w) {
        Err(TranscodeError::MaxWidth)
    } else if !audio_bitrate_ok(a) {
        Err(TranscodeError::AudioBitrate)
    } else {
        Ok(
            TranscodePreset {
                crf: c as u8,
                preset: match preset {
                    Some(n) => preset_named(n)->0,
                    None => X264Preset::Fast,
                },
                max_width: w as u32,
                audio_bitrate_kbps: a as u32,
            },
        )
    }
}

pub open spec fn opt_view(s: Option<&str>) -> Option<Seq<char>> {
    match s {
        Some(t) => Some(t@),
        None => None,
    }
}

impl TranscodeError {
    pub open spec fn message_text(self) -> Seq<char> {
        match self {
            TranscodeError::Crf => "invalid [transcode] crf: must be between 0 and 51"@,
            TranscodeError::Preset => "invalid [transcode] preset: must be one of ultrafast, superfast, veryfast, faster, fast, medium, slow, slower, veryslow, placebo"@,
            TranscodeError::MaxWidth => "invalid [transcode] max_width: must be an even value from 16 through 1920"@,
            TranscodeError::AudioBitrate => "invalid [transcode] audio_bitrate_kbps: must be from 8 through 512"@,
        }
    }

    pub fn to_string(self) -> (r: String)
        ensures
            r@ == self.message_text(),
    {
        match self {
            TranscodeError::Crf => owned("invalid [transcode] crf: must be between 0 and 51"),
            TranscodeError::Preset => owned(
                "invalid [transcode] preset: must be one of ultrafast, superfast, veryfast, faster, fast, medium, slow, slower, veryslow, placebo",
            ),
            TranscodeError::MaxWidth => owned(
                "invalid [transcode] max_width: must be an even value from 16 through 1920",
            ),
            TranscodeError::AudioBitrate => owned(
                "invalid [transcode] audio_bitrate_kbps: must be from 8 through 512",
            ),
        }
    }
}

impl TranscodePreset {
    /// Every value is in its documented range.
    pub open spec fn valid(self) -> bool {
        &&& crf_ok(self.crf as int)
        &&& max_width_ok(self.max_width as int)
        &&& audio_bitrate_ok(self.audio_bitrate_kbps as int)
    }

    pub open spec fn is_default(self) -> bool {
        &&& self.crf == 28
        &&& self.preset == X264Preset::Fast
        &&& self.max_width == 1920
        &&& self.audio_bitrate_kbps == 128
    }

    /// The preset a configuration without `[transcode]` uses.
    pub fn standard() -> (r: TranscodePreset)
        ensures
            r.is_default(),
            r.valid(),
    {
        TranscodePreset { crf: 28, preset: X264Preset::Fast, max_width: 1920, audio_bitrate_kbps: 128 }
    }

    /// The preset a stored `[transcode]` table describes.
    pub fn from_stored(
        crf: Option<i64>,
        preset: Option<&str>,
        max_width: Option<i64>,
        audio_bitrate_kbps: Option<i64>,
    ) -> (r: Result<TranscodePreset, TranscodeError>)
        ensures
            r == stored_preset(crf, opt_view(preset), max_width, audio_bitrate_kbps),
            r matches Ok(p) ==> p.valid(),
    {
        let c: i64 = match crf {
            Some(x) => x,
            None => 28,
        };
        let w: i64 = match max_width {
            Some(x) => x,
            None => 1920,
        };
        let a: i64 = match audio_bitrate_kbps {
            Some(x) => x,
            None => 128,
        };
        if !(0 <= c && c <= 51) {
            return Err(TranscodeError::Crf);
        }
        let named = match preset {
            Some(n) => match X264Preset::parse(n) {
                Some(p) => p,
                None => {
                    return Err(TranscodeError::Preset);
                },
            },
            None => X264Preset::Fast,
        };
        if !(16 <= w && w <= 1920 && w % 2 == 0) {
            return Err(TranscodeError::MaxWidth);
        }
        if !(8 <= a && a <= 512) {
            return Err(TranscodeError::AudioBitrate);
        }
        Ok(
            TranscodePreset {
                crf: c as u8,
                preset: named,
                max_width: w as u32,
                audio_bitrate_kbps: a as u32,
            },
        )
    }
}

/// A valid preset, stored with all its values and read back, is the same
/// preset.
pub proof fn lemma_stored_round_trip(p: TranscodePreset)
    requires
        p.valid(),
    ensures
        stored_preset(
            Some(p.crf as i64),
            Some(p.preset.name_spec()),
            Some(p.max_width as i64),
            Some(p.audio_bitrate_kbps as i64),
        ) == Ok::<TranscodePreset, TranscodeError>(p),
{
    lemma_preset_name_round_trip(p.preset);
}

/// The ffmpeg arguments of the re-encode: H.264 at the preset's quality and
/// speed, scaled down to at most `max_width` pixels wide, AAC audio at the
/// preset's bit rate.
pub open spec fn transcode_args_spec(
    input: Seq<char>,
    output: Seq<char>,
    p: TranscodePreset,
) -> Seq<Seq<char>> {
    seq![
        "-y"@,
        "-i"@,
        input,
        "-c:v"@,
        "libx264"@,
        "-crf"@,
        decimal(p.crf as nat),
        "-preset"@,
        p.preset.name_spec(),
        "-vf"@,
        "scale='min("@ + decimal(p.max_width as nat) + ",iw)':-2"@,
        "-c:a"@,
        "aac"@,
        "-b:a"@,
        decimal(p.audio_bitrate_kbps as nat) + "k"@,
        output,
    ]
}

pub fn transcode_args(input: &str, output: &str, preset: &TranscodePreset) -> (r: Vec<String>)
    ensures
        views(r@) == transcode_args_spec(input@, output@, *preset),
{
    let mut r: Vec<String> = Vec::new();
    r.push(owned("-y"));
    r.push(owned("-i"));
    r.push(owned(input));
    r.push(owned("-c:v"));
    r.push(owned("libx264"));
    r.push(owned("-crf"));
    r.push(decimal_string(preset.crf as u64));
    r.push(owned("-preset"));
    r.push(owned(preset.preset.name()));
    r.push(owned("-vf"));
    let mut scale = owned("scale='min(");
    push_decimal(&mut scale, preset.max_width as u64);
    push_str(&mut scale, ",iw)':-2");
    r.push(scale);
    r.push(owned("-c:a"));
    r.push(owned("aac"));
    r.push(owned("-b:a"));
    let mut rate = decimal_string(preset.audio_bitrate_kbps as u64);
    push_str(&mut rate, "k");
    r.push(rate);
    r.push(owned(output));
    assert(views(r@) =~= transcode_args_spec(input@, output@, *preset));
    r
}

} // verus!
