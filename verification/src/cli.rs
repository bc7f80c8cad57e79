//! The command-line frontend's logic: its arguments, how they resolve
//! against the configuration, and the report it prints.

use vstd::prelude::*;

use crate::config::{Config, Destination};
use crate::download::{
    DownloadEvent, DownloadFailure, DownloadSuccess, DownloadSummary, DownloadWarning,
    DownloadWarningKind, Duplicate, Format, PlaylistSelection, Quality,
};
use crate::platform::{detect_platform, platform_of, Platform};
use crate::text::{
    all_ws, chars_eq_str, chars_of, concat2, concat3, copy_string, decimal, is_blank_str, owned, push_decimal,
    push_str, slice_vec, str_eq, string_from_chars, trim, trim_str, views,
};

verus! {

broadcast use vstd::string::group_string_axioms;

#[derive(Debug, Clone, Copy, PartialEq, Eq, Structural)]
pub enum CliFormat {
    Audio,
    Video,
}

#[derive(Debug, Clone, Copy, PartialEq, Eq, Structural)]
pub enum CliQuality {
    Best,
    Compressed,
    P720,
    P1080,
    P1440,
    P2160,
}

impl Default for CliFormat {
    fn default() -> (r: CliFormat)
        ensures
            r == CliFormat::Video,
    {
        CliFormat::Video
    }
}

pub open spec fn format_of(f: CliFormat) -> Format {
    match f {
        CliFormat::Audio => Format::Audio,
        CliFormat::Video => Format::Video,
    }
}

pub open spec fn quality_of(q: CliQuality) -> Quality {
    match q {
        CliQuality::Best => Quality::Best,
        CliQuality::Compressed => Quality::Compressed,
        CliQuality::P720 => Quality::P720,
        CliQuality::P1080 => Quality::P1080,
        CliQuality::P1440 => Quality::P1440,
        CliQuality::P2160 => Quality::P2160,
    }
}

impl From<CliFormat> for Format {
    fn from(value: CliFormat) -> (r: Format) {
        match value {
            CliFormat::Audio => Format::Audio,
            CliFormat::Video => Format::Video,
        }
    }
}

impl vstd::std_specs::convert::FromSpecImpl<CliFormat> for Format {
    open spec fn obeys_from_spec() -> bool {
        true
    }

    open spec fn from_spec(v: CliFormat) -> Format {
        format_of(v)
    }
}

impl From<CliQuality> for Quality {
    fn from(value: CliQuality) -> (r: Quality) {
        match value {
            CliQuality::Best => Quality::Best,
            CliQuality::Compressed => Quality::Compressed,
            CliQuality::P720 => Quality::P720,
            CliQuality::P1080 => Quality::P1080,
            CliQuality::P1440 => Quality::P1440,
            CliQuality::P2160 => Quality::P2160,
        }
    }
}

impl vstd::std_specs::convert::FromSpecImpl<CliQuality> for Quality {
    open spec fn obeys_from_spec() -> bool {
        true
    }

    open spec fn from_spec(v: CliQuality) -> Quality {
        quality_of(v)
    }
}

/// The command line: URLs to fetch in order, the output format and
/// quality, the local output directory, and the switches.
#[derive(Debug, Clone)]
pub struct Cli {
    pub urls: Vec<String>,
    pub format: CliFormat,
    pub quality: Option<CliQuality>,
    pub output: String,
    pub playlist: bool,
    pub allow_generic: bool,
    pub config: Option<String>,
    pub no_config: bool,
    pub json: bool,
}

/// Why the command line was not accepted; `Help` and `Version` ask for the
/// program's usage text or version instead of a download.
#[derive(Debug, Clone, PartialEq, Eq)]
pub enum CliError {
    Help,
    Version,
    UnknownArgument(String),
    MissingValue(String),
    InvalidValue { option: String, value: String },
    RepeatedArgument(String),
    ConflictingConfig,
    MissingOutput,
    MissingUrl,
}

/// The usage text that `--help` prints.
pub open spec fn usage_text() -> Seq<char> {
    "Non-interactive multimedia downloads through dloor-core\n\nUsage: dloor-cli [OPTIONS] --output <DIR> <URL>...\n\nArguments:\n  <URL>...  One or more authorized media URLs to process in order\n\nOptions:\n      --format <FORMAT>    Output media format [default: video] [possible values: audio, video]\n      --quality <QUALITY>  Output quality. Defaults to default_quality from config.toml [possible values: best, compressed, 720p, 1080p, 1440p, 2160p]\n      --output <DIR>       Local directory where completed files are saved\n      --playlist           Expand and download every item in each playlist URL\n      --allow-generic      Permit valid URLs on hosts that dloor does not explicitly recognize\n      --config <FILE>      Read settings from this config.toml instead of dloor's standard path\n      --no-config          Ignore saved settings and use dloor's safe defaults\n      --json               Emit one machine-readable JSON document on stdout\n  -h, --help               Print help\n  -V, --version            Print version\n"@
}

/// The usage text.
pub fn usage() -> (r: &'static str)
    ensures
        r@ == usage_text(),
{
    "Non-interactive multimedia downloads through dloor-core\n\nUsage: dloor-cli [OPTIONS] --output <DIR> <URL>...\n\nArguments:\n  <URL>...  One or more authorized media URLs to process in order\n\nOptions:\n      --format <FORMAT>    Output media format [default: video] [possible values: audio, video]\n      --quality <QUALITY>  Output quality. Defaults to default_quality from config.toml [possible values: best, compressed, 720p, 1080p, 1440p, 2160p]\n      --output <DIR>       Local directory where completed files are saved\n      --playlist           Expand and download every item in each playlist URL\n      --allow-generic      Permit valid URLs on hosts that dloor does not explicitly recognize\n      --config <FILE>      Read settings from this config.toml instead of dloor's standard path\n      --no-config          Ignore saved settings and use dloor's safe defaults\n      --json               Emit one machine-readable JSON document on stdout\n  -h, --help               Print help\n  -V, --version            Print version\n"
}

impl CliError {
    /// `--help` and `--version` end the run successfully; a refused command
    /// line is a usage error.
    pub fn exit_code(&self) -> (r: u8)
        ensures
            r == if *self is Help || *self is Version {
                EXIT_SUCCESS
            } else {
                EXIT_USAGE
            },
    {
        match self {
            CliError::Help | CliError::Version => EXIT_SUCCESS,
            _ => EXIT_USAGE,
        }
    }

    pub open spec fn message_text(self, version: Seq<char>) -> Seq<char> {
        match self {
            CliError::Help => usage_text(),
            CliError::Version => "dloor-cli "@ + version,
            CliError::UnknownArgument(a) => "error: unexpected argument '"@ + a@ + "' found"@,
            CliError::MissingValue(o) => "error: a value is required for '"@ + o@
                + "' but none was supplied"@,
            CliError::InvalidValue { option, value } => "error: invalid value '"@ + value@
                + "' for '"@ + option@ + "'"@,
            CliError::RepeatedArgument(a) => "error: the argument '"@ + a@
                + "' cannot be used multiple times"@,
            CliError::ConflictingConfig =>
                "error: the argument '--config <FILE>' cannot be used with '--no-config'"@,
            CliError::MissingOutput =>
                "error: the following required arguments were not provided:\n  --output <DIR>"@,
            CliError::MissingUrl =>
                "error: the following required arguments were not provided:\n  <URL>..."@,
        }
    }

    /// What is printed for the command line: the usage text, the version
    /// line, or the reason it was refused.
    pub fn message(&self, version: &str) -> (r: String)
        ensures
            r@ == self.message_text(version@),
    {
        match self {
            CliError::Help => owned(usage()),
            CliError::Version => concat2("dloor-cli ", version),
            CliError::UnknownArgument(a) => concat3(
                "error: unexpected argument '",
                a.as_str(),
                "' found",
            ),
            CliError::MissingValue(o) => concat3(
                "error: a value is required for '",
                o.as_str(),
                "' but none was supplied",
            ),
            CliError::InvalidValue { option, value } => {
                let mut m = concat3("error: invalid value '", value.as_str(), "' for '");
                push_str(&mut m, option.as_str());
                push_str(&mut m, "'");
                m
            },
            CliError::RepeatedArgument(a) => concat3(
                "error: the argument '",
                a.as_str(),
                "' cannot be used multiple times",
            ),
            CliError::ConflictingConfig => owned(
                "error: the argument '--config <FILE>' cannot be used with '--no-config'",
            ),
            CliError::MissingOutput => owned(
                "error: the following required arguments were not provided:\n  --output <DIR>",
            ),
            CliError::MissingUrl => owned(
                "error: the following required arguments were not provided:\n  <URL>...",
            ),
        }
    }
}

/// `CliError` over views.
pub enum ParseFailure {
    Help,
    Version,
    Unknown(Seq<char>),
    MissingValue(Seq<char>),
    InvalidValue(Seq<char>, Seq<char>),
    Repeated(Seq<char>),
    Conflict,
    MissingOutput,
    MissingUrl,
}

pub open spec fn failure_view(e: CliError) -> ParseFailure {
    match e {
        CliError::Help => ParseFailure::Help,
        CliError::Version => ParseFailure::Version,
        CliError::UnknownArgument(a) => ParseFailure::Unknown(a@),
        CliError::MissingValue(a) => ParseFailure::MissingValue(a@),
        CliError::InvalidValue { option, value } => ParseFailure::InvalidValue(option@, value@),
        CliError::RepeatedArgument(a) => ParseFailure::Repeated(a@),
        CliError::ConflictingConfig => ParseFailure::Conflict,
        CliError::MissingOutput => ParseFailure::MissingOutput,
        CliError::MissingUrl => ParseFailure::MissingUrl,
    }
}

/// What has been read of the command line so far.
pub struct Scan {
    pub urls: Seq<Seq<char>>,
    pub format: Option<CliFormat>,
    pub quality: Option<CliQuality>,
    pub output: Option<Seq<char>>,
    pub playlist: bool,
    pub allow_generic: bool,
    pub config: Option<Seq<char>>,
    pub no_config: bool,
    pub json: bool,
    pub positional_only: bool,
}

pub open spec fn empty_scan() -> Scan {
    Scan {
        urls: Seq::empty(),
        format: None,
        quality: None,
        output: None,
        playlist: false,
        allow_generic: false,
        config: None,
        no_config: false,
        json: false,
        positional_only: false,
    }
}

pub open spec fn format_named(v: Seq<char>) -> Option<CliFormat> {
    if v == "audio"@ {
        Some(CliFormat::Audio)
    } else if v == "video"@ {
        Some(CliFormat::Video)
    } else {
        None
    }
}

pub open spec fn quality_named(v: Seq<char>) -> Option<CliQuality> {
    if v == "best"@ {
        Some(CliQuality::Best)
    } else if v == "compressed"@ {
        Some(CliQuality::Compressed)
    } else if v == "720p"@ {
        Some(CliQuality::P720)
    } else if v == "1080p"@ {
        Some(CliQuality::P1080)
    } else if v == "1440p"@ {
        Some(CliQuality::P1440)
    } else if v == "2160p"@ {
        Some(CliQuality::P2160)
    } else {
        None
    }
}

/// A token that can stand as an option's value: anything but another
/// option.
pub open spec fn value_like(t: Seq<char>) -> bool {
    !(t.len() > 1 && t[0] == '-')
}

/// A token that is a URL: after `--`, or anything that does not start
/// with `-` (a lone `-` included).
pub open spec fn positional(st: Scan, t: Seq<char>) -> bool {
    st.positional_only || t.len() == 0 || t[0] != '-' || t == "-"@
}

pub open spec fn is_flag_name(name: Seq<char>) -> bool {
    name == "playlist"@ || name == "allow-generic"@ || name == "no-config"@ || name == "json"@
}

pub open spec fn is_valued_name(name: Seq<char>) -> bool {
    name == "output"@ || name == "format"@ || name == "quality"@ || name == "config"@
}

pub open spec fn flag_set(st: Scan, name: Seq<char>) -> bool {
    if name == "playlist"@ {
        st.playlist
    } else if name == "allow-generic"@ {
        st.allow_generic
    } else if name == "no-config"@ {
        st.no_config
    } else {
        st.json
    }
}

pub open spec fn with_flag(st: Scan, name: Seq<char>) -> Scan {
    if name == "playlist"@ {
        Scan { playlist: true, ..st }
    } else if name == "allow-generic"@ {
        Scan { allow_generic: true, ..st }
    } else if name == "no-config"@ {
        Scan { no_config: true, ..st }
    } else {
        Scan { json: true, ..st }
    }
}

pub open spec fn value_set(st: Scan, name: Seq<char>) -> bool {
    if name == "output"@ {
        st.output is Some
    } else if name == "format"@ {
        st.format is Some
    } else if name == "quality"@ {
        st.quality is Some
    } else {
        st.config is Some
    }
}

/// Stores an option's value; `None` where the value is not one of the
/// option's choices.
pub open spec fn with_value(st: Scan, name: Seq<char>, v: Seq<char>) -> Option<Scan> {
    if name == "output"@ {
        Some(Scan { output: Some(v), ..st })
    } else if name == "format"@ {
        match format_named(v) {
            Some(f) => Some(Scan { format: Some(f), ..st }),
            None => None,
        }
    } else if name == "quality"@ {
        match quality_named(v) {
            Some(q) => Some(Scan { quality: Some(q), ..st }),
            None => None,
        }
    } else {
        Some(Scan { config: Some(v), ..st })
    }
}

/// The long option of a `--name` or `--name=value` token.
pub open spec fn option_name(t: Seq<char>) -> Seq<char> {
    let body = t.subrange(2, t.len() as int);
    body.subrange(0, crate::text::index_where(body, crate::text::is_char('=')) as int)
}

/// The value written into a `--name=value` token.
pub open spec fn inline_value(t: Seq<char>) -> Option<Seq<char>> {
    let body = t.subrange(2, t.len() as int);
    let eq = crate::text::index_where(body, crate::text::is_char('='));
    if eq < body.len() {
        Some(body.subrange(eq as int + 1, body.len() as int))
    } else {
        None
    }
}

/// Reads the tokens from `i` on.
pub open spec fn scan(tokens: Seq<Seq<char>>, i: int, st: Scan) -> Result<Scan, ParseFailure>
    decreases tokens.len() - i,
{
    if i < 0 || i >= tokens.len() {
        Ok(st)
    } else {
        let t = tokens[i];
        if positional(st, t) {
            scan(tokens, i + 1, Scan { urls: st.urls.push(t), ..st })
        } else if t == "--"@ {
            scan(tokens, i + 1, Scan { positional_only: true, ..st })
        } else if t == "-h"@ {
            Err(ParseFailure::Help)
        } else if t == "-V"@ {
            Err(ParseFailure::Version)
        } else if t.len() >= 2 && t[1] == '-' {
            let name = option_name(t);
            if name == "help"@ {
                Err(ParseFailure::Help)
            } else if name == "version"@ {
                Err(ParseFailure::Version)
            } else if is_flag_name(name) {
                match inline_value(t) {
                    Some(v) => Err(ParseFailure::InvalidValue(name, v)),
                    None => if flag_set(st, name) {
                        Err(ParseFailure::Repeated(name))
                    } else {
                        scan(tokens, i + 1, with_flag(st, name))
                    },
                }
            } else if is_valued_name(name) {
                let (value, next) = match inline_value(t) {
                    Some(v) => (Some(v), i + 1),
                    None => if i + 1 < tokens.len() && value_like(tokens[i + 1]) {
                        (Some(tokens[i + 1]), i + 2)
                    } else {
                        (None, i + 1)
                    },
                };
                match value {
                    None => Err(ParseFailure::MissingValue(name)),
                    Some(v) => if value_set(st, name) {
                        Err(ParseFailure::Repeated(name))
                    } else {
                        match with_value(st, name, v) {
                            None => Err(ParseFailure::InvalidValue(name, v)),
                            Some(st2) => scan(tokens, next, st2),
                        }
                    },
                }
            } else {
                Err(ParseFailure::Unknown(t))
            }
        } else {
            Err(ParseFailure::Unknown(t))
        }
    }
}

/// What the command line `tokens` (the program's name first) gives.
pub open spec fn parse_spec(tokens: Seq<Seq<char>>) -> Result<Scan, ParseFailure> {
    match scan(tokens, 1, empty_scan()) {
        Err(e) => Err(e),
        Ok(st) => if st.config is Some && st.no_config {
            Err(ParseFailure::Conflict)
        } else if st.output is None {
            Err(ParseFailure::MissingOutput)
        } else if st.urls.len() == 0 {
            Err(ParseFailure::MissingUrl)
        } else {
            Ok(st)
        },
    }
}

pub open spec fn str_views(v: Seq<&str>) -> Seq<Seq<char>> {
    v.map_values(|s: &str| s@)
}

pub open spec fn opt_view(o: Option<String>) -> Option<Seq<char>> {
    match o {
        Some(s) => Some(s@),
        None => None,
    }
}

impl Cli {
    /// The command line as the scan read it; the format defaults to video.
    pub open spec fn read_from(&self, st: Scan) -> bool {
        &&& views(self.urls@) == st.urls
        &&& self.format == match st.format {
            Some(f) => f,
            None => CliFormat::Video,
        }
        &&& self.quality == st.quality
        &&& st.output == Some(self.output@)
        &&& self.playlist == st.playlist
        &&& self.allow_generic == st.allow_generic
        &&& opt_view(self.config) == st.config
        &&& self.no_config == st.no_config
        &&& self.json == st.json
    }
}

proof fn lemma_option_names()
    ensures
        "output"@ != "help"@,
        "format"@ != "help"@,
        "quality"@ != "help"@,
        "config"@ != "help"@,
        "playlist"@ != "help"@,
        "allow-generic"@ != "help"@,
        "no-config"@ != "help"@,
        "json"@ != "help"@,
        "output"@ != "version"@,
        "format"@ != "version"@,
        "quality"@ != "version"@,
        "config"@ != "version"@,
        "playlist"@ != "version"@,
        "allow-generic"@ != "version"@,
        "no-config"@ != "version"@,
        "json"@ != "version"@,
        "output"@ != "playlist"@,
        "format"@ != "playlist"@,
        "quality"@ != "playlist"@,
        "config"@ != "playlist"@,
        "output"@ != "allow-generic"@,
        "format"@ != "allow-generic"@,
        "quality"@ != "allow-generic"@,
        "config"@ != "allow-generic"@,
        "output"@ != "no-config"@,
        "format"@ != "no-config"@,
        "quality"@ != "no-config"@,
        "config"@ != "no-config"@,
        "output"@ != "json"@,
        "format"@ != "json"@,
        "quality"@ != "json"@,
        "config"@ != "json"@,
        "output"@ != "format"@,
        "output"@ != "quality"@,
        "output"@ != "config"@,
        "format"@ != "quality"@,
        "format"@ != "config"@,
        "quality"@ != "config"@,
        "playlist"@ != "allow-generic"@,
        "playlist"@ != "no-config"@,
        "playlist"@ != "json"@,
        "allow-generic"@ != "no-config"@,
        "allow-generic"@ != "json"@,
        "no-config"@ != "json"@,
{
    reveal_strlit("output");
    assert("output"@.len() == 6);
    assert("output"@[0] == 'o');
    reveal_strlit("format");
    assert("format"@.len() == 6);
    assert("format"@[0] == 'f');
    reveal_strlit("quality");
    assert("quality"@.len() == 7);
    assert("quality"@[0] == 'q');
    reveal_strlit("config");
    assert("config"@.len() == 6);
    assert("config"@[0] == 'c');
    reveal_strlit("playlist");
    assert("playlist"@.len() == 8);
    assert("playlist"@[0] == 'p');
    reveal_strlit("allow-generic");
    assert("allow-generic"@.len() == 13);
    assert("allow-generic"@[0] == 'a');
    reveal_strlit("no-config");
    assert("no-config"@.len() == 9);
    assert("no-config"@[0] == 'n');
    reveal_strlit("json");
    assert("json"@.len() == 4);
    assert("json"@[0] == 'j');
    reveal_strlit("help");
    assert("help"@.len() == 4);
    assert("help"@[0] == 'h');
    reveal_strlit("version");
    assert("version"@.len() == 7);
    assert("version"@[0] == 'v');
}

/// The long options, by name.
#[derive(Clone, Copy, PartialEq, Eq, Structural)]
enum LongOption {
    Output,
    Format,
    Quality,
    Config,
    Playlist,
    AllowGeneric,
    NoConfig,
    Json,
    Help,
    Version,
    Unknown,
}

spec fn long_option_named(name: Seq<char>) -> LongOption {
    if name == "output"@ {
        LongOption::Output
    } else if name == "format"@ {
        LongOption::Format
    } else if name == "quality"@ {
        LongOption::Quality
    } else if name == "config"@ {
        LongOption::Config
    } else if name == "playlist"@ {
        LongOption::Playlist
    } else if name == "allow-generic"@ {
        LongOption::AllowGeneric
    } else if name == "no-config"@ {
        LongOption::NoConfig
    } else if name == "json"@ {
        LongOption::Json
    } else if name == "help"@ {
        LongOption::Help
    } else if name == "version"@ {
        LongOption::Version
    } else {
        LongOption::Unknown
    }
}

fn classify_option(name: &[char]) -> (r: LongOption)
    ensures
        r == long_option_named(name@),
{
    if chars_eq_str(name, "output") {
        LongOption::Output
    } else if chars_eq_str(name, "format") {
        LongOption::Format
    } else if chars_eq_str(name, "quality") {
        LongOption::Quality
    } else if chars_eq_str(name, "config") {
        LongOption::Config
    } else if chars_eq_str(name, "playlist") {
        LongOption::Playlist
    } else if chars_eq_str(name, "allow-generic") {
        LongOption::AllowGeneric
    } else if chars_eq_str(name, "no-config") {
        LongOption::NoConfig
    } else if chars_eq_str(name, "json") {
        LongOption::Json
    } else if chars_eq_str(name, "help") {
        LongOption::Help
    } else if chars_eq_str(name, "version") {
        LongOption::Version
    } else {
        LongOption::Unknown
    }
}

fn format_from(v: &[char]) -> (r: Option<CliFormat>)
    ensures
        r == format_named(v@),
{
    if chars_eq_str(v, "audio") {
        Some(CliFormat::Audio)
    } else if chars_eq_str(v, "video") {
        Some(CliFormat::Video)
    } else {
        None
    }
}

fn quality_from(v: &[char]) -> (r: Option<CliQuality>)
    ensures
        r == quality_named(v@),
{
    if chars_eq_str(v, "best") {
        Some(CliQuality::Best)
    } else if chars_eq_str(v, "compressed") {
        Some(CliQuality::Compressed)
    } else if chars_eq_str(v, "720p") {
        Some(CliQuality::P720)
    } else if chars_eq_str(v, "1080p") {
        Some(CliQuality::P1080)
    } else if chars_eq_str(v, "1440p") {
        Some(CliQuality::P1440)
    } else if chars_eq_str(v, "2160p") {
        Some(CliQuality::P2160)
    } else {
        None
    }
}

/// What has been read so far, as values.
struct ScanState {
    urls: Vec<String>,
    format: Option<CliFormat>,
    quality: Option<CliQuality>,
    output: Option<String>,
    playlist: bool,
    allow_generic: bool,
    config: Option<String>,
    no_config: bool,
    json: bool,
    positional_only: bool,
}

impl ScanState {
    spec fn view_scan(&self) -> Scan {
        Scan {
            urls: views(self.urls@),
            format: self.format,
            quality: self.quality,
            output: opt_view(self.output),
            playlist: self.playlist,
            allow_generic: self.allow_generic,
            config: opt_view(self.config),
            no_config: self.no_config,
            json: self.json,
            positional_only: self.positional_only,
        }
    }
}

fn invalid_value(name: &[char], v: &[char]) -> (e: CliError)
    ensures
        failure_view(e) == ParseFailure::InvalidValue(name@, v@),
{
    CliError::InvalidValue { option: string_from_chars(name), value: string_from_chars(v) }
}

/// Reads the token at `i` into `st`: the index of the next token to read,
/// or why the command line is refused.
fn scan_step(args: &[&str], i: usize, st: &mut ScanState) -> (r: Result<usize, CliError>)
    requires
        1 <= i < args.len(),
    ensures
        match r {
            Ok(next) => {
                &&& i < next <= args.len()
                &&& scan(str_views(args@), i as int, old(st).view_scan()) == scan(
                    str_views(args@),
                    next as int,
                    final(st).view_scan(),
                )
            },
            Err(e) => scan(str_views(args@), i as int, old(st).view_scan()) == Err::<
                Scan,
                ParseFailure,
            >(failure_view(e)),
        },
{
    let ghost toks = str_views(args@);
    proof {
        reveal_strlit("-");
        reveal_strlit("--");
        reveal_strlit("-h");
        reveal_strlit("-V");
    }
    let t = chars_of(args[i]);
    assert(toks[i as int] == t@);
    if st.positional_only || t.len() <= 1 || t[0] != '-' {
        if t.len() == 1 && t[0] == '-' {
            assert(t@ =~= "-"@);
        }
        assert(positional(st.view_scan(), t@));
        let ghost before = st.view_scan();
        st.urls.push(owned(args[i]));
        assert(views(st.urls@) =~= before.urls.push(t@));
        return Ok(i + 1);
    }
    assert(!positional(st.view_scan(), t@));
    if chars_eq_str(t.as_slice(), "--") {
        st.positional_only = true;
        return Ok(i + 1);
    }
    if chars_eq_str(t.as_slice(), "-h") {
        return Err(CliError::Help);
    }
    if chars_eq_str(t.as_slice(), "-V") {
        return Err(CliError::Version);
    }
    if t[1] != '-' {
        return Err(CliError::UnknownArgument(owned(args[i])));
    }
    let eq = crate::text::index_of_char_from(t.as_slice(), '=', 2);
    proof {
        crate::text::lemma_index_where(t@.subrange(2, t@.len() as int), crate::text::is_char('='));
    }
    let name = slice_vec(t.as_slice(), 2, eq);
    let inline: Option<Vec<char>> = if eq < t.len() {
        Some(slice_vec(t.as_slice(), eq + 1, t.len()))
    } else {
        None
    };
    proof {
        let body = t@.subrange(2, t@.len() as int);
        assert(name@ =~= body.subrange(0, eq - 2));
        assert(name@ == option_name(t@));
        if eq < t.len() {
            assert(inline->0@ =~= body.subrange(eq - 2 + 1, body.len() as int));
            assert(inline_value(t@) == Some(inline->0@));
        } else {
            assert(inline_value(t@) is None);
        }
        lemma_option_names();
    }
    let which = classify_option(name.as_slice());
    match which {
        LongOption::Help => Err(CliError::Help),
        LongOption::Version => Err(CliError::Version),
        LongOption::Unknown => Err(CliError::UnknownArgument(owned(args[i]))),
        LongOption::Playlist | LongOption::AllowGeneric | LongOption::NoConfig | LongOption::Json => {
            if let Some(v) = inline {
                return Err(invalid_value(name.as_slice(), v.as_slice()));
            }
            let already = match which {
                LongOption::Playlist => st.playlist,
                LongOption::AllowGeneric => st.allow_generic,
                LongOption::NoConfig => st.no_config,
                _ => st.json,
            };
            if already {
                return Err(CliError::RepeatedArgument(string_from_chars(name.as_slice())));
            }
            match which {
                LongOption::Playlist => st.playlist = true,
                LongOption::AllowGeneric => st.allow_generic = true,
                LongOption::NoConfig => st.no_config = true,
                _ => st.json = true,
            }
            Ok(i + 1)
        },
        _ => {
            let (value, next): (Vec<char>, usize) = match inline {
                Some(v) => (v, i + 1),
                None => {
                    if args.len() - i > 1 {
                        let n = chars_of(args[i + 1]);
                        assert(toks[i + 1] == n@);
                        if !(n.len() > 1 && n[0] == '-') {
                            (n, i + 2)
                        } else {
                            return Err(CliError::MissingValue(string_from_chars(name.as_slice())));
                        }
                    } else {
                        return Err(CliError::MissingValue(string_from_chars(name.as_slice())));
                    }
                },
            };
            let already = match which {
                LongOption::Output => st.output.is_some(),
                LongOption::Format => st.format.is_some(),
                LongOption::Quality => st.quality.is_some(),
                _ => st.config.is_some(),
            };
            if already {
                return Err(CliError::RepeatedArgument(string_from_chars(name.as_slice())));
            }
            match which {
                LongOption::Output => {
                    st.output = Some(string_from_chars(value.as_slice()));
                },
                LongOption::Format => {
                    match format_from(value.as_slice()) {
                        Some(f) => st.format = Some(f),
                        None => {
                            return Err(invalid_value(name.as_slice(), value.as_slice()));
                        },
                    }
                },
                LongOption::Quality => {
                    match quality_from(value.as_slice()) {
                        Some(q) => st.quality = Some(q),
                        None => {
                            return Err(invalid_value(name.as_slice(), value.as_slice()));
                        },
                    }
                },
                _ => {
                    st.config = Some(string_from_chars(value.as_slice()));
                },
            }
            Ok(next)
        },
    }
}

impl Cli {
    /// Reads a command line, the program's name first.
    pub fn try_parse_from(args: &[&str]) -> (r: Result<Cli, CliError>)
        ensures
            match parse_spec(str_views(args@)) {
                Ok(st) => r matches Ok(cli) && cli.read_from(st),
                Err(e) => r matches Err(err) && failure_view(err) == e,
            },
    {
        let ghost toks = str_views(args@);
        let mut st = ScanState {
            urls: Vec::new(),
            format: None,
            quality: None,
            output: None,
            playlist: false,
            allow_generic: false,
            config: None,
            no_config: false,
            json: false,
            positional_only: false,
        };
        assert(st.view_scan() == empty_scan()) by {
            assert(views(st.urls@) =~= Seq::<Seq<char>>::empty());
        }
        let mut i: usize = 1;
        while i < args.len()
            invariant
                1 <= i,
                i <= args.len() || i == 1,
                toks == str_views(args@),
                scan(toks, 1, empty_scan()) == scan(toks, i as int, st.view_scan()),
            decreases args.len() - i,
        {
            match scan_step(args, i, &mut st) {
                Ok(next) => {
                    i = next;
                },
                Err(e) => {
                    return Err(e);
                },
            }
        }
        assert(scan(toks, i as int, st.view_scan()) == Ok::<Scan, ParseFailure>(st.view_scan()));
        if st.config.is_some() && st.no_config {
            return Err(CliError::ConflictingConfig);
        }
        let output = match st.output {
            Some(o) => o,
            None => {
                return Err(CliError::MissingOutput);
            },
        };
        if st.urls.len() == 0 {
            return Err(CliError::MissingUrl);
        }
        Ok(
            Cli {
                urls: st.urls,
                format: match st.format {
                    Some(f) => f,
                    None => CliFormat::Video,
                },
                quality: st.quality,
                output,
                playlist: st.playlist,
                allow_generic: st.allow_generic,
                config: st.config,
                no_config: st.no_config,
                json: st.json,
            },
        )
    }
}

// ---------------------------------------------------------------------
// Validation against the configuration
// ---------------------------------------------------------------------

/// Why the arguments cannot be used. The messages name a URL by its
/// position, never by its text.
#[derive(Debug, Clone, Copy, PartialEq, Eq, Structural)]
pub enum ValidationError {
    InvalidUrl { position: usize },
    GenericUrlRequiresOptIn { position: usize },
    AudioResolution,
}

impl ValidationError {
    pub open spec fn message_text(self) -> Seq<char> {
        match self {
            ValidationError::InvalidUrl { position } => "URL "@ + decimal(position as nat)
                + " is not a valid HTTP or HTTPS URL"@,
            ValidationError::GenericUrlRequiresOptIn { position } => "URL "@ + decimal(
                position as nat,
            ) + " uses an unverified host; pass --allow-generic to proceed"@,
            ValidationError::AudioResolution =>
                "resolution quality values cannot be used with --format audio"@,
        }
    }

    /// The message shown for the error.
    pub fn to_string(&self) -> (r: String)
        ensures
            r@ == self.message_text(),
    {
        match self {
            ValidationError::InvalidUrl { position } => {
                let mut m = owned("URL ");
                push_decimal(&mut m, *position as u64);
                push_str(&mut m, " is not a valid HTTP or HTTPS URL");
                m
            },
            ValidationError::GenericUrlRequiresOptIn { position } => {
                let mut m = owned("URL ");
                push_decimal(&mut m, *position as u64);
                push_str(&mut m, " uses an unverified host; pass --allow-generic to proceed");
                m
            },
            ValidationError::AudioResolution => owned(
                "resolution quality values cannot be used with --format audio",
            ),
        }
    }
}

/// Where the settings come from.
#[derive(Debug, Clone, PartialEq, Eq)]
pub enum ConfigSource {
    /// The built-in defaults (`--no-config`).
    Defaults,
    /// The file given with `--config`.
    File(String),
    /// The standard configuration file, or the defaults where there is none.
    Standard,
}

/// Where the command line says to read the settings from.
pub fn config_source(cli: &Cli) -> (r: ConfigSource)
    ensures
        cli.no_config ==> r == ConfigSource::Defaults,
        !cli.no_config && cli.config is Some ==> (r matches ConfigSource::File(p) && p@
            == cli.config->0@),
        !cli.no_config && cli.config is None ==> r == ConfigSource::Standard,
{
    if cli.no_config {
        ConfigSource::Defaults
    } else {
        match &cli.config {
            Some(path) => ConfigSource::File(copy_string(path)),
            None => ConfigSource::Standard,
        }
    }
}

pub struct ResolvedOptions {
    pub config: Config,
    pub format: Format,
    pub quality: Quality,
    pub playlist: PlaylistSelection,
}

/// The quality a download uses: the one asked for, else the configured
/// one, except that audio falls back to the best quality where a
/// resolution is configured.
pub open spec fn resolved_quality(format: Format, asked: Option<CliQuality>, configured: Quality) -> Quality {
    match asked {
        Some(q) => quality_of(q),
        None => if format == Format::Audio && configured.height_spec() is Some {
            Quality::Best
        } else {
            configured
        },
    }
}

/// The options of a run: the command line over the configuration. The
/// output directory always replaces the configured destination.
pub fn resolve_options(cli: &Cli, config: Config) -> (r: Result<ResolvedOptions, ValidationError>)
    ensures
        (format_of(cli.format) == Format::Audio && cli.quality is Some && quality_of(
            cli.quality->0,
        ).height_spec() is Some) <==> r is Err,
        r matches Err(e) ==> e == ValidationError::AudioResolution,
        r matches Ok(o) ==> {
            &&& o.format == format_of(cli.format)
            &&& o.quality == resolved_quality(o.format, cli.quality, config.default_quality)
            &&& o.config.destination matches Destination::Local { path } && path@ == cli.output@
            &&& o.config.default_quality == config.default_quality
            &&& o.config.cookies == config.cookies
            &&& o.config.confirm_generic_urls == config.confirm_generic_urls
            &&& o.config.clipboard_autofill == config.clipboard_autofill
            &&& o.config.bandwidth_limit == config.bandwidth_limit
            &&& o.config.media == config.media
            &&& o.config.transcode == config.transcode
            &&& o.playlist == if cli.playlist {
                PlaylistSelection::All
            } else {
                PlaylistSelection::Single
            }
        },
{
    let format = Format::from(cli.format);
    let asked: Option<Quality> = match cli.quality {
        Some(q) => Some(Quality::from(q)),
        None => None,
    };
    if format == Format::Audio {
        match asked {
            Some(q) => {
                if q.height().is_some() {
                    return Err(ValidationError::AudioResolution);
                }
            },
            None => {},
        }
    }
    let quality = match asked {
        Some(q) => q,
        None => {
            if format == Format::Audio && config.default_quality.height().is_some() {
                Quality::Best
            } else {
                config.default_quality
            }
        },
    };
    let mut config = config;
    config.destination = Destination::Local { path: copy_string(&cli.output) };
    Ok(
        ResolvedOptions {
            config,
            format,
            quality,
            playlist: if cli.playlist {
                PlaylistSelection::All
            } else {
                PlaylistSelection::Single
            },
        },
    )
}

#[derive(Debug, Clone)]
pub struct ValidatedUrl {
    pub value: String,
    pub platform: Platform,
}

/// What a URL gives: its platform, or whether it is invalid (`false`) or
/// needs the opt-in for unverified hosts (`true`).
pub open spec fn url_check(raw: Seq<char>, allow_generic: bool) -> Result<Platform, bool> {
    match platform_of(trim(raw)) {
        None => Err(false),
        Some(p) => if p == Platform::Generic && !allow_generic {
            Err(true)
        } else {
            Ok(p)
        },
    }
}

pub open spec fn check_error(position: usize, generic: bool) -> ValidationError {
    if generic {
        ValidationError::GenericUrlRequiresOptIn { position }
    } else {
        ValidationError::InvalidUrl { position }
    }
}

/// Checks every URL in order; the first one that fails is reported by its
/// position, counted from 1.
pub fn validate_urls(urls: &Vec<String>, allow_generic: bool) -> (r: Result<
    Vec<ValidatedUrl>,
    ValidationError,
>)
    ensures
        match r {
            Ok(v) => {
                &&& v@.len() == urls@.len()
                &&& forall|i: int|
                    0 <= i < urls@.len() ==> {
                        &&& (#[trigger] v@[i]).value@ == trim(urls@[i]@)
                        &&& url_check(urls@[i]@, allow_generic) == Ok::<Platform, bool>(
                            v@[i].platform,
                        )
                    }
            },
            Err(e) => exists|k: int|
                #![trigger url_check(urls@[k]@, allow_generic)]
                {
                    &&& 0 <= k < urls@.len()
                    &&& forall|i: int|
                        0 <= i < k ==> (#[trigger] url_check(urls@[i]@, allow_generic)) is Ok
                    &&& url_check(urls@[k]@, allow_generic) matches Err(generic)
                    &&& e == check_error((k + 1) as usize, generic)
                },
        },
{
    let mut out: Vec<ValidatedUrl> = Vec::new();
    let mut i: usize = 0;
    while i < urls.len()
        invariant
            i <= urls.len(),
            out@.len() == i,
            forall|j: int|
                0 <= j < i ==> {
                    &&& (#[trigger] out@[j]).value@ == trim(urls@[j]@)
                    &&& url_check(urls@[j]@, allow_generic) == Ok::<Platform, bool>(out@[j].platform)
                },
        decreases urls.len() - i,
    {
        let value = trim_str(urls[i].as_str());
        match detect_platform(value.as_str()) {
            Err(_) => {
                proof {
                    assert forall|j: int| 0 <= j < i implies (#[trigger] url_check(
                        urls@[j]@,
                        allow_generic,
                    )) is Ok by {
                        assert(out@[j].value@ == trim(urls@[j]@));
                    }
                }
                assert(url_check(urls@[i as int]@, allow_generic) == Err::<Platform, bool>(false));
                return Err(ValidationError::InvalidUrl { position: i + 1 });
            },
            Ok(platform) => {
                if platform == Platform::Generic && !allow_generic {
                    proof {
                        assert forall|j: int| 0 <= j < i implies (#[trigger] url_check(
                            urls@[j]@,
                            allow_generic,
                        )) is Ok by {
                            assert(out@[j].value@ == trim(urls@[j]@));
                        }
                    }
                    assert(url_check(urls@[i as int]@, allow_generic) == Err::<Platform, bool>(true));
                    return Err(ValidationError::GenericUrlRequiresOptIn { position: i + 1 });
                }
                out.push(ValidatedUrl { value, platform });
            },
        }
        i = i + 1;
    }
    Ok(out)
}

/// Live progress is drawn only where both output streams are terminals and
/// the output is not JSON.
pub fn progress_enabled(stdout_is_terminal: bool, stderr_is_terminal: bool, json: bool) -> (r: bool)
    ensures
        r == (stdout_is_terminal && stderr_is_terminal && !json),
{
    stdout_is_terminal && stderr_is_terminal && !json
}

// ---------------------------------------------------------------------
// The report
// ---------------------------------------------------------------------

#[derive(Debug, Clone, Copy, PartialEq, Eq, Structural)]
pub enum UrlStatus {
    Succeeded,
    PartiallySucceeded,
    Failed,
    Cancelled,
}

/// The name of a warning kind in the JSON report.
pub open spec fn kind_name(kind: DownloadWarningKind) -> Seq<char> {
    match kind {
        DownloadWarningKind::SubtitleEmbedding => "subtitle_embedding"@,
        DownloadWarningKind::ThumbnailEmbedding => "thumbnail_embedding"@,
        DownloadWarningKind::ChapterEmbedding => "chapter_embedding"@,
        DownloadWarningKind::SubtitleSidecar => "subtitle_sidecar"@,
        DownloadWarningKind::OptionalPostProcessing => "optional_post_processing"@,
        DownloadWarningKind::ResolutionFallback => "resolution_fallback"@,
        DownloadWarningKind::CookieFallback => "cookie_fallback"@,
    }
}

pub fn warning_kind_name(kind: DownloadWarningKind) -> (r: &'static str)
    ensures
        r@ == kind_name(kind),
{
    match kind {
        DownloadWarningKind::SubtitleEmbedding => "subtitle_embedding",
        DownloadWarningKind::ThumbnailEmbedding => "thumbnail_embedding",
        DownloadWarningKind::ChapterEmbedding => "chapter_embedding",
        DownloadWarningKind::SubtitleSidecar => "subtitle_sidecar",
        DownloadWarningKind::OptionalPostProcessing => "optional_post_processing",
        DownloadWarningKind::ResolutionFallback => "resolution_fallback",
        DownloadWarningKind::CookieFallback => "cookie_fallback",
    }
}

#[derive(Debug, Clone)]
pub struct SuccessRecord {
    pub index: usize,
    pub playlist_index: Option<usize>,
    pub title: String,
    pub path: String,
}

#[derive(Debug, Clone)]
pub struct FailureRecord {
    pub index: usize,
    pub playlist_index: Option<usize>,
    pub title: String,
    pub error: String,
}

#[derive(Debug, Clone)]
pub struct WarningRecord {
    pub index: usize,
    pub playlist_index: Option<usize>,
    pub title: String,
    pub kind: &'static str,
    pub message: String,
}

pub open spec fn success_record(v: DownloadSuccess) -> SuccessRecord {
    SuccessRecord {
        index: v.item.index,
        playlist_index: v.item.playlist_index,
        title: v.item.title,
        path: v.path,
    }
}

pub open spec fn failure_record(v: DownloadFailure) -> FailureRecord {
    FailureRecord {
        index: v.item.index,
        playlist_index: v.item.playlist_index,
        title: v.item.title,
        error: v.error,
    }
}

/// The record of a warning; its kind is named as `warning_kind_name` names
/// it.
pub open spec fn warning_record(v: DownloadWarning, r: WarningRecord) -> bool {
    &&& r.index == v.item.index
    &&& r.playlist_index == v.item.playlist_index
    &&& r.title == v.item.title
    &&& r.kind@ == kind_name(v.kind)
    &&& r.message == v.message
}

impl From<DownloadSuccess> for SuccessRecord {
    fn from(value: DownloadSuccess) -> (r: SuccessRecord) {
        SuccessRecord {
            index: value.item.index,
            playlist_index: value.item.playlist_index,
            title: value.item.title,
            path: value.path,
        }
    }
}

impl vstd::std_specs::convert::FromSpecImpl<DownloadSuccess> for SuccessRecord {
    open spec fn obeys_from_spec() -> bool {
        true
    }

    open spec fn from_spec(v: DownloadSuccess) -> SuccessRecord {
        success_record(v)
    }
}

impl From<DownloadFailure> for FailureRecord {
    fn from(value: DownloadFailure) -> (r: FailureRecord) {
        FailureRecord {
            index: value.item.index,
            playlist_index: value.item.playlist_index,
            title: value.item.title,
            error: value.error,
        }
    }
}

impl vstd::std_specs::convert::FromSpecImpl<DownloadFailure> for FailureRecord {
    open spec fn obeys_from_spec() -> bool {
        true
    }

    open spec fn from_spec(v: DownloadFailure) -> FailureRecord {
        failure_record(v)
    }
}

impl WarningRecord {
    /// The record of a warning.
    pub fn from(value: DownloadWarning) -> (r: WarningRecord)
        ensures
            warning_record(value, r),
    {
        WarningRecord {
            index: value.item.index,
            playlist_index: value.item.playlist_index,
            title: value.item.title,
            kind: warning_kind_name(value.kind),
            message: value.message,
        }
    }
}

/// The outcome of one URL.
#[derive(Debug)]
pub struct UrlResult {
    pub url: String,
    pub status: UrlStatus,
    pub total: usize,
    pub succeeded: Vec<SuccessRecord>,
    pub failed: Vec<FailureRecord>,
    pub warnings: Vec<WarningRecord>,
    pub error: Option<String>,
}

/// The result of a URL whose download ended with `summary`: its status,
/// total, and one record for each success, failure and warning, in order.
pub open spec fn summary_result(r: UrlResult, url: Seq<char>, summary: DownloadSummary, cancelled: bool) -> bool {
    &&& r.url@ == url
    &&& r.status == url_status(summary, cancelled)
    &&& r.total == summary.total
    &&& r.succeeded@ == summary.succeeded@.map_values(|v: DownloadSuccess| success_record(v))
    &&& r.failed@ == summary.failed@.map_values(|v: DownloadFailure| failure_record(v))
    &&& r.warnings@.len() == summary.warnings@.len()
    &&& forall|i: int|
        0 <= i < summary.warnings@.len() ==> warning_record(
            summary.warnings@[i],
            #[trigger] r.warnings@[i],
        )
    &&& r.error is None
}

/// The result of a URL whose download failed as a whole with `error`: no
/// items, no records.
pub open spec fn failed_result(r: UrlResult, url: Seq<char>, error: Seq<char>) -> bool {
    &&& r.url@ == url
    &&& r.status == UrlStatus::Failed
    &&& r.total == 0
    &&& r.succeeded@.len() == 0
    &&& r.failed@.len() == 0
    &&& r.warnings@.len() == 0
    &&& r.error matches Some(e) && e@ == error
}

/// A URL succeeded where every item did; a cancelled run counts as
/// cancelled whatever it got done.
pub open spec fn url_status(summary: DownloadSummary, cancelled: bool) -> UrlStatus {
    if cancelled {
        UrlStatus::Cancelled
    } else if summary.succeeded@.len() > 0 && summary.failed@.len() == 0 {
        UrlStatus::Succeeded
    } else if summary.succeeded@.len() > 0 {
        UrlStatus::PartiallySucceeded
    } else {
        UrlStatus::Failed
    }
}

impl UrlResult {
    pub fn from_summary(url: String, summary: DownloadSummary, cancelled: bool) -> (r: UrlResult)
        ensures
            r.url == url,
            r.status == url_status(summary, cancelled),
            r.total == summary.total,
            r.succeeded@ == summary.succeeded@.map_values(|v: DownloadSuccess| success_record(v)),
            r.failed@ == summary.failed@.map_values(|v: DownloadFailure| failure_record(v)),
            r.warnings@.len() == summary.warnings@.len(),
            forall|i: int|
                0 <= i < summary.warnings@.len() ==> warning_record(
                    summary.warnings@[i],
                    #[trigger] r.warnings@[i],
                ),
            r.error is None,
    {
        let status = if cancelled {
            UrlStatus::Cancelled
        } else if summary.succeeded.len() > 0 && summary.failed.len() == 0 {
            UrlStatus::Succeeded
        } else if summary.succeeded.len() > 0 {
            UrlStatus::PartiallySucceeded
        } else {
            UrlStatus::Failed
        };
        let mut succeeded: Vec<SuccessRecord> = Vec::new();
        let mut i: usize = 0;
        while i < summary.succeeded.len()
            invariant
                i <= summary.succeeded.len(),
                succeeded@ == summary.succeeded@.subrange(0, i as int).map_values(
                    |v: DownloadSuccess| success_record(v),
                ),
            decreases summary.succeeded.len() - i,
        {
            succeeded.push(SuccessRecord::from(summary.succeeded[i].duplicate()));
            assert(succeeded@ =~= summary.succeeded@.subrange(0, i + 1).map_values(
                |v: DownloadSuccess| success_record(v),
            ));
            i = i + 1;
        }
        assert(summary.succeeded@.subrange(0, summary.succeeded.len() as int) =~= summary.succeeded@);
        let mut failed: Vec<FailureRecord> = Vec::new();
        let mut i: usize = 0;
        while i < summary.failed.len()
            invariant
                i <= summary.failed.len(),
                failed@ == summary.failed@.subrange(0, i as int).map_values(
                    |v: DownloadFailure| failure_record(v),
                ),
            decreases summary.failed.len() - i,
        {
            failed.push(FailureRecord::from(summary.failed[i].duplicate()));
            assert(failed@ =~= summary.failed@.subrange(0, i + 1).map_values(
                |v: DownloadFailure| failure_record(v),
            ));
            i = i + 1;
        }
        assert(summary.failed@.subrange(0, summary.failed.len() as int) =~= summary.failed@);
        let mut warnings: Vec<WarningRecord> = Vec::new();
        let mut i: usize = 0;
        while i < summary.warnings.len()
            invariant
                i <= summary.warnings.len(),
                warnings@.len() == i,
                forall|j: int|
                    0 <= j < i ==> warning_record(summary.warnings@[j], #[trigger] warnings@[j]),
            decreases summary.warnings.len() - i,
        {
            warnings.push(WarningRecord::from(summary.warnings[i].duplicate()));
            i = i + 1;
        }
        UrlResult {
            url,
            status,
            total: summary.total,
            succeeded,
            failed,
            warnings,
            error: None,
        }
    }

    /// The outcome of a URL whose download could not run.
    pub fn failed(url: String, error: String) -> (r: UrlResult)
        ensures
            r.url == url,
            r.status == UrlStatus::Failed,
            r.total == 0,
            r.succeeded@.len() == 0,
            r.failed@.len() == 0,
            r.warnings@.len() == 0,
            r.error == Some(error),
    {
        UrlResult {
            url,
            status: UrlStatus::Failed,
            total: 0,
            succeeded: Vec::new(),
            failed: Vec::new(),
            warnings: Vec::new(),
            error: Some(error),
        }
    }

    pub fn is_success(&self) -> (r: bool)
        ensures
            r == (self.status == UrlStatus::Succeeded),
    {
        self.status == UrlStatus::Succeeded
    }
}

#[derive(Debug, Clone, Copy, PartialEq, Eq, Structural)]
pub struct Totals {
    pub urls: usize,
    pub items: usize,
    pub succeeded: usize,
    pub failed: usize,
}

impl Default for Totals {
    fn default() -> (r: Totals)
        ensures
            r == (Totals { urls: 0, items: 0, succeeded: 0, failed: 0 }),
    {
        Totals { urls: 0, items: 0, succeeded: 0, failed: 0 }
    }
}

/// The JSON document of a run.
#[derive(Debug)]
pub struct JsonReport {
    pub schema_version: u8,
    pub success: bool,
    pub results: Vec<UrlResult>,
    pub totals: Totals,
    pub error: Option<String>,
}

pub open spec fn items_sum(r: Seq<UrlResult>) -> nat
    decreases r.len(),
{
    if r.len() == 0 {
        0
    } else {
        items_sum(r.drop_last()) + (r.last().total as nat)
    }
}

pub open spec fn succeeded_sum(r: Seq<UrlResult>) -> nat
    decreases r.len(),
{
    if r.len() == 0 {
        0
    } else {
        succeeded_sum(r.drop_last()) + r.last().succeeded@.len()
    }
}

pub open spec fn failed_sum(r: Seq<UrlResult>) -> nat
    decreases r.len(),
{
    if r.len() == 0 {
        0
    } else {
        failed_sum(r.drop_last()) + r.last().failed@.len()
    }
}

pub open spec fn all_succeeded(r: Seq<UrlResult>) -> bool {
    forall|i: int| 0 <= i < r.len() ==> (#[trigger] r[i]).status == UrlStatus::Succeeded
}

proof fn lemma_sums_grow(r: Seq<UrlResult>, i: int)
    requires
        0 <= i <= r.len(),
    ensures
        items_sum(r.subrange(0, i)) <= items_sum(r),
        succeeded_sum(r.subrange(0, i)) <= succeeded_sum(r),
        failed_sum(r.subrange(0, i)) <= failed_sum(r),
    decreases r.len() - i,
{
    if i < r.len() {
        lemma_sums_grow(r, i + 1);
        assert(r.subrange(0, i + 1).drop_last() =~= r.subrange(0, i));
    } else {
        assert(r.subrange(0, i) =~= r);
    }
}

impl JsonReport {
    /// The report of all URLs: the run succeeds when every URL did.
    pub fn from_results(results: Vec<UrlResult>) -> (r: JsonReport)
        requires
            items_sum(results@) <= usize::MAX,
            succeeded_sum(results@) <= usize::MAX,
            failed_sum(results@) <= usize::MAX,
        ensures
            r.schema_version == 1,
            r.success == all_succeeded(results@),
            r.results@ == results@,
            r.totals.urls == results@.len(),
            r.totals.items == items_sum(results@),
            r.totals.succeeded == succeeded_sum(results@),
            r.totals.failed == failed_sum(results@),
            r.error is None,
    {
        let mut items: usize = 0;
        let mut succeeded: usize = 0;
        let mut failed: usize = 0;
        let mut success = true;
        let mut i: usize = 0;
        while i < results.len()
            invariant
                i <= results.len(),
                items_sum(results@) <= usize::MAX,
                succeeded_sum(results@) <= usize::MAX,
                failed_sum(results@) <= usize::MAX,
                items == items_sum(results@.subrange(0, i as int)),
                succeeded == succeeded_sum(results@.subrange(0, i as int)),
                failed == failed_sum(results@.subrange(0, i as int)),
                success == all_succeeded(results@.subrange(0, i as int)),
            decreases results.len() - i,
        {
            proof {
                lemma_sums_grow(results@, i + 1);
                assert(results@.subrange(0, i + 1).drop_last() =~= results@.subrange(0, i as int));
            }
            items = items + results[i].total;
            succeeded = succeeded + results[i].succeeded.len();
            failed = failed + results[i].failed.len();
            success = success && results[i].is_success();
            proof {
                let sub = results@.subrange(0, i + 1);
                if success {
                    assert forall|j: int| 0 <= j < sub.len() implies (#[trigger] sub[j]).status
                        == UrlStatus::Succeeded by {
                        if j < i {
                            assert(results@.subrange(0, i as int)[j] == sub[j]);
                        }
                    }
                } else {
                    if !all_succeeded(results@.subrange(0, i as int)) {
                        let j = choose|j: int|
                            0 <= j < i && (#[trigger] results@.subrange(0, i as int)[j]).status
                                != UrlStatus::Succeeded;
                        assert(sub[j] == results@.subrange(0, i as int)[j]);
                    } else {
                        assert(sub[i as int].status != UrlStatus::Succeeded);
                    }
                }
            }
            i = i + 1;
        }
        assert(results@.subrange(0, results.len() as int) =~= results@);
        JsonReport {
            schema_version: 1,
            success,
            totals: Totals { urls: results.len(), items, succeeded, failed },
            results,
            error: None,
        }
    }

    /// The report of a run that could not start.
    pub fn fatal(error: String) -> (r: JsonReport)
        ensures
            r.schema_version == 1,
            !r.success,
            r.results@.len() == 0,
            r.totals == (Totals { urls: 0, items: 0, succeeded: 0, failed: 0 }),
            r.error == Some(error),
    {
        JsonReport {
            schema_version: 1,
            success: false,
            results: Vec::new(),
            totals: Totals::default(),
            error: Some(error),
        }
    }
}

// ---------------------------------------------------------------------
// Following one URL's download
// ---------------------------------------------------------------------

/// What is shown instead of a missing speed or time estimate.
pub open spec fn dash_text(value: Seq<char>) -> Seq<char> {
    if all_ws(value) || value == "NA"@ {
        "-"@
    } else {
        value
    }
}

pub fn display_or_dash(value: &str) -> (r: &str)
    ensures
        r@ == dash_text(value@),
{
    if is_blank_str(value) || str_eq(value, "NA") {
        "-"
    } else {
        value
    }
}

/// A text progress bar of `width` cells, the filled ones first; the
/// share filled is the percentage kept to 0..100, rounded half up.
pub open spec fn filled_cells(hundredths: nat, width: nat) -> nat {
    let h = if hundredths > 10000 {
        10000
    } else {
        hundredths
    };
    (h * width + 5000) / 10000
}

pub open spec fn bar_text(hundredths: nat, width: nat) -> Seq<char> {
    Seq::new(filled_cells(hundredths, width), |i: int| '█') + Seq::new(
        (width - filled_cells(hundredths, width)) as nat,
        |i: int| '░',
    )
}

pub fn text_progress_bar(hundredths: u32, width: usize) -> (r: String)
    ensures
        r@ == bar_text(hundredths as nat, width as nat),
{
    let h: u128 = if hundredths > 10000 {
        10000
    } else {
        hundredths as u128
    };
    assert(h * (width as u128) <= 10000 * 0xffff_ffff_ffff_ffffu128) by (nonlinear_arith)
        requires
            h <= 10000,
            width <= 0xffff_ffff_ffff_ffffu64,
    ;
    let filled_wide = (h * (width as u128) + 5000) / 10000;
    assert(filled_wide <= width) by (nonlinear_arith)
        requires
            h <= 10000,
            filled_wide == (h * (width as u128) + 5000) / 10000,
    ;
    let filled = filled_wide as usize;
    let mut r = String::new();
    let mut i: usize = 0;
    while i < width
        invariant
            i <= width,
            filled <= width,
            filled == filled_cells(hundredths as nat, width as nat),
            r@ == Seq::new(
                if i < filled {
                    i as nat
                } else {
                    filled as nat
                },
                |k: int| '█',
            ) + Seq::new(
                if i < filled {
                    0
                } else {
                    (i - filled) as nat
                },
                |k: int| '░',
            ),
        decreases width - i,
    {
        let ghost before = r@;
        if i < filled {
            r.push('█');
            assert(r@ =~= Seq::new((i + 1) as nat, |k: int| '█') + Seq::new(0, |k: int| '░'));
        } else {
            r.push('░');
            assert(r@ =~= Seq::new(filled as nat, |k: int| '█') + Seq::new(
                (i + 1 - filled) as nat,
                |k: int| '░',
            ));
        }
        i = i + 1;
    }
    r
}

/// A percentage in hundredths shown with one decimal, right-aligned in five
/// cells (`{:5.1}`), rounded half up.
pub open spec fn percent_cell(hundredths: nat) -> Seq<char> {
    let tenths = (hundredths + 5) / 10;
    let text = decimal(tenths / 10) + seq!['.'] + decimal(tenths % 10);
    if text.len() < 5 {
        Seq::new((5 - text.len()) as nat, |i: int| ' ') + text
    } else {
        text
    }
}

fn push_percent_cell(out: &mut String, hundredths: u32)
    ensures
        final(out)@ == old(out)@ + percent_cell(hundredths as nat),
{
    let tenths: u64 = (hundredths as u64 + 5) / 10;
    let mut text = String::new();
    push_decimal(&mut text, tenths / 10);
    text.push('.');
    push_decimal(&mut text, tenths % 10);
    let ghost t = decimal((tenths / 10) as nat) + seq!['.'] + decimal((tenths % 10) as nat);
    assert(text@ =~= t);
    let mut pad: usize = 0;
    let n = text.unicode_len();
    let ghost start = out@;
    if n < 5 {
        while pad < 5 - n
            invariant
                n < 5,
                pad <= 5 - n,
                out@ == start + Seq::new(pad as nat, |i: int| ' '),
            decreases 5 - n - pad,
        {
            out.push(' ');
            assert(out@ =~= start + Seq::new((pad + 1) as nat, |i: int| ' '));
            pad = pad + 1;
        }
    }
    let ghost padded = out@;
    push_str(out, text.as_str());
    assert(out@ =~= start + percent_cell(hundredths as nat));
}

/// The line that clears the live progress line.
pub open spec fn clear_text() -> Seq<char> {
    seq!['\r', '\u{1b}', '[', '2', 'K']
}

/// `URL i/n` and `item a/b` counters.
pub open spec fn counter(a: nat, b: nat) -> Seq<char> {
    decimal(a) + seq!['/'] + decimal(b)
}

pub open spec fn stage_text(url_index: nat, url_total: nat, stage: Seq<char>) -> Seq<char> {
    clear_text() + "[URL "@ + counter(url_index, url_total) + "] "@ + stage
}

pub open spec fn item_stage(verb: Seq<char>, item: crate::download::DownloadItem) -> Seq<char> {
    verb + " item "@ + counter(item.index as nat, item.total as nat)
}

pub open spec fn progress_text(
    url_index: nat,
    url_total: nat,
    p: crate::download::DownloadProgress,
    item: crate::download::DownloadItem,
) -> Seq<char> {
    clear_text() + seq!['['] + bar_text(p.overall_hundredths as nat, 24) + "] "@ + percent_cell(
        p.overall_hundredths as nat,
    ) + "% | URL "@ + counter(url_index, url_total) + " | item "@ + counter(
        item.index as nat,
        item.total as nat,
    ) + " "@ + percent_cell(p.item_hundredths as nat) + "% | "@ + dash_text(p.speed@)
        + " | ETA "@ + dash_text(p.eta@)
}

/// What the command line does with one event of a URL's download: text to
/// draw on the live line, whether to clear it first, a message line, and
/// the URL's result once the download has ended.
pub struct UrlStep {
    pub clear_line: bool,
    pub live: Option<String>,
    pub message: Option<String>,
    pub result: Option<UrlResult>,
}

fn push_counter(out: &mut String, a: usize, b: usize)
    ensures
        final(out)@ == old(out)@ + counter(a as nat, b as nat),
{
    let ghost start = out@;
    push_decimal(out, a as u64);
    out.push('/');
    push_decimal(out, b as u64);
    assert(out@ =~= start + counter(a as nat, b as nat));
}

fn clear_string() -> (r: String)
    ensures
        r@ == clear_text(),
{
    let mut r = String::new();
    r.push('\r');
    r.push('\u{1b}');
    r.push('[');
    r.push('2');
    r.push('K');
    assert(r@ =~= clear_text());
    r
}

fn stage_line(url_index: usize, url_total: usize, stage: &str) -> (r: String)
    ensures
        r@ == stage_text(url_index as nat, url_total as nat, stage@),
{
    let mut r = clear_string();
    push_str(&mut r, "[URL ");
    push_counter(&mut r, url_index, url_total);
    push_str(&mut r, "] ");
    push_str(&mut r, stage);
    r
}

fn item_stage_line(url_index: usize, url_total: usize, verb: &str, item: &crate::download::DownloadItem) -> (r: String)
    ensures
        r@ == stage_text(url_index as nat, url_total as nat, item_stage(verb@, *item)),
{
    let mut stage = owned(verb);
    push_str(&mut stage, " item ");
    push_counter(&mut stage, item.index, item.total);
    let r = stage_line(url_index, url_total, stage.as_str());
    assert(stage@ =~= item_stage(verb@, *item));
    r
}

fn progress_line(
    url_index: usize,
    url_total: usize,
    p: &crate::download::DownloadProgress,
    item: &crate::download::DownloadItem,
) -> (r: String)
    ensures
        r@ == progress_text(url_index as nat, url_total as nat, *p, *item),
{
    let mut r = clear_string();
    r.push('[');
    let bar = text_progress_bar(p.overall_hundredths, 24);
    push_str(&mut r, bar.as_str());
    push_str(&mut r, "] ");
    push_percent_cell(&mut r, p.overall_hundredths);
    push_str(&mut r, "% | URL ");
    push_counter(&mut r, url_index, url_total);
    push_str(&mut r, " | item ");
    push_counter(&mut r, item.index, item.total);
    push_str(&mut r, " ");
    push_percent_cell(&mut r, p.item_hundredths);
    push_str(&mut r, "% | ");
    push_str(&mut r, display_or_dash(p.speed.as_str()));
    push_str(&mut r, " | ETA ");
    push_str(&mut r, display_or_dash(p.eta.as_str()));
    r
}

/// The message of a failed or warned item.
pub open spec fn item_message(url_index: nat, item: crate::download::DownloadItem, what: Seq<char>, text: Seq<char>) -> Seq<char> {
    "dloor-cli: URL "@ + decimal(url_index) + ", item "@ + counter(item.index as nat, item.total as nat)
        + " "@ + what + ": "@ + text
}

pub open spec fn url_failure_message(url_index: nat, error: Seq<char>) -> Seq<char> {
    "dloor-cli: URL "@ + decimal(url_index) + " failed: "@ + error
}

fn item_message_line(url_index: usize, item: &crate::download::DownloadItem, what: &str, text: &str) -> (r: String)
    ensures
        r@ == item_message(url_index as nat, *item, what@, text@),
{
    let mut m = owned("dloor-cli: URL ");
    push_decimal(&mut m, url_index as u64);
    push_str(&mut m, ", item ");
    push_counter(&mut m, item.index, item.total);
    push_str(&mut m, " ");
    push_str(&mut m, what);
    push_str(&mut m, ": ");
    push_str(&mut m, text);
    m
}

fn url_failure_line(url_index: usize, error: &str) -> (r: String)
    ensures
        r@ == url_failure_message(url_index as nat, error@),
{
    let mut m = owned("dloor-cli: URL ");
    push_decimal(&mut m, url_index as u64);
    push_str(&mut m, " failed: ");
    push_str(&mut m, error);
    m
}

pub open spec fn opt_seq(o: Option<String>) -> Option<Seq<char>> {
    match o {
        Some(s) => Some(s@),
        None => None,
    }
}

/// The step for an event, as views: whether the line is cleared, the live
/// text, the message, and whether (and how) the URL ended.
pub open spec fn step_for(
    event: DownloadEvent,
    url_index: nat,
    url_total: nat,
    show: bool,
) -> (bool, Option<Seq<char>>, Option<Seq<char>>) {
    match event {
        DownloadEvent::Resolving => (false, if show {
            Some(stage_text(url_index, url_total, "resolving items"@))
        } else {
            None
        }, None),
        DownloadEvent::ItemStarted { item, .. } => (false, if show {
            Some(stage_text(url_index, url_total, item_stage("starting"@, item)))
        } else {
            None
        }, None),
        DownloadEvent::Progress { progress, item, .. } => (false, if show {
            Some(progress_text(url_index, url_total, progress, item))
        } else {
            None
        }, None),
        DownloadEvent::Converting { item } => (false, if show {
            Some(stage_text(url_index, url_total, item_stage("converting"@, item)))
        } else {
            None
        }, None),
        DownloadEvent::Uploading { item } => (false, if show {
            Some(stage_text(url_index, url_total, item_stage("uploading"@, item)))
        } else {
            None
        }, None),
        DownloadEvent::ItemFailed { failure } => (show, None, Some(
            item_message(url_index, failure.item, "failed"@, failure.error@),
        )),
        DownloadEvent::ItemWarning { warning } => (show, None, Some(
            item_message(url_index, warning.item, "warning"@, warning.message@),
        )),
        DownloadEvent::Finished { .. } => (show, None, None),
        DownloadEvent::Cancelled { .. } => (show, None, None),
        DownloadEvent::Failed { error } => (show, None, Some(url_failure_message(url_index, error@))),
        _ => (false, None, None),
    }
}

/// Decides what one event of a URL's download shows, and whether it ends
/// the URL: `Finished` and `Cancelled` give the summary's result, `Failed`
/// a failed result with the error.
pub fn url_event_step(
    event: DownloadEvent,
    url: &str,
    url_index: usize,
    url_total: usize,
    show_progress: bool,
) -> (r: UrlStep)
    ensures
        (r.clear_line, opt_seq(r.live), opt_seq(r.message)) == step_for(
            event,
            url_index as nat,
            url_total as nat,
            show_progress,
        ),
        match event {
            DownloadEvent::Finished { summary } => (r.result matches Some(u) && summary_result(
                u,
                url@,
                summary,
                false,
            )),
            DownloadEvent::Cancelled { summary } => (r.result matches Some(u) && summary_result(
                u,
                url@,
                summary,
                true,
            )),
            DownloadEvent::Failed { error } => (r.result matches Some(u) && failed_result(
                u,
                url@,
                error@,
            ) && u.error == Some(error)),
            _ => r.result is None,
        },
{
    let mut step = UrlStep { clear_line: false, live: None, message: None, result: None };
    match event {
        DownloadEvent::Resolving => {
            if show_progress {
                step.live = Some(stage_line(url_index, url_total, "resolving items"));
            }
        },
        DownloadEvent::ItemStarted { item, .. } => {
            if show_progress {
                step.live = Some(item_stage_line(url_index, url_total, "starting", &item));
            }
        },
        DownloadEvent::Progress { progress, item, .. } => {
            if show_progress {
                step.live = Some(progress_line(url_index, url_total, &progress, &item));
            }
        },
        DownloadEvent::Converting { item } => {
            if show_progress {
                step.live = Some(item_stage_line(url_index, url_total, "converting", &item));
            }
        },
        DownloadEvent::Uploading { item } => {
            if show_progress {
                step.live = Some(item_stage_line(url_index, url_total, "uploading", &item));
            }
        },
        DownloadEvent::ItemFailed { failure } => {
            step.clear_line = show_progress;
            step.message = Some(
                item_message_line(url_index, &failure.item, "failed", failure.error.as_str()),
            );
        },
        DownloadEvent::ItemWarning { warning } => {
            step.clear_line = show_progress;
            step.message = Some(
                item_message_line(url_index, &warning.item, "warning", warning.message.as_str()),
            );
        },
        DownloadEvent::Finished { summary } => {
            step.clear_line = show_progress;
            step.result = Some(UrlResult::from_summary(owned(url), summary, false));
        },
        DownloadEvent::Cancelled { summary } => {
            step.clear_line = show_progress;
            step.result = Some(UrlResult::from_summary(owned(url), summary, true));
        },
        DownloadEvent::Failed { error } => {
            step.clear_line = show_progress;
            step.message = Some(url_failure_line(url_index, error.as_str()));
            step.result = Some(UrlResult::failed(owned(url), error));
        },
        _ => {},
    }
    step
}

/// The outcome of a URL whose events stopped before it ended.
pub fn stream_closed_step(url: &str, url_index: usize, show_progress: bool) -> (r: UrlStep)
    ensures
        r.clear_line == show_progress,
        r.live is None,
        opt_seq(r.message) == Some(url_failure_message(
            url_index as nat,
            "download event stream closed before a terminal result"@,
        )),
        (r.result matches Some(u) && failed_result(
            u,
            url@,
            "download event stream closed before a terminal result"@,
        )),
{
    let error = owned("download event stream closed before a terminal result");
    let message = url_failure_line(url_index, error.as_str());
    UrlStep {
        clear_line: show_progress,
        live: None,
        message: Some(message),
        result: Some(UrlResult::failed(owned(url), error)),
    }
}

pub const EXIT_SUCCESS: u8 = 0;

pub const EXIT_FAILURE: u8 = 1;

pub const EXIT_USAGE: u8 = 2;

pub const EXIT_INTERRUPTED: u8 = 130;

/// The exit status of a run: interrupted, else success only where every
/// URL succeeded.
pub fn exit_status(interrupted: bool, success: bool) -> (r: u8)
    ensures
        r == if interrupted {
            EXIT_INTERRUPTED
        } else if success {
            EXIT_SUCCESS
        } else {
            EXIT_FAILURE
        },
{
    if interrupted {
        EXIT_INTERRUPTED
    } else if success {
        EXIT_SUCCESS
    } else {
        EXIT_FAILURE
    }
}

} // verus!
