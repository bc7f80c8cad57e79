//! Persistent settings and the yt-dlp arguments that follow from them.

use vstd::prelude::*;

use crate::download::Quality;
use crate::error::Error;
use crate::transcode::TranscodePreset;
use crate::text::{
    all_digits, chars_of, concat2, count_char, concat3, contains_str, lower, lower_vec, owned, push_str,
    replace_all, replace_vec, seq_contains, string_from_chars, trim, trim_vec, views,
    lemma_replace_all_removes,
};

verus! {

broadcast use vstd::string::group_string_axioms;

#[derive(Debug, Clone)]
pub enum Destination {
    Local { path: String },
    Cloud { remote: String, path: String },
}

impl Destination {
    /// The same kind of destination with the same texts.
    pub open spec fn same_as(&self, other: &Destination) -> bool {
        match (*self, *other) {
            (Destination::Local { path: a }, Destination::Local { path: b }) => a@ == b@,
            (
                Destination::Cloud { remote: r1, path: p1 },
                Destination::Cloud { remote: r2, path: p2 },
            ) => r1@ == r2@ && p1@ == p2@,
            _ => false,
        }
    }
}

impl PartialEq for Destination {
    fn eq(&self, other: &Destination) -> (r: bool) {
        match self {
            Destination::Local { path: a } => match other {
                Destination::Local { path: b } => crate::text::str_eq(a.as_str(), b.as_str()),
                _ => false,
            },
            Destination::Cloud { remote: r1, path: p1 } => match other {
                Destination::Cloud { remote: r2, path: p2 } => crate::text::str_eq(
                    r1.as_str(),
                    r2.as_str(),
                ) && crate::text::str_eq(p1.as_str(), p2.as_str()),
                _ => false,
            },
        }
    }
}

impl vstd::std_specs::cmp::PartialEqSpecImpl for Destination {
    open spec fn obeys_eq_spec() -> bool {
        true
    }

    open spec fn eq_spec(&self, other: &Destination) -> bool {
        self.same_as(other)
    }
}

#[derive(Debug, Clone, Copy, PartialEq, Eq, Structural)]
pub enum Browser {
    Chrome,
    Firefox,
    Safari,
    Edge,
    Brave,
    Chromium,
    Vivaldi,
    Opera,
}

impl Browser {
    /// Every supported browser, in the order the settings screen offers them.
    pub const ALL: [Browser; 8] = [
        Browser::Chrome,
        Browser::Firefox,
        Browser::Safari,
        Browser::Edge,
        Browser::Brave,
        Browser::Chromium,
        Browser::Vivaldi,
        Browser::Opera,
    ];

    pub open spec fn label_text(self) -> Seq<char> {
        match self {
            Browser::Chrome => "Chrome"@,
            Browser::Firefox => "Firefox"@,
            Browser::Safari => "Safari"@,
            Browser::Edge => "Edge"@,
            Browser::Brave => "Brave"@,
            Browser::Chromium => "Chromium"@,
            Browser::Vivaldi => "Vivaldi"@,
            Browser::Opera => "Opera"@,
        }
    }

    pub open spec fn yt_dlp_name_text(self) -> Seq<char> {
        match self {
            Browser::Chrome => "chrome"@,
            Browser::Firefox => "firefox"@,
            Browser::Safari => "safari"@,
            Browser::Edge => "edge"@,
            Browser::Brave => "brave"@,
            Browser::Chromium => "chromium"@,
            Browser::Vivaldi => "vivaldi"@,
            Browser::Opera => "opera"@,
        }
    }

    pub open spec fn all_spec() -> Seq<Browser> {
        seq![
            Browser::Chrome,
            Browser::Firefox,
            Browser::Safari,
            Browser::Edge,
            Browser::Brave,
            Browser::Chromium,
            Browser::Vivaldi,
            Browser::Opera,
        ]
    }

    proof fn lemma_lower_chrome()
        ensures
            lower("Chrome"@) == "chrome"@,
    {
        reveal_strlit("Chrome");
        reveal_strlit("chrome");
        assert(lower("Chrome"@) =~= "chrome"@);
    }
    proof fn lemma_lower_firefox()
        ensures
            lower("Firefox"@) == "firefox"@,
    {
        reveal_strlit("Firefox");
        reveal_strlit("firefox");
        assert(lower("Firefox"@) =~= "firefox"@);
    }
    proof fn lemma_lower_safari()
        ensures
            lower("Safari"@) == "safari"@,
    {
        reveal_strlit("Safari");
        reveal_strlit("safari");
        assert(lower("Safari"@) =~= "safari"@);
    }
    proof fn lemma_lower_edge()
        ensures
            lower("Edge"@) == "edge"@,
    {
        reveal_strlit("Edge");
        reveal_strlit("edge");
        assert(lower("Edge"@) =~= "edge"@);
    }
    proof fn lemma_lower_brave()
        ensures
            lower("Brave"@) == "brave"@,
    {
        reveal_strlit("Brave");
        reveal_strlit("brave");
        assert(lower("Brave"@) =~= "brave"@);
    }
    proof fn lemma_lower_chromium()
        ensures
            lower("Chromium"@) == "chromium"@,
    {
        reveal_strlit("Chromium");
        reveal_strlit("chromium");
        assert(lower("Chromium"@) =~= "chromium"@);
    }
    proof fn lemma_lower_vivaldi()
        ensures
            lower("Vivaldi"@) == "vivaldi"@,
    {
        reveal_strlit("Vivaldi");
        reveal_strlit("vivaldi");
        assert(lower("Vivaldi"@) =~= "vivaldi"@);
    }
    proof fn lemma_lower_opera()
        ensures
            lower("Opera"@) == "opera"@,
    {
        reveal_strlit("Opera");
        reveal_strlit("opera");
        assert(lower("Opera"@) =~= "opera"@);
    }

    proof fn lemma_name_literals()
        ensures
            "chrome"@ != "safari"@,
            "firefox"@ != "vivaldi"@,
            "brave"@ != "opera"@,
            "chrome"@.len() == 6,
            "firefox"@.len() == 7,
            "safari"@.len() == 6,
            "edge"@.len() == 4,
            "brave"@.len() == 5,
            "chromium"@.len() == 8,
            "vivaldi"@.len() == 7,
            "opera"@.len() == 5,
    {
        reveal_strlit("chrome");
        reveal_strlit("firefox");
        reveal_strlit("safari");
        reveal_strlit("edge");
        reveal_strlit("brave");
        reveal_strlit("chromium");
        reveal_strlit("vivaldi");
        reveal_strlit("opera");
        assert("chrome"@[0] != "safari"@[0]);
        assert("firefox"@[0] != "vivaldi"@[0]);
        assert("brave"@[0] != "opera"@[0]);
    }

    /// A browser's yt-dlp name is its label in lower case, and no two
    /// browsers share a name.
    pub proof fn lemma_name_is_lower_label(b: Browser, other: Browser)
        ensures
            lower(b.label_text()) == b.yt_dlp_name_text(),
            b != other ==> b.yt_dlp_name_text() != other.yt_dlp_name_text(),
    {
        Browser::lemma_lower_chrome();
        Browser::lemma_lower_firefox();
        Browser::lemma_lower_safari();
        Browser::lemma_lower_edge();
        Browser::lemma_lower_brave();
        Browser::lemma_lower_chromium();
        Browser::lemma_lower_vivaldi();
        Browser::lemma_lower_opera();
        Browser::lemma_name_literals();
    }

    /// The browser at `index` of `ALL`.
    pub fn at(index: usize) -> (b: Browser)
        requires
            index < 8,
        ensures
            b == Browser::all_spec()[index as int],
    {
        match index {
            0 => Browser::Chrome,
            1 => Browser::Firefox,
            2 => Browser::Safari,
            3 => Browser::Edge,
            4 => Browser::Brave,
            5 => Browser::Chromium,
            6 => Browser::Vivaldi,
            _ => Browser::Opera,
        }
    }

    /// The position of the browser in `ALL`.
    pub fn position(self) -> (i: usize)
        ensures
            i < 8,
            Browser::all_spec()[i as int] == self,
    {
        match self {
            Browser::Chrome => 0,
            Browser::Firefox => 1,
            Browser::Safari => 2,
            Browser::Edge => 3,
            Browser::Brave => 4,
            Browser::Chromium => 5,
            Browser::Vivaldi => 6,
            Browser::Opera => 7,
        }
    }

    pub fn label(self) -> (r: &'static str)
        ensures
            r@ == self.label_text(),
    {
        match self {
            Browser::Chrome => "Chrome",
            Browser::Firefox => "Firefox",
            Browser::Safari => "Safari",
            Browser::Edge => "Edge",
            Browser::Brave => "Brave",
            Browser::Chromium => "Chromium",
            Browser::Vivaldi => "Vivaldi",
            Browser::Opera => "Opera",
        }
    }

    /// The browser's name as yt-dlp's `--cookies-from-browser` takes it.
    pub fn yt_dlp_name(self) -> (r: &'static str)
        ensures
            r@ == self.yt_dlp_name_text(),
    {
        match self {
            Browser::Chrome => "chrome",
            Browser::Firefox => "firefox",
            Browser::Safari => "safari",
            Browser::Edge => "edge",
            Browser::Brave => "brave",
            Browser::Chromium => "chromium",
            Browser::Vivaldi => "vivaldi",
            Browser::Opera => "opera",
        }
    }
}

/// Where yt-dlp reads login cookies from.
#[derive(Debug, Clone)]
pub enum CookieSource {
    Disabled,
    Browser { browser: Browser },
    File { path: String },
}

impl CookieSource {
    pub open spec fn args_spec(self) -> Seq<Seq<char>> {
        match self {
            CookieSource::Disabled => Seq::empty(),
            CookieSource::Browser { browser } => seq![
                "--cookies-from-browser"@,
                browser.yt_dlp_name_text(),
            ],
            CookieSource::File { path } => seq!["--cookies"@, path@],
        }
    }

    pub open spec fn label_spec(self) -> Seq<char> {
        match self {
            CookieSource::Disabled => "public content only"@,
            CookieSource::Browser { browser } => browser.label_text() + " browser session"@,
            CookieSource::File { .. } => "cookie file"@,
        }
    }

    /// The yt-dlp arguments that apply the cookie source.
    pub fn yt_dlp_args(&self) -> (r: Vec<String>)
        ensures
            views(r@) == self.args_spec(),
    {
        let mut r: Vec<String> = Vec::new();
        match self {
            CookieSource::Disabled => {},
            CookieSource::Browser { browser } => {
                r.push(owned("--cookies-from-browser"));
                r.push(owned(browser.yt_dlp_name()));
            },
            CookieSource::File { path } => {
                r.push(owned("--cookies"));
                r.push(path.clone());
            },
        }
        assert(views(r@) =~= self.args_spec());
        r
    }

    /// A short description for the settings and status lines.
    pub fn label(&self) -> (r: String)
        ensures
            r@ == self.label_spec(),
    {
        match self {
            CookieSource::Disabled => owned("public content only"),
            CookieSource::Browser { browser } => concat2(browser.label(), " browser session"),
            CookieSource::File { .. } => owned("cookie file"),
        }
    }

    pub fn duplicate(&self) -> (r: CookieSource)
        ensures
            r == *self,
    {
        match self {
            CookieSource::Disabled => CookieSource::Disabled,
            CookieSource::Browser { browser } => CookieSource::Browser { browser: *browser },
            CookieSource::File { path } => CookieSource::File { path: path.clone() },
        }
    }
}

/// Optional media post-processing.
#[derive(Debug, Clone)]
pub struct MediaOptions {
    pub write_subtitles: bool,
    pub embed_subtitles: bool,
    pub subtitle_languages: Vec<String>,
    pub include_auto_subtitles: bool,
    pub embed_thumbnail: bool,
    pub embed_chapters: bool,
}

impl MediaOptions {
    pub open spec fn is_default(self) -> bool {
        &&& !self.write_subtitles
        &&& !self.embed_subtitles
        &&& self.subtitle_languages@.len() == 0
        &&& !self.include_auto_subtitles
        &&& !self.embed_thumbnail
        &&& !self.embed_chapters
    }
}

impl Default for MediaOptions {
    fn default() -> (r: MediaOptions)
        ensures
            r.is_default(),
    {
        MediaOptions {
            write_subtitles: false,
            embed_subtitles: false,
            subtitle_languages: Vec::new(),
            include_auto_subtitles: false,
            embed_thumbnail: false,
            embed_chapters: false,
        }
    }
}

// ---------------------------------------------------------------------
// Bandwidth limits
// ---------------------------------------------------------------------

pub open spec fn is_rate_suffix(c: char) -> bool {
    c == 'K' || c == 'M' || c == 'G' || c == 'k' || c == 'm' || c == 'g'
}

/// The number part of a rate: without its unit letter, if it has one.
pub open spec fn rate_body(s: Seq<char>) -> Seq<char> {
    if s.len() > 0 && is_rate_suffix(s.last()) {
        s.drop_last()
    } else {
        s
    }
}

pub open spec fn is_nonzero_digit(c: char) -> bool {
    '1' <= c && c <= '9'
}

pub open spec fn is_rate_char(c: char) -> bool {
    crate::text::is_ascii_digit(c) || c == '.'
}

/// A byte rate as yt-dlp's `--limit-rate` takes it: digits, an optional
/// fraction, an optional `K`, `M` or `G` (either case), and not zero.
pub open spec fn rate_ok(s: Seq<char>) -> bool {
    let body = rate_body(s);
    &&& body.len() > 0
    &&& forall|i: int| 0 <= i < body.len() ==> is_rate_char(#[trigger] body[i])
    &&& count_char(body, '.') <= 1
    &&& crate::text::is_ascii_digit(body[0])
    &&& crate::text::is_ascii_digit(body.last())
    &&& exists|i: int| 0 <= i < body.len() && is_nonzero_digit(#[trigger] body[i])
}

/// The message for a rate that is refused.
pub open spec fn bandwidth_error_text() -> Seq<char> {
    "invalid bandwidth limit: use a positive byte rate such as 50K, 4.2M or 1G"@
}

/// A validated `--limit-rate` value.
#[derive(Debug, Clone)]
pub struct BandwidthLimit {
    value: String,
}

impl View for BandwidthLimit {
    type V = Seq<char>;

    closed spec fn view(&self) -> Seq<char> {
        self.value@
    }
}

impl BandwidthLimit {
    /// Reads a rate; surrounding white space is ignored.
    pub fn parse(input: &str) -> (r: core::result::Result<BandwidthLimit, String>)
        ensures
            match r {
                Ok(limit) => rate_ok(trim(input@)) && limit@ == trim(input@),
                Err(m) => !rate_ok(trim(input@)) && m@ == bandwidth_error_text(),
            },
    {
        let raw = chars_of(input);
        let s = trim_vec(raw.as_slice());
        let n = s.len();
        let has_suffix = n > 0 && (s[n - 1] == 'K' || s[n - 1] == 'M' || s[n - 1] == 'G' || s[n
            - 1] == 'k' || s[n - 1] == 'm' || s[n - 1] == 'g');
        let end = if has_suffix {
            n - 1
        } else {
            n
        };
        let ghost body = rate_body(s@);
        assert(body =~= s@.subrange(0, end as int));
        let mut i: usize = 0;
        let mut dots: usize = 0;
        let mut nonzero = false;
        let mut ok = true;
        while i < end
            invariant
                end <= s.len(),
                i <= end,
                body == s@.subrange(0, end as int),
                dots <= i,
                ok ==> forall|k: int| 0 <= k < i ==> is_rate_char(#[trigger] body[k]),
                ok ==> dots == count_char(body.subrange(0, i as int), '.'),
                ok ==> (nonzero == exists|k: int| 0 <= k < i && is_nonzero_digit(#[trigger] body[k])),
                !ok ==> exists|k: int| 0 <= k < end && !is_rate_char(#[trigger] body[k]),
            decreases end - i,
        {
            let c = s[i];
            proof {
                assert(body[i as int] == c);
                assert(body.subrange(0, i + 1) =~= body.subrange(0, i as int).push(c));
                assert(body.subrange(0, i + 1).drop_last() =~= body.subrange(0, i as int));
            }
            if ok {
                if c == '.' {
                    dots = dots + 1;
                } else if '0' <= c && c <= '9' {
                    if c != '0' {
                        nonzero = true;
                    }
                } else {
                    ok = false;
                }
            }
            i = i + 1;
        }
        if ok && end > 0 && dots <= 1 && '0' <= s[0] && s[0] <= '9' && '0' <= s[end - 1] && s[end
            - 1] <= '9' && nonzero {
            assert(body.subrange(0, end as int) =~= body);
            assert(body[0] == s@[0]);
            assert(body.last() == s@[end - 1]);
            assert(rate_ok(s@));
            Ok(BandwidthLimit { value: string_from_chars(s.as_slice()) })
        } else {
            proof {
                assert(body.subrange(0, end as int) =~= body);
                if end > 0 {
                    assert(body[0] == s@[0]);
                    assert(body.last() == s@[end - 1]);
                }
            }
            Err(
                owned(
                    "invalid bandwidth limit: use a positive byte rate such as 50K, 4.2M or 1G",
                ),
            )
        }
    }

    pub fn as_str(&self) -> (r: &str)
        ensures
            r@ == self@,
    {
        self.value.as_str()
    }
}

// ---------------------------------------------------------------------
// The configuration
// ---------------------------------------------------------------------

#[derive(Debug, Clone)]
pub struct Config {
    pub destination: Destination,
    pub default_quality: Quality,
    pub cookies: CookieSource,
    pub confirm_generic_urls: bool,
    pub clipboard_autofill: bool,
    pub bandwidth_limit: Option<BandwidthLimit>,
    pub media: MediaOptions,
    pub transcode: TranscodePreset,
}

impl Default for Config {
    /// Local downloads into the user's download directory, best quality,
    /// no cookies, confirmation of unverified hosts and clipboard detection
    /// on, no bandwidth limit, no optional media processing, the standard
    /// transcode preset.
    fn default() -> (r: Config)
        ensures
            (r.destination matches Destination::Local { path } && path@.len() > 0),
            r.default_quality == Quality::Best,
            r.cookies == CookieSource::Disabled,
            r.confirm_generic_urls,
            r.clipboard_autofill,
            r.bandwidth_limit is None,
            r.media.is_default(),
            r.transcode.is_default(),
    {
        Config {
            destination: Destination::Local { path: default_download_dir() },
            default_quality: Quality::Best,
            cookies: CookieSource::Disabled,
            confirm_generic_urls: true,
            clipboard_autofill: true,
            bandwidth_limit: None,
            media: MediaOptions::default(),
            transcode: TranscodePreset::standard(),
        }
    }
}

impl Config {
    /// The configuration that a stored file describes. Fields that older
    /// files lack take their defaults; a file that names only a `browser`
    /// reads it as a browser cookie source.
    pub fn from_stored(
        destination: Destination,
        default_quality: Quality,
        cookies: Option<CookieSource>,
        browser: Option<Browser>,
        confirm_generic_urls: Option<bool>,
        clipboard_autofill: Option<bool>,
        bandwidth_limit: Option<BandwidthLimit>,
        media: Option<MediaOptions>,
        transcode: Option<TranscodePreset>,
    ) -> (r: Config)
        ensures
            r.destination == destination,
            r.default_quality == default_quality,
            r.cookies == match cookies {
                Some(c) => c,
                None => match browser {
                    Some(b) => CookieSource::Browser { browser: b },
                    None => CookieSource::Disabled,
                },
            },
            r.confirm_generic_urls == match confirm_generic_urls {
                Some(v) => v,
                None => true,
            },
            r.clipboard_autofill == match clipboard_autofill {
                Some(v) => v,
                None => true,
            },
            r.bandwidth_limit == bandwidth_limit,
            media is Some ==> r.media == media->0,
            media is None ==> r.media.is_default(),
            transcode is Some ==> r.transcode == transcode->0,
            transcode is None ==> r.transcode.is_default(),
    {
        let cookies = match cookies {
            Some(c) => c,
            None => match browser {
                Some(b) => CookieSource::Browser { browser: b },
                None => CookieSource::Disabled,
            },
        };
        Config {
            destination,
            default_quality,
            cookies,
            confirm_generic_urls: match confirm_generic_urls {
                Some(v) => v,
                None => true,
            },
            clipboard_autofill: match clipboard_autofill {
                Some(v) => v,
                None => true,
            },
            bandwidth_limit,
            media: match media {
                Some(m) => m,
                None => MediaOptions::default(),
            },
            transcode: match transcode {
                Some(t) => t,
                None => TranscodePreset::standard(),
            },
        }
    }

    /// The directory that holds `config.toml`, the log and the history.
    pub fn config_dir() -> (r: core::result::Result<String, Error>)
        ensures
            r is Err ==> r matches Err(Error::ConfigDirUnavailable),
    {
        match project_config_dir() {
            Some(dir) => Ok(dir),
            None => Err(Error::ConfigDirUnavailable),
        }
    }

    pub fn config_path() -> (r: core::result::Result<String, Error>)
        ensures
            r matches Ok(p) ==> exists|d: Seq<char>| p@ == path_join(d, "config.toml"@),
            r is Err ==> r matches Err(Error::ConfigDirUnavailable),
    {
        let dir = Config::config_dir()?;
        Ok(join_path(dir.as_str(), "config.toml"))
    }

    pub fn log_path() -> (r: core::result::Result<String, Error>)
        ensures
            r matches Ok(p) ==> exists|d: Seq<char>| p@ == path_join(d, "dloor.log"@),
            r is Err ==> r matches Err(Error::ConfigDirUnavailable),
    {
        let dir = Config::config_dir()?;
        Ok(join_path(dir.as_str(), "dloor.log"))
    }

    pub fn history_path() -> (r: core::result::Result<String, Error>)
        ensures
            r matches Ok(p) ==> exists|d: Seq<char>| p@ == path_join(d, "history.jsonl"@),
            r is Err ==> r matches Err(Error::ConfigDirUnavailable),
    {
        let dir = Config::config_dir()?;
        Ok(join_path(dir.as_str(), "history.jsonl"))
    }
}

/// The files dloor keeps beside each other in its configuration directory.
#[derive(Debug, Clone)]
pub struct ConfigFiles {
    pub config: String,
    pub log: String,
    pub history: String,
}

/// The three files in the directory `dir`.
pub open spec fn files_of(f: ConfigFiles, dir: Seq<char>) -> bool {
    &&& f.config@ == path_join(dir, "config.toml"@)
    &&& f.log@ == path_join(dir, "dloor.log"@)
    &&& f.history@ == path_join(dir, "history.jsonl"@)
}

impl ConfigFiles {
    /// The configuration, log and history files in `dir`.
    pub fn in_dir(dir: &str) -> (f: ConfigFiles)
        ensures
            files_of(f, dir@),
    {
        ConfigFiles {
            config: join_path(dir, "config.toml"),
            log: join_path(dir, "dloor.log"),
            history: join_path(dir, "history.jsonl"),
        }
    }

    /// The files in the configuration directory, read once, so that all
    /// three lie in the same directory.
    pub fn standard() -> (r: core::result::Result<ConfigFiles, Error>)
        ensures
            r is Err ==> r matches Err(Error::ConfigDirUnavailable),
            r matches Ok(f) ==> exists|d: Seq<char>|
                f.config@ == #[trigger] path_join(d, "config.toml"@) && f.log@ == path_join(
                    d,
                    "dloor.log"@,
                ) && f.history@ == path_join(d, "history.jsonl"@),
    {
        match Config::config_dir() {
            Ok(dir) => {
                let f = ConfigFiles::in_dir(dir.as_str());
                assert(files_of(f, dir@));
                assert(f.config@ == path_join(dir@, "config.toml"@));
                Ok(f)
            },
            Err(e) => Err(e),
        }
    }
}

/// Two files joined to one directory differ only in their names: what
/// comes before the name is the same.
pub proof fn lemma_files_share_a_directory(dir: Seq<char>, a: Seq<char>, b: Seq<char>)
    ensures
        path_join(dir, a).subrange(0, path_join(dir, a).len() - a.len()) == path_join(
            dir,
            b,
        ).subrange(0, path_join(dir, b).len() - b.len()),
{
    assert(path_join(dir, a).subrange(0, path_join(dir, a).len() - a.len()) =~= path_join(
        dir,
        b,
    ).subrange(0, path_join(dir, b).len() - b.len()));
}

/// `dir` joined with a relative `name`, as `Path::join` does on Unix.
pub open spec fn path_join(dir: Seq<char>, name: Seq<char>) -> Seq<char> {
    if dir.len() == 0 {
        name
    } else if dir.last() == '/' {
        dir + name
    } else {
        dir + "/"@ + name
    }
}

pub fn join_path(dir: &str, name: &str) -> (r: String)
    ensures
        r@ == path_join(dir@, name@),
{
    let d = chars_of(dir);
    if d.len() == 0 {
        owned(name)
    } else if d[d.len() - 1] == '/' {
        concat2(dir, name)
    } else {
        concat3(dir, "/", name)
    }
}

/// The user's download directory, or `.` when the platform has none;
/// either way a path that is not empty.
pub fn default_download_dir() -> (r: String)
    ensures
        r@.len() > 0,
{
    match user_download_dir() {
        Some(dir) => dir,
        None => {
            proof {
                reveal_strlit(".");
            }
            owned(".")
        },
    }
}

/// `directories::ProjectDirs::from("com", "dloor", "dloor-tui")`, then its
/// `config_dir()`. The directory depends on the platform and on the
/// environment of the process, so nothing is stated of it.
#[verifier::external_body]
fn project_config_dir() -> (r: Option<String>) {
    match directories::ProjectDirs::from("com", "dloor", "dloor-tui") {
        Some(dirs) => Some(dirs.config_dir().to_string_lossy().into_owned()),
        None => None,
    }
}

/// `directories::UserDirs::new()`, then its `download_dir()`. Which
/// directory it is depends on the platform and on the environment of the
/// process; the contract claims only that a directory it gives is not an
/// empty path. In the crate's source it is a path from `user-dirs.dirs`
/// that is absolute or joined to the home directory (itself never empty),
/// `Downloads` under the home directory on macOS, or the Downloads known
/// folder that the Windows shell reports.
#[verifier::external_body]
fn user_download_dir() -> (r: Option<String>)
    ensures
        r matches Some(d) ==> d@.len() > 0,
{
    match directories::UserDirs::new() {
        Some(dirs) => match dirs.download_dir() {
            Some(dir) => Some(dir.to_string_lossy().into_owned()),
            None => None,
        },
        None => None,
    }
}

// ---------------------------------------------------------------------
// Error messages that mention cookies
// ---------------------------------------------------------------------

/// What yt-dlp's error output is shown as. Recognized cookie failures get a
/// plain explanation; otherwise a cookie file's path is replaced by
/// `<cookie-file>` and the rest is kept.
pub open spec fn sanitized_error(stderr: Seq<char>, cookies: CookieSource) -> Seq<char> {
    let l = lower(stderr);
    match cookies {
        CookieSource::Browser { browser } => {
            let name = browser.label_text();
            if seq_contains(l, "could not find"@) && (seq_contains(l, "cookie"@) || seq_contains(
                l,
                "profile"@,
            )) {
                name + " cookie profile was not found. Open the browser once and verify the selected profile."@
            } else if seq_contains(l, "database is locked"@) || seq_contains(l, "could not copy"@)
                || seq_contains(l, "failed to copy"@) {
                name + " cookies are in use. Close the browser completely, then try again."@
            } else if seq_contains(l, "keychain"@) || seq_contains(l, "keyring"@) || seq_contains(
                l,
                "permission denied"@,
            ) || seq_contains(l, "operation not permitted"@) || seq_contains(
                l,
                "access denied"@,
            ) {
                "Access to "@ + name
                    + " cookies was denied by the OS. Grant terminal/keychain permission and try again."@
            } else if seq_contains(l, "decrypt"@) {
                name + " cookies could not be decrypted. Unlock the OS keychain or use a Netscape cookie file."@
            } else {
                stderr
            }
        },
        CookieSource::File { path } => {
            if seq_contains(l, "no such file"@) || seq_contains(l, "not found"@) || seq_contains(
                l,
                "permission denied"@,
            ) {
                "The configured cookie file was not found or is unreadable. Check the path and file permissions."@
            } else {
                replace_all(stderr, path@, "<cookie-file>"@)
            }
        },
        CookieSource::Disabled => stderr,
    }
}

/// The text that stands for the cookie file's path in an error.
pub open spec fn cookie_marker() -> Seq<char> {
    "<cookie-file>"@
}

/// The cookie file's path never shows in an error as shown: the error is
/// replaced by a fixed message, or every occurrence of the path by
/// `<cookie-file>`. The exceptions are a path that holds `<` or `>` or that
/// is part of one of these fixed texts.
pub proof fn lemma_cookie_path_hidden(stderr: Seq<char>, cookies: CookieSource, path: Seq<char>)
    requires
        cookies matches CookieSource::File { path: p } && p@ == path,
        path.len() > 0,
        !path.contains('<'),
        !path.contains('>'),
        !seq_contains(cookie_marker(), path),
        !seq_contains(
            "The configured cookie file was not found or is unreadable. Check the path and file permissions."@,
            path,
        ),
    ensures
        !seq_contains(sanitized_error(stderr, cookies), path),
{
    reveal_strlit("<cookie-file>");
    assert(cookie_marker()[0] == '<');
    assert(cookie_marker().last() == '>');
    lemma_replace_all_removes(stderr, path, cookie_marker());
}

pub fn sanitized_ytdlp_error(stderr: &str, cookies: &CookieSource) -> (r: String)
    ensures
        r@ == sanitized_error(stderr@, *cookies),
{
    let raw = chars_of(stderr);
    let l = lower_vec(raw.as_slice());
    match cookies {
        CookieSource::Browser { browser } => {
            let name = browser.label();
            if contains_str(l.as_slice(), "could not find") && (contains_str(l.as_slice(), "cookie")
                || contains_str(l.as_slice(), "profile")) {
                return concat2(
                    name,
                    " cookie profile was not found. Open the browser once and verify the selected profile.",
                );
            }
            if contains_str(l.as_slice(), "database is locked") || contains_str(
                l.as_slice(),
                "could not copy",
            ) || contains_str(l.as_slice(), "failed to copy") {
                return concat2(
                    name,
                    " cookies are in use. Close the browser completely, then try again.",
                );
            }
            if contains_str(l.as_slice(), "keychain") || contains_str(l.as_slice(), "keyring")
                || contains_str(l.as_slice(), "permission denied") || contains_str(
                l.as_slice(),
                "operation not permitted",
            ) || contains_str(l.as_slice(), "access denied") {
                return concat3(
                    "Access to ",
                    name,
                    " cookies was denied by the OS. Grant terminal/keychain permission and try again.",
                );
            }
            if contains_str(l.as_slice(), "decrypt") {
                return concat2(
                    name,
                    " cookies could not be decrypted. Unlock the OS keychain or use a Netscape cookie file.",
                );
            }
            owned(stderr)
        },
        CookieSource::File { path } => {
            if contains_str(l.as_slice(), "no such file") || contains_str(l.as_slice(), "not found")
                || contains_str(l.as_slice(), "permission denied") {
                return owned(
                    "The configured cookie file was not found or is unreadable. Check the path and file permissions.",
                );
            }
            let p = chars_of(path.as_str());
            let r = chars_of("<cookie-file>");
            let out = replace_vec(raw.as_slice(), p.as_slice(), r.as_slice());
            string_from_chars(out.as_slice())
        },
        CookieSource::Disabled => owned(stderr),
    }
}

} // verus!
