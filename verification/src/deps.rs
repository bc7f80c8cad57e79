//! The external tools dloor runs, and what is missing of them.

use vstd::prelude::*;

use crate::config::{Config, Destination, MediaOptions};
use crate::diagnostics::VersionFreshness;
use crate::freshness::{names_a_day, version_freshness_on, yt_dlp_freshness};
use crate::text::{
    contains_str, has_prefix, lower, lower_vec, seq_contains, starts_with_str,
    chars_of, concat2, concat3, copy_string, trim, trim_str, is_whitespace, is_ws, matches_at, occurs_at, owned, push_str, views,
};

verus! {

broadcast use vstd::string::group_string_axioms;

#[derive(Debug, Clone, Copy, PartialEq, Eq, Structural)]
pub enum Tool {
    YtDlp,
    Ffmpeg,
    Rclone,
}

impl Tool {
    pub open spec fn command_text(self) -> Seq<char> {
        match self {
            Tool::YtDlp => "yt-dlp"@,
            Tool::Ffmpeg => "ffmpeg"@,
            Tool::Rclone => "rclone"@,
        }
    }

    pub open spec fn hint_text(self) -> Seq<char> {
        match self {
            Tool::YtDlp => "Install yt-dlp: https://github.com/yt-dlp/yt-dlp#installation"@,
            Tool::Ffmpeg => "Install ffmpeg: https://ffmpeg.org/download.html"@,
            Tool::Rclone => "Install rclone and run `rclone config`: https://rclone.org/install/"@,
        }
    }

    /// The executable's name.
    pub fn command(self) -> (r: &'static str)
        ensures
            r@ == self.command_text(),
    {
        match self {
            Tool::YtDlp => "yt-dlp",
            Tool::Ffmpeg => "ffmpeg",
            Tool::Rclone => "rclone",
        }
    }

    /// How to install the tool.
    pub fn install_hint(self) -> (r: &'static str)
        ensures
            r@ == self.hint_text(),
    {
        match self {
            Tool::YtDlp => "Install yt-dlp: https://github.com/yt-dlp/yt-dlp#installation",
            Tool::Ffmpeg => "Install ffmpeg: https://ffmpeg.org/download.html",
            Tool::Rclone => "Install rclone and run `rclone config`: https://rclone.org/install/",
        }
    }
}

/// Which tools are missing, and what is known of the installed yt-dlp.
#[derive(Debug, Clone)]
pub struct DependencyReport {
    pub missing_required: Vec<Tool>,
    pub missing_optional: Vec<Tool>,
    pub yt_dlp_version: Option<String>,
    pub yt_dlp_freshness: VersionFreshness,
    pub warnings: Vec<String>,
}

/// What `yt-dlp -U` reported.
#[derive(Debug, Clone)]
pub struct YtDlpUpdateOutcome {
    pub success: bool,
    pub output: String,
}

impl Default for DependencyReport {
    fn default() -> (r: DependencyReport)
        ensures
            r.missing_required@.len() == 0,
            r.missing_optional@.len() == 0,
            r.yt_dlp_version is None,
            r.yt_dlp_freshness == VersionFreshness::Unknown,
            r.warnings@.len() == 0,
    {
        DependencyReport {
            missing_required: Vec::new(),
            missing_optional: Vec::new(),
            yt_dlp_version: None,
            yt_dlp_freshness: VersionFreshness::Unknown,
            warnings: Vec::new(),
        }
    }
}

/// The line that names a missing tool.
pub open spec fn tool_line(t: Tool) -> Seq<char> {
    "- "@ + t.command_text() + ": "@ + t.hint_text()
}

pub open spec fn tool_lines(tools: Seq<Tool>) -> Seq<Seq<char>> {
    tools.map_values(|t: Tool| tool_line(t))
}

/// The lines of the missing-tools message.
pub open spec fn message_lines(required: Seq<Tool>, optional: Seq<Tool>) -> Seq<Seq<char>> {
    (if required.len() > 0 {
        seq!["Missing required tools:"@] + tool_lines(required)
    } else {
        Seq::empty()
    }) + (if optional.len() > 0 {
        seq!["Optional cloud upload tools are unavailable:"@] + tool_lines(optional)
    } else {
        Seq::empty()
    })
}

/// Lines joined by newlines (`[String]::join("\n")`).
pub open spec fn join_lines(lines: Seq<Seq<char>>) -> Seq<char>
    decreases lines.len(),
{
    if lines.len() == 0 {
        Seq::empty()
    } else if lines.len() == 1 {
        lines[0]
    } else {
        join_lines(lines.drop_last()) + "\n"@ + lines.last()
    }
}

/// Joins strings with newlines.
pub fn join_with_newlines(lines: &Vec<String>) -> (r: String)
    ensures
        r@ == join_lines(views(lines@)),
{
    let mut r = String::new();
    let mut i: usize = 0;
    while i < lines.len()
        invariant
            i <= lines.len(),
            r@ == join_lines(views(lines@).subrange(0, i as int)),
        decreases lines.len() - i,
    {
        let ghost before = r@;
        if i > 0 {
            push_str(&mut r, "\n");
        }
        push_str(&mut r, lines[i].as_str());
        proof {
            let sub = views(lines@).subrange(0, i + 1);
            assert(sub.drop_last() =~= views(lines@).subrange(0, i as int));
            assert(sub.last() == lines@[i as int]@);
            if i == 0 {
                assert(r@ =~= sub[0]);
            }
        }
        i = i + 1;
    }
    assert(views(lines@).subrange(0, lines.len() as int) =~= views(lines@));
    r
}

fn push_tool_lines(lines: &mut Vec<String>, tools: &Vec<Tool>)
    ensures
        views(final(lines)@) == views(old(lines)@) + tool_lines(tools@),
{
    let ghost start = views(lines@);
    let mut i: usize = 0;
    while i < tools.len()
        invariant
            i <= tools.len(),
            views(lines@) == start + tool_lines(tools@.subrange(0, i as int)),
        decreases tools.len() - i,
    {
        let t = tools[i];
        let mut line = concat2("- ", t.command());
        push_str(&mut line, ": ");
        push_str(&mut line, t.install_hint());
        let ghost before = lines@;
        assert(line@ == tool_line(t));
        lines.push(line);
        proof {
            assert(views(lines@) =~= views(before).push(tool_line(t)));
            assert(tool_lines(tools@.subrange(0, i + 1)) =~= tool_lines(
                tools@.subrange(0, i as int),
            ).push(tool_line(t)));
        }
        i = i + 1;
    }
    assert(tools@.subrange(0, tools.len() as int) =~= tools@);
}

/// The main-screen warning for a yt-dlp release more than 90 days old.
pub open spec fn stale_warning_text(version: Seq<char>) -> Seq<char> {
    "yt-dlp "@ + version + " is more than 90 days old. Run /update to check for a newer release."@
}

impl DependencyReport {
    /// Records the output of `yt-dlp --version` and how old that release
    /// is today.
    pub fn record_yt_dlp_version(&mut self, version: &str)
        ensures
            final(self).yt_dlp_version matches Some(v) && v@ == trim(version@),
            final(self).yt_dlp_freshness == VersionFreshness::Unknown <==> !names_a_day(version@),
            exists|today: int| final(self).yt_dlp_freshness == version_freshness_on(version@, today),
            final(self).missing_required@ == old(self).missing_required@,
            final(self).missing_optional@ == old(self).missing_optional@,
            final(self).warnings@ == old(self).warnings@,
    {
        self.yt_dlp_version = Some(trim_str(version));
        self.yt_dlp_freshness = yt_dlp_freshness(version);
    }

    /// The warning shown while the installed yt-dlp is more than 90 days
    /// old.
    pub fn stale_warning(&self) -> (r: Option<String>)
        ensures
            r is Some <==> self.yt_dlp_freshness == VersionFreshness::OlderThan90Days,
            r matches Some(w) ==> w@ == stale_warning_text(
                match self.yt_dlp_version {
                    Some(v) => v@,
                    None => "unknown"@,
                },
            ),
    {
        if self.yt_dlp_freshness != VersionFreshness::OlderThan90Days {
            return None;
        }
        let version: &str = match &self.yt_dlp_version {
            Some(v) => v.as_str(),
            None => "unknown",
        };
        Some(
            concat3(
                "yt-dlp ",
                version,
                " is more than 90 days old. Run /update to check for a newer release.",
            ),
        )
    }

    /// The notice shown once the tools have been checked: the warning
    /// about an old yt-dlp first, else the first capability warning.
    pub fn notice(&self) -> (r: Option<String>)
        ensures
            self.yt_dlp_freshness == VersionFreshness::OlderThan90Days ==> (r matches Some(n)
                && n@ == stale_warning_text(
                match self.yt_dlp_version {
                    Some(v) => v@,
                    None => "unknown"@,
                },
            )),
            self.yt_dlp_freshness != VersionFreshness::OlderThan90Days ==> (if self.warnings@.len()
                > 0 {
                r matches Some(n) && n@ == self.warnings@[0]@
            } else {
                r is None
            }),
    {
        match self.stale_warning() {
            Some(w) => Some(w),
            None => if self.warnings.len() > 0 {
                Some(copy_string(&self.warnings[0]))
            } else {
                None
            },
        }
    }

    pub open spec fn is_ready_spec(&self) -> bool {
        self.missing_required@.len() == 0
    }

    /// Whether every required tool is present.
    pub fn is_ready(&self) -> (r: bool)
        ensures
            r == self.is_ready_spec(),
    {
        self.missing_required.len() == 0
    }

    /// The missing tools, each with how to install it.
    pub fn message(&self) -> (r: String)
        ensures
            r@ == join_lines(message_lines(self.missing_required@, self.missing_optional@)),
    {
        let mut lines: Vec<String> = Vec::new();
        let ghost req = self.missing_required@;
        let ghost opt = self.missing_optional@;
        if self.missing_required.len() > 0 {
            lines.push(owned("Missing required tools:"));
            assert(views(lines@) =~= seq!["Missing required tools:"@]);
            push_tool_lines(&mut lines, &self.missing_required);
        }
        let ghost first = views(lines@);
        assert(first =~= (if req.len() > 0 {
            seq!["Missing required tools:"@] + tool_lines(req)
        } else {
            Seq::empty()
        }));
        if self.missing_optional.len() > 0 {
            lines.push(owned("Optional cloud upload tools are unavailable:"));
            assert(views(lines@) =~= first.push("Optional cloud upload tools are unavailable:"@));
            push_tool_lines(&mut lines, &self.missing_optional);
        }
        assert(views(lines@) =~= message_lines(req, opt));
        join_with_newlines(&lines)
    }

    /// The installed yt-dlp version, when it is known.
    pub fn version(&self, tool: Tool) -> (r: Option<&str>)
        ensures
            tool == Tool::YtDlp && self.yt_dlp_version is Some ==> (r matches Some(v) && v@
                == self.yt_dlp_version->0@),
            !(tool == Tool::YtDlp && self.yt_dlp_version is Some) ==> r is None,
    {
        match tool {
            Tool::YtDlp => match &self.yt_dlp_version {
                Some(v) => Some(v.as_str()),
                None => None,
            },
            _ => None,
        }
    }
}

/// The missing tools, given which ones were found: yt-dlp and ffmpeg are
/// required; rclone is required for a cloud destination and optional
/// otherwise.
pub open spec fn missing_tools(
    yt_dlp_found: bool,
    ffmpeg_found: bool,
    rclone_found: bool,
    needs_rclone: bool,
) -> (Seq<Tool>, Seq<Tool>) {
    let base = (if yt_dlp_found {
        Seq::empty()
    } else {
        seq![Tool::YtDlp]
    }) + (if ffmpeg_found {
        Seq::empty()
    } else {
        seq![Tool::Ffmpeg]
    });
    if rclone_found {
        (base, Seq::empty())
    } else if needs_rclone {
        (base.push(Tool::Rclone), Seq::empty())
    } else {
        (base, seq![Tool::Rclone])
    }
}

/// The report for the tools that were found.
pub fn dependency_report(
    yt_dlp_found: bool,
    ffmpeg_found: bool,
    rclone_found: bool,
    needs_rclone: bool,
) -> (r: DependencyReport)
    ensures
        (r.missing_required@, r.missing_optional@) == missing_tools(
            yt_dlp_found,
            ffmpeg_found,
            rclone_found,
            needs_rclone,
        ),
        r.yt_dlp_version is None,
        r.yt_dlp_freshness == VersionFreshness::Unknown,
        r.warnings@.len() == 0,
{
    let mut report = DependencyReport::default();
    if !yt_dlp_found {
        report.missing_required.push(Tool::YtDlp);
    }
    if !ffmpeg_found {
        report.missing_required.push(Tool::Ffmpeg);
    }
    if !rclone_found {
        if needs_rclone {
            report.missing_required.push(Tool::Rclone);
        } else {
            report.missing_optional.push(Tool::Rclone);
        }
    }
    assert(report.missing_required@ =~= missing_tools(
        yt_dlp_found,
        ffmpeg_found,
        rclone_found,
        needs_rclone,
    ).0);
    assert(report.missing_optional@ =~= missing_tools(
        yt_dlp_found,
        ffmpeg_found,
        rclone_found,
        needs_rclone,
    ).1);
    report
}

/// rclone is required only when the configured destination is a cloud
/// remote.
pub open spec fn rclone_required(config: Option<&Config>) -> bool {
    match config {
        Some(cfg) => cfg.destination is Cloud,
        None => false,
    }
}

/// Looks each tool up on the search path and reports what is missing.
/// rclone is required only for a cloud destination.
pub fn check_dependencies(config: Option<&Config>) -> (r: DependencyReport)
    ensures
        exists|y: bool, f: bool, c: bool|
            (r.missing_required@, r.missing_optional@) == #[trigger] missing_tools(
                y,
                f,
                c,
                rclone_required(config),
            ),
        r.yt_dlp_version is None,
        r.yt_dlp_freshness == VersionFreshness::Unknown,
{
    let yt = executable_location(Tool::YtDlp.command()).is_some();
    let ff = executable_location(Tool::Ffmpeg.command()).is_some();
    let rc = executable_location(Tool::Rclone.command()).is_some();
    let needs_rclone = match config {
        Some(cfg) => match &cfg.destination {
            Destination::Cloud { .. } => true,
            Destination::Local { .. } => false,
        },
        None => false,
    };
    assert(needs_rclone == rclone_required(config));
    let r = dependency_report(yt, ff, rc, needs_rclone);
    assert((r.missing_required@, r.missing_optional@) == missing_tools(
        yt,
        ff,
        rc,
        rclone_required(config),
    ));
    r
}

// ---------------------------------------------------------------------
// ffmpeg capabilities
// ---------------------------------------------------------------------

/// The separators of ffmpeg's capability listings: white space (which
/// includes line ends) and commas.
pub open spec fn is_field_sep(c: char) -> bool {
    is_ws(c) || c == ','
}

/// `name` appears in `output` as a whole field, bounded by separators or
/// the ends of the text.
pub open spec fn field_at(output: Seq<char>, name: Seq<char>, i: int) -> bool {
    &&& occurs_at(output, name, i)
    &&& (i == 0 || is_field_sep(output[i - 1]))
    &&& (i + name.len() == output.len() || is_field_sep(output[i + name.len()]))
}

pub open spec fn has_field(output: Seq<char>, name: Seq<char>) -> bool {
    exists|i: int| field_at(output, name, i)
}

pub open spec fn plain_name(name: Seq<char>) -> bool {
    name.len() > 0 && forall|i: int| 0 <= i < name.len() ==> !is_field_sep(#[trigger] name[i])
}

fn field_sep(c: char) -> (b: bool)
    ensures
        b == is_field_sep(c),
{
    is_whitespace(c) || c == ','
}

/// Whether a capability listing names `name` (a name without separators).
fn has_capability(output: &str, name: &str) -> (r: bool)
    requires
        plain_name(name@),
    ensures
        r == has_field(output@, name@),
{
    let s = chars_of(output);
    let n = chars_of(name);
    let mut i: usize = 0;
    while i < s.len()
        invariant
            s@ == output@,
            n@ == name@,
            i <= s.len(),
            forall|k: int| 0 <= k < i ==> !field_at(s@, n@, k),
        decreases s.len() - i,
    {
        if (i == 0 || field_sep(s[i - 1])) && matches_at(s.as_slice(), n.as_slice(), i) {
            let j = i + n.len();
            if j == s.len() || field_sep(s[j]) {
                assert(field_at(output@, name@, i as int));
                return true;
            }
        }
        i = i + 1;
    }
    proof {
        assert forall|k: int| !field_at(s@, n@, k) by {
            if k >= s.len() {
                assert(!occurs_at(s@, n@, k));
            }
        }
    }
    false
}

/// The warnings for embedding options that the installed ffmpeg cannot
/// serve, in a fixed order.
pub open spec fn capability_warnings(
    options: MediaOptions,
    encoders: Seq<char>,
    muxers: Seq<char>,
) -> Seq<Seq<char>> {
    (if options.embed_subtitles && !has_field(encoders, "mov_text"@) {
        seq!["ffmpeg lacks the mov_text encoder required for MP4 subtitle embedding."@]
    } else {
        Seq::empty()
    }) + (if (options.embed_thumbnail || options.embed_chapters) && !has_field(muxers, "mov"@) {
        seq!["ffmpeg lacks the MOV/MP4 muxer required for some thumbnail or chapter embedding."@]
    } else {
        Seq::empty()
    }) + (if (options.embed_thumbnail || options.embed_chapters) && !has_field(muxers, "mp3"@) {
        seq!["ffmpeg lacks the MP3 muxer required for some audio metadata embedding."@]
    } else {
        Seq::empty()
    })
}

/// Checks ffmpeg's encoder and muxer listings against the enabled
/// embedding options.
pub fn media_capability_warnings(options: &MediaOptions, encoders: &str, muxers: &str) -> (r: Vec<
    String,
>)
    ensures
        views(r@) == capability_warnings(*options, encoders@, muxers@),
{
    proof {
        reveal_strlit("mov_text");
        reveal_strlit("mov");
        reveal_strlit("mp3");
    }
    let mut warnings: Vec<String> = Vec::new();
    if options.embed_subtitles && !has_capability(encoders, "mov_text") {
        warnings.push(
            owned("ffmpeg lacks the mov_text encoder required for MP4 subtitle embedding."),
        );
    }
    if (options.embed_thumbnail || options.embed_chapters) && !has_capability(muxers, "mov") {
        warnings.push(
            owned(
                "ffmpeg lacks the MOV/MP4 muxer required for some thumbnail or chapter embedding.",
            ),
        );
    }
    if (options.embed_thumbnail || options.embed_chapters) && !has_capability(muxers, "mp3") {
        warnings.push(
            owned("ffmpeg lacks the MP3 muxer required for some audio metadata embedding."),
        );
    }
    assert(views(warnings@) =~= capability_warnings(*options, encoders@, muxers@));
    warnings
}

/// Whether any embedding option is on, which is when ffmpeg's capabilities
/// are inspected at all.
pub fn embedding_requested(options: &MediaOptions) -> (r: bool)
    ensures
        r == (options.embed_subtitles || options.embed_thumbnail || options.embed_chapters),
{
    options.embed_subtitles || options.embed_thumbnail || options.embed_chapters
}

// ---------------------------------------------------------------------
// Updating yt-dlp
// ---------------------------------------------------------------------

/// The update command that fits where yt-dlp is installed, judged from the
/// path of its executable (compared without regard to case): Homebrew,
/// pipx, pip, or the operating system's package manager.
pub open spec fn update_command_for(path: Seq<char>) -> Option<Seq<char>> {
    let p = lower(path);
    if seq_contains(p, "/cellar/"@) || seq_contains(p, "homebrew"@) || seq_contains(p, "linuxbrew"@) {
        Some("brew upgrade yt-dlp"@)
    } else if seq_contains(p, "pipx"@) {
        Some("pipx upgrade yt-dlp"@)
    } else if seq_contains(p, "site-packages"@) || seq_contains(p, "/.local/bin/"@) {
        Some("python3 -m pip install -U yt-dlp"@)
    } else if has_prefix(p, "/usr/bin/"@) || has_prefix(p, "/bin/"@) {
        Some("the operating system's package manager, such as apt, dnf or pacman"@)
    } else {
        None
    }
}

pub fn update_command(path: &str) -> (r: Option<&'static str>)
    ensures
        match r {
            Some(c) => update_command_for(path@) == Some(c@),
            None => update_command_for(path@) is None,
        },
{
    let p = lower_vec(chars_of(path).as_slice());
    let ps = p.as_slice();
    if contains_str(ps, "/cellar/") || contains_str(ps, "homebrew") || contains_str(ps, "linuxbrew") {
        Some("brew upgrade yt-dlp")
    } else if contains_str(ps, "pipx") {
        Some("pipx upgrade yt-dlp")
    } else if contains_str(ps, "site-packages") || contains_str(ps, "/.local/bin/") {
        Some("python3 -m pip install -U yt-dlp")
    } else if starts_with_str(ps, "/usr/bin/") || starts_with_str(ps, "/bin/") {
        Some("the operating system's package manager, such as apt, dnf or pacman")
    } else {
        None
    }
}

/// The suggestion for yt-dlp at `location`, where it was found.
pub open spec fn suggestion_for(location: Option<Seq<char>>) -> Option<Seq<char>> {
    match location {
        Some(p) => update_command_for(p),
        None => None,
    }
}

/// What the update screen shows of `yt-dlp -U`: its output, and after a
/// failure the suggested update command where one is known.
pub open spec fn update_report_text(success: bool, output: Seq<char>, suggestion: Option<Seq<char>>) -> Seq<char> {
    match suggestion {
        Some(c) => if success {
            output
        } else {
            output + "\n\nSelf-update is unavailable for this installation. Update with: "@ + c
        },
        None => output,
    }
}

pub fn update_outcome(success: bool, output: &str, suggestion: Option<&str>) -> (r: YtDlpUpdateOutcome)
    ensures
        r.success == success,
        r.output@ == update_report_text(
            success,
            output@,
            match suggestion {
                Some(c) => Some(c@),
                None => None,
            },
        ),
{
    let mut text = owned(output);
    match suggestion {
        Some(c) => {
            if !success {
                push_str(&mut text, "\n\nSelf-update is unavailable for this installation. Update with: ");
                push_str(&mut text, c);
            }
        },
        None => {},
    }
    YtDlpUpdateOutcome { success, output: text }
}

/// `which::which(name)`: the path of the executable of that name on the
/// search path, where there is one. It depends on the machine, so nothing
/// is stated of it.
#[verifier::external_body]
fn executable_location(name: &str) -> (r: Option<String>) {
    which::which(name).ok().map(|path| path.to_string_lossy().into_owned())
}

/// The outcome of `yt-dlp -U` with the suggestion that fits the installed
/// yt-dlp's location.
pub fn yt_dlp_update_outcome(success: bool, output: &str) -> (r: YtDlpUpdateOutcome)
    ensures
        r.success == success,
        success ==> r.output@ == output@,
        exists|location: Option<Seq<char>>| r.output@ == update_report_text(
            success,
            output@,
            #[trigger] suggestion_for(location),
        ),
{
    let location = executable_location(Tool::YtDlp.command());
    let suggestion = match &location {
        Some(path) => update_command(path.as_str()),
        None => None,
    };
    let r = update_outcome(success, output, suggestion);
    let ghost found = match location {
        Some(p) => Some(p@),
        None => None,
    };
    assert(r.output@ == update_report_text(success, output@, suggestion_for(found)));
    r
}

/// A required tool is reported missing exactly when it was not found:
/// yt-dlp and ffmpeg always, rclone for a cloud destination; otherwise a
/// missing rclone is optional. The report is ready exactly when yt-dlp and
/// ffmpeg were found and, for a cloud destination, rclone too.
pub proof fn lemma_missing_exactly_the_absent(
    yt_dlp_found: bool,
    ffmpeg_found: bool,
    rclone_found: bool,
    needs_rclone: bool,
)
    ensures
        ({
            let (required, optional) = missing_tools(
                yt_dlp_found,
                ffmpeg_found,
                rclone_found,
                needs_rclone,
            );
            &&& required.contains(Tool::YtDlp) <==> !yt_dlp_found
            &&& required.contains(Tool::Ffmpeg) <==> !ffmpeg_found
            &&& required.contains(Tool::Rclone) <==> (!rclone_found && needs_rclone)
            &&& optional.contains(Tool::Rclone) <==> (!rclone_found && !needs_rclone)
            &&& !optional.contains(Tool::YtDlp) && !optional.contains(Tool::Ffmpeg)
            &&& (required.len() == 0 <==> (yt_dlp_found && ffmpeg_found && (rclone_found
                || !needs_rclone)))
        }),
{
    let (required, optional) = missing_tools(yt_dlp_found, ffmpeg_found, rclone_found, needs_rclone);
    let a = if yt_dlp_found {
        Seq::<Tool>::empty()
    } else {
        seq![Tool::YtDlp]
    };
    let b = if ffmpeg_found {
        Seq::<Tool>::empty()
    } else {
        seq![Tool::Ffmpeg]
    };
    let base = a + b;
    assert forall|i: int| 0 <= i < base.len() implies ((base[i] == Tool::YtDlp ==> !yt_dlp_found)
        && (base[i] == Tool::Ffmpeg ==> !ffmpeg_found) && base[i] != Tool::Rclone) by {
        if i < a.len() {
            assert(base[i] == a[i]);
        } else {
            assert(base[i] == b[i - a.len()]);
        }
    }
    if !yt_dlp_found {
        assert(base[0] == Tool::YtDlp);
        assert(required[0] == Tool::YtDlp);
    }
    if !ffmpeg_found {
        assert(base[a.len() as int] == Tool::Ffmpeg);
        assert(required[a.len() as int] == Tool::Ffmpeg);
    }
    if !rclone_found && needs_rclone {
        assert(required == base.push(Tool::Rclone));
        assert(required[required.len() - 1] == Tool::Rclone);
        assert forall|i: int| 0 <= i < required.len() - 1 implies required[i] == base[i] by {}
    } else {
        assert(required == base);
    }
    if !rclone_found && !needs_rclone {
        assert(optional[0] == Tool::Rclone);
    } else {
        assert(optional.len() == 0);
    }
    if required.contains(Tool::YtDlp) {
        let i = choose|i: int| 0 <= i < required.len() && required[i] == Tool::YtDlp;
        if i < base.len() {
            assert(base[i] == Tool::YtDlp);
        }
    }
    if required.contains(Tool::Ffmpeg) {
        let i = choose|i: int| 0 <= i < required.len() && required[i] == Tool::Ffmpeg;
        if i < base.len() {
            assert(base[i] == Tool::Ffmpeg);
        }
    }
    if required.contains(Tool::Rclone) {
        let i = choose|i: int| 0 <= i < required.len() && required[i] == Tool::Rclone;
        if i < base.len() {
            assert(base[i] == Tool::Rclone);
        }
    }
}

} // verus!
