//! Recognition of supported media URLs.

use vstd::prelude::*;

use crate::error::Error;
use crate::text::{
    all_digits, chars_eq_str, chars_of, contains_char, decimal_value, digits_value, find,
    first_occurrence, has_prefix, index_of_char, index_of_char_from, index_where, is_alnum,
    is_ascii_alnum, is_char, is_control, is_ctrl, is_whitespace, is_ws, last_index_of,
    lemma_first_occurrence, lemma_index_where, lemma_index_where_unique, lemma_last_index_of,
    lower, lower_vec, prefix_until, rfind_char, slice_vec, starts_with_str, string_from_chars,
    strip_repeated, strip_repeated_vec, trim, trim_vec, is_caseless, lower_char, lemma_lower_char,
    lemma_lower_subrange, lemma_lower_twice, lemma_index_where_lower, lemma_last_index_of_lower,
    lemma_first_occurrence_lower, lemma_trim_lower, lemma_trim_twice, is_ascii_digit,
};

verus! {

broadcast use vstd::string::group_string_axioms;

#[derive(Debug, Clone, Copy, PartialEq, Eq, Structural)]
pub enum Platform {
    YouTube,
    YouTubeShorts,
    Instagram,
    InstagramReels,
    TikTok,
    Facebook,
    X,
    Generic,
}

impl Platform {
    pub open spec fn label_text(self) -> Seq<char> {
        match self {
            Platform::YouTube => "YouTube"@,
            Platform::YouTubeShorts => "YouTube Shorts"@,
            Platform::Instagram => "Instagram"@,
            Platform::InstagramReels => "Instagram Reels"@,
            Platform::TikTok => "TikTok"@,
            Platform::Facebook => "Facebook"@,
            Platform::X => "X (Twitter)"@,
            Platform::Generic => "Generic (yt-dlp)"@,
        }
    }

    /// The name shown to the user.
    pub fn label(self) -> (r: &'static str)
        ensures
            r@ == self.label_text(),
    {
        match self {
            Platform::YouTube => "YouTube",
            Platform::YouTubeShorts => "YouTube Shorts",
            Platform::Instagram => "Instagram",
            Platform::InstagramReels => "Instagram Reels",
            Platform::TikTok => "TikTok",
            Platform::Facebook => "Facebook",
            Platform::X => "X (Twitter)",
            Platform::Generic => "Generic (yt-dlp)",
        }
    }
}

// ---------------------------------------------------------------------
// The URL grammar
// ---------------------------------------------------------------------

/// Characters that never appear in an accepted URL.
pub open spec fn is_forbidden(c: char) -> bool {
    ||| is_ctrl(c)
    ||| is_ws(c)
    ||| c == '\\'
    ||| c == '`'
    ||| c == '$'
    ||| c == ';'
    ||| c == '|'
    ||| c == '<'
    ||| c == '>'
    ||| c == '"'
    ||| c == '\''
}

pub open spec fn ends_authority() -> spec_fn(char) -> bool {
    |c: char| c == '/' || c == '?' || c == '#'
}

pub open spec fn ends_path() -> spec_fn(char) -> bool {
    |c: char| c == '?' || c == '#'
}

/// One dot-separated label of a host name.
pub open spec fn label_ok(l: Seq<char>) -> bool {
    &&& l.len() > 0
    &&& l.len() <= 63
    &&& forall|i: int| 0 <= i < l.len() ==> is_ascii_alnum(#[trigger] l[i]) || l[i] == '-'
    &&& is_ascii_alnum(l[0])
    &&& is_ascii_alnum(l.last())
}

/// Every label of `s`, split at `.`, is well formed.
pub open spec fn labels_ok(s: Seq<char>) -> bool
    decreases s.len(),
{
    let i = index_where(s, is_char('.'));
    if i >= s.len() {
        label_ok(s)
    } else {
        label_ok(s.subrange(0, i as int)) && labels_ok(s.subrange(i as int + 1, s.len() as int))
    }
}

/// A host name: at most 253 characters of well-formed labels. (A dotted
/// IPv4 address is such a host name too.)
pub open spec fn host_ok(h: Seq<char>) -> bool {
    h.len() > 0 && h.len() <= 253 && labels_ok(h)
}

/// `host` or `host:port`, where the port is a number from 1 to 65535.
pub open spec fn authority_ok(a: Seq<char>) -> bool {
    let k = last_index_of(a, ':');
    if k >= 0 {
        let port = a.subrange(k + 1, a.len() as int);
        &&& port.len() > 0
        &&& all_digits(port)
        &&& 1 <= decimal_value(port) <= 65535
        &&& host_ok(a.subrange(0, k))
    } else {
        host_ok(a)
    }
}

/// The host that the platform is looked up by: the lower-cased authority
/// without its leading `www.` prefixes and its port.
pub open spec fn host_of(authority: Seq<char>) -> Seq<char> {
    prefix_until(strip_repeated(lower(authority), "www."@), is_char(':'))
}

/// The lower-cased path, without query and fragment.
pub open spec fn path_of(after_authority: Seq<char>) -> Seq<char> {
    lower(prefix_until(after_authority, ends_path()))
}

pub open spec fn classify(host: Seq<char>, path: Seq<char>) -> Platform {
    if host == "youtube.com"@ || host == "m.youtube.com"@ || host == "music.youtube.com"@ {
        if has_prefix(path, "/shorts/"@) {
            Platform::YouTubeShorts
        } else {
            Platform::YouTube
        }
    } else if host == "youtu.be"@ {
        Platform::YouTube
    } else if host == "instagram.com"@ || host == "m.instagram.com"@ {
        if has_prefix(path, "/reel/"@) || has_prefix(path, "/reels/"@) {
            Platform::InstagramReels
        } else {
            Platform::Instagram
        }
    } else if host == "tiktok.com"@ || host == "m.tiktok.com"@ || host == "vt.tiktok.com"@
        || host == "vm.tiktok.com"@ {
        Platform::TikTok
    } else if host == "facebook.com"@ || host == "m.facebook.com"@ || host == "fb.watch"@ {
        Platform::Facebook
    } else if host == "x.com"@ || host == "twitter.com"@ || host == "mobile.twitter.com"@
        || host == "t.co"@ {
        Platform::X
    } else {
        Platform::Generic
    }
}

/// The host and the path that a URL is classified by, or `None` when the
/// URL is refused. The URL is trimmed; it must be `http://` or `https://`
/// (in any case), hold no control, white-space or shell-meta characters,
/// and have a non-empty authority without user information that is a valid
/// host and port. The host is lower-cased, without leading `www.` and port;
/// the path is lower-cased, without query and fragment.
pub open spec fn url_parts(url: Seq<char>) -> Option<(Seq<char>, Seq<char>)> {
    let t = trim(url);
    match first_occurrence(t, "://"@) {
        None => None,
        Some(k) => {
            let scheme = lower(t.subrange(0, k));
            let rest = t.subrange(k + "://"@.len(), t.len() as int);
            if !(scheme == "http"@ || scheme == "https"@) || exists|i: int|
                0 <= i < t.len() && is_forbidden(#[trigger] t[i]) {
                None
            } else {
                let e = index_where(rest, ends_authority()) as int;
                let authority = rest.subrange(0, e);
                if authority.len() == 0 || authority.contains('@') || !authority_ok(authority) {
                    None
                } else {
                    Some((host_of(authority), path_of(rest.subrange(e, rest.len() as int))))
                }
            }
        },
    }
}

/// The platform of a URL, or `None` when the URL is refused.
pub open spec fn platform_of(url: Seq<char>) -> Option<Platform> {
    match url_parts(url) {
        Some((host, path)) => Some(classify(host, path)),
        None => None,
    }
}

// ---------------------------------------------------------------------
// Executable checks
// ---------------------------------------------------------------------

fn forbidden(c: char) -> (b: bool)
    ensures
        b == is_forbidden(c),
{
    is_control(c) || is_whitespace(c) || c == '\\' || c == '`' || c == '$' || c == ';' || c
        == '|' || c == '<' || c == '>' || c == '"' || c == '\''
}

fn any_forbidden(s: &[char]) -> (b: bool)
    ensures
        b == exists|i: int| 0 <= i < s@.len() && is_forbidden(#[trigger] s@[i]),
{
    let mut i: usize = 0;
    while i < s.len()
        invariant
            i <= s.len(),
            forall|k: int| 0 <= k < i ==> !is_forbidden(#[trigger] s@[k]),
        decreases s.len() - i,
    {
        if forbidden(s[i]) {
            return true;
        }
        i = i + 1;
    }
    false
}

fn label_valid(s: &[char], from: usize, to: usize) -> (b: bool)
    requires
        from <= to <= s.len(),
    ensures
        b == label_ok(s@.subrange(from as int, to as int)),
{
    let ghost l = s@.subrange(from as int, to as int);
    if from == to || to - from > 63 {
        return false;
    }
    let mut i: usize = from;
    while i < to
        invariant
            from <= i <= to,
            to <= s.len(),
            l == s@.subrange(from as int, to as int),
            forall|k: int| 0 <= k < i - from ==> is_ascii_alnum(#[trigger] l[k]) || l[k] == '-',
        decreases to - i,
    {
        if !(is_alnum(s[i]) || s[i] == '-') {
            assert(l[i - from] == s@[i as int]);
            return false;
        }
        assert(l[i - from] == s@[i as int]);
        i = i + 1;
    }
    assert(l[0] == s@[from as int]);
    assert(l.last() == s@[to - 1]);
    is_alnum(s[from]) && is_alnum(s[to - 1])
}

fn labels_valid(s: &[char]) -> (b: bool)
    ensures
        b == labels_ok(s@),
{
    let mut start: usize = 0;
    assert(s@.subrange(0, s.len() as int) =~= s@);
    loop
        invariant
            start <= s.len(),
            labels_ok(s@) == labels_ok(s@.subrange(start as int, s.len() as int)),
        decreases s.len() - start,
    {
        let ghost rest = s@.subrange(start as int, s.len() as int);
        let end = index_of_char_from(s, '.', start);
        proof {
            lemma_index_where(rest, is_char('.'));
            assert(rest.subrange(0, end - start) =~= s@.subrange(start as int, end as int));
        }
        if !label_valid(s, start, end) {
            return false;
        }
        if end == s.len() {
            return true;
        }
        proof {
            assert(rest.subrange(end - start + 1, rest.len() as int) =~= s@.subrange(
                end + 1,
                s.len() as int,
            ));
        }
        start = end + 1;
    }
}

fn host_valid(s: &[char]) -> (b: bool)
    ensures
        b == host_ok(s@),
{
    s.len() > 0 && s.len() <= 253 && labels_valid(s)
}

fn authority_valid(a: &[char]) -> (b: bool)
    ensures
        b == authority_ok(a@),
{
    proof {
        lemma_last_index_of(a@, ':');
    }
    match rfind_char(a, ':') {
        Some(k) => {
            assert(k < a.len());
            if k + 1 == a.len() {
                return false;
            }
            match digits_value(a, k + 1, a.len()) {
                None => {
                    proof {
                        let port = a@.subrange(k + 1, a.len() as int);
                        if all_digits(port) {
                            assert(decimal_value(port) > 65535);
                        }
                    }
                    false
                },
                Some(v) => {
                    if v == 0 || v > 65535 {
                        return false;
                    }
                    let host = slice_vec(a, 0, k);
                    host_valid(host.as_slice())
                },
            }
        },
        None => host_valid(a),
    }
}

fn classify_exec(host: &[char], path: &[char]) -> (p: Platform)
    ensures
        p == classify(host@, path@),
{
    if chars_eq_str(host, "youtube.com") || chars_eq_str(host, "m.youtube.com") || chars_eq_str(
        host,
        "music.youtube.com",
    ) {
        if starts_with_str(path, "/shorts/") {
            Platform::YouTubeShorts
        } else {
            Platform::YouTube
        }
    } else if chars_eq_str(host, "youtu.be") {
        Platform::YouTube
    } else if chars_eq_str(host, "instagram.com") || chars_eq_str(host, "m.instagram.com") {
        if starts_with_str(path, "/reel/") || starts_with_str(path, "/reels/") {
            Platform::InstagramReels
        } else {
            Platform::Instagram
        }
    } else if chars_eq_str(host, "tiktok.com") || chars_eq_str(host, "m.tiktok.com")
        || chars_eq_str(host, "vt.tiktok.com") || chars_eq_str(host, "vm.tiktok.com") {
        Platform::TikTok
    } else if chars_eq_str(host, "facebook.com") || chars_eq_str(host, "m.facebook.com")
        || chars_eq_str(host, "fb.watch") {
        Platform::Facebook
    } else if chars_eq_str(host, "x.com") || chars_eq_str(host, "twitter.com") || chars_eq_str(
        host,
        "mobile.twitter.com",
    ) || chars_eq_str(host, "t.co") {
        Platform::X
    } else {
        Platform::Generic
    }
}

fn refused(t: &[char]) -> (r: Result<Platform, Error>)
    ensures
        r matches Err(Error::UnsupportedUrl(m)) && m@ == t@,
{
    Err(Error::UnsupportedUrl(string_from_chars(t)))
}

/// Classifies a URL by platform, or refuses it with
/// `Error::UnsupportedUrl` holding the trimmed input.
#[verifier::spinoff_prover]
pub fn detect_platform(url: &str) -> (r: Result<Platform, Error>)
    ensures
        match r {
            Ok(p) => platform_of(url@) == Some(p),
            Err(e) => platform_of(url@) is None && (e matches Error::UnsupportedUrl(m) && m@
                == trim(url@)),
        },
{
    let raw = chars_of(url);
    let t = trim_vec(raw.as_slice());
    let sep = chars_of("://");
    proof {
        lemma_first_occurrence(t@, sep@);
    }
    let k = match find(t.as_slice(), sep.as_slice()) {
        Some(k) => k,
        None => {
            return refused(t.as_slice());
        },
    };
    assert(crate::text::occurs_at(t@, sep@, k as int));
    assert(k + sep.len() <= t.len());
    let scheme = lower_vec(slice_vec(t.as_slice(), 0, k).as_slice());
    let rest = slice_vec(t.as_slice(), k + sep.len(), t.len());
    if !(chars_eq_str(scheme.as_slice(), "http") || chars_eq_str(scheme.as_slice(), "https"))
        || any_forbidden(t.as_slice()) {
        return refused(t.as_slice());
    }
    let mut e: usize = 0;
    while e < rest.len() && !(rest[e] == '/' || rest[e] == '?' || rest[e] == '#')
        invariant
            e <= rest.len(),
            forall|j: int| 0 <= j < e ==> !(ends_authority())(#[trigger] rest@[j]),
        decreases rest.len() - e,
    {
        e = e + 1;
    }
    proof {
        lemma_index_where_unique(rest@, ends_authority(), e as int);
    }
    let authority = slice_vec(rest.as_slice(), 0, e);
    if authority.len() == 0 || contains_char(authority.as_slice(), '@') || !authority_valid(
        authority.as_slice(),
    ) {
        return refused(t.as_slice());
    }
    let lowered = lower_vec(authority.as_slice());
    let www = chars_of("www.");
    let stripped = strip_repeated_vec(lowered.as_slice(), www.as_slice());
    let host_end = index_of_char(stripped.as_slice(), ':');
    proof {
        lemma_index_where(stripped@, is_char(':'));
    }
    let host = slice_vec(stripped.as_slice(), 0, host_end);
    let after = slice_vec(rest.as_slice(), e, rest.len());
    let mut q: usize = 0;
    while q < after.len() && !(after[q] == '?' || after[q] == '#')
        invariant
            q <= after.len(),
            forall|j: int| 0 <= j < q ==> !(ends_path())(#[trigger] after@[j]),
        decreases after.len() - q,
    {
        q = q + 1;
    }
    proof {
        lemma_index_where_unique(after@, ends_path(), q as int);
        lemma_index_where(stripped@, is_char(':'));
    }
    let path = lower_vec(slice_vec(after.as_slice(), 0, q).as_slice());
    Ok(classify_exec(host.as_slice(), path.as_slice()))
}


// ---------------------------------------------------------------------
// Padding and ASCII case
// ---------------------------------------------------------------------

proof fn lemma_forbidden_lower(c: char)
    ensures
        is_forbidden(lower_char(c)) == is_forbidden(c),
{
    lemma_lower_char(c);
}

proof fn lemma_label_ok_lower(l: Seq<char>)
    ensures
        label_ok(lower(l)) == label_ok(l),
{
    if l.len() > 0 {
        assert(lower(l)[0] == lower_char(l[0]));
        assert(lower(l).last() == lower_char(l.last()));
        lemma_lower_char(l[0]);
        lemma_lower_char(l.last());
    }
    if label_ok(l) {
        assert forall|i: int| 0 <= i < lower(l).len() implies is_ascii_alnum(
            #[trigger] lower(l)[i],
        ) || lower(l)[i] == '-' by {
            lemma_lower_char(l[i]);
        }
    }
    if label_ok(lower(l)) {
        assert forall|i: int| 0 <= i < l.len() implies is_ascii_alnum(#[trigger] l[i]) || l[i]
            == '-' by {
            assert(lower(l)[i] == lower_char(l[i]));
            lemma_lower_char(l[i]);
        }
    }
}

proof fn lemma_caseless_stops()
    ensures
        forall|c: char| #[trigger] (is_char('.'))(lower_char(c)) == (is_char('.'))(c),
        forall|c: char| #[trigger] (is_char(':'))(lower_char(c)) == (is_char(':'))(c),
        forall|c: char| #[trigger] (ends_authority())(lower_char(c)) == (ends_authority())(c),
        forall|c: char| #[trigger] (ends_path())(lower_char(c)) == (ends_path())(c),
{
    assert forall|c: char| #[trigger] (is_char('.'))(lower_char(c)) == (is_char('.'))(c) by {
        lemma_lower_char(c);
    }
    assert forall|c: char| #[trigger] (is_char(':'))(lower_char(c)) == (is_char(':'))(c) by {
        lemma_lower_char(c);
    }
    assert forall|c: char| #[trigger] (ends_authority())(lower_char(c)) == (ends_authority())(
        c,
    ) by {
        lemma_lower_char(c);
    }
    assert forall|c: char| #[trigger] (ends_path())(lower_char(c)) == (ends_path())(c) by {
        lemma_lower_char(c);
    }
}

proof fn lemma_labels_ok_lower(s: Seq<char>)
    ensures
        labels_ok(lower(s)) == labels_ok(s),
    decreases s.len(),
{
    lemma_caseless_stops();
    lemma_index_where_lower(s, is_char('.'));
    lemma_index_where(s, is_char('.'));
    let i = index_where(s, is_char('.'));
    if i >= s.len() {
        lemma_label_ok_lower(s);
    } else {
        lemma_lower_subrange(s, 0, i as int);
        lemma_lower_subrange(s, i as int + 1, s.len() as int);
        lemma_label_ok_lower(s.subrange(0, i as int));
        lemma_labels_ok_lower(s.subrange(i as int + 1, s.len() as int));
    }
}

proof fn lemma_authority_ok_lower(a: Seq<char>)
    ensures
        authority_ok(lower(a)) == authority_ok(a),
{
    lemma_last_index_of_lower(a, ':');
    lemma_last_index_of(a, ':');
    let k = last_index_of(a, ':');
    if k >= 0 {
        lemma_lower_subrange(a, k + 1, a.len() as int);
        lemma_lower_subrange(a, 0, k);
        let port = a.subrange(k + 1, a.len() as int);
        if all_digits(port) {
            assert(lower(port) =~= port);
        }
        if all_digits(lower(port)) {
            assert forall|i: int| 0 <= i < port.len() implies is_ascii_digit(port[i]) by {
                assert(lower(port)[i] == lower_char(port[i]));
                lemma_lower_char(port[i]);
            }
            assert(lower(port) =~= port);
        }
        lemma_labels_ok_lower(a.subrange(0, k));
    } else {
        lemma_labels_ok_lower(a);
    }
}

/// Surrounding white space does not change whether a URL is accepted or
/// which platform it is classified as.
pub proof fn lemma_platform_ignores_padding(url: Seq<char>)
    ensures
        platform_of(trim(url)) == platform_of(url),
{
    lemma_trim_twice(url);
}

/// ASCII case, in the scheme, the host or the path, does not change whether
/// a URL is accepted or which platform it is classified as.
pub proof fn lemma_platform_ignores_case(url: Seq<char>)
    ensures
        platform_of(lower(url)) == platform_of(url),
{
    let t = trim(url);
    let lt = lower(t);
    lemma_trim_lower(url);
    assert(trim(lower(url)) == lt);
    reveal_strlit("://");
    let sep = "://"@;
    assert forall|i: int| 0 <= i < sep.len() implies is_caseless(#[trigger] sep[i]) by {}
    lemma_first_occurrence_lower(t, sep, 0);
    lemma_first_occurrence(t, sep);
    match first_occurrence(t, sep) {
        None => {},
        Some(k) => {
            lemma_lower_subrange(t, 0, k);
            lemma_lower_twice(t.subrange(0, k));
            lemma_lower_subrange(t, k + 3, t.len() as int);
            let rest = t.subrange(k + 3, t.len() as int);
            assert((exists|i: int| 0 <= i < lt.len() && is_forbidden(#[trigger] lt[i])) == (exists|
                i: int,
            | 0 <= i < t.len() && is_forbidden(#[trigger] t[i]))) by {
                if exists|i: int| 0 <= i < lt.len() && is_forbidden(#[trigger] lt[i]) {
                    let i = choose|i: int| 0 <= i < lt.len() && is_forbidden(#[trigger] lt[i]);
                    lemma_forbidden_lower(t[i]);
                    assert(is_forbidden(t[i]));
                }
                if exists|i: int| 0 <= i < t.len() && is_forbidden(#[trigger] t[i]) {
                    let i = choose|i: int| 0 <= i < t.len() && is_forbidden(#[trigger] t[i]);
                    lemma_forbidden_lower(t[i]);
                    assert(is_forbidden(lt[i]));
                }
            }
            lemma_caseless_stops();
            lemma_index_where_lower(rest, ends_authority());
            lemma_index_where(rest, ends_authority());
            let e = index_where(rest, ends_authority()) as int;
            lemma_lower_subrange(rest, 0, e);
            lemma_lower_subrange(rest, e, rest.len() as int);
            let authority = rest.subrange(0, e);
            let after = rest.subrange(e, rest.len() as int);
            assert(lower(authority).contains('@') == authority.contains('@')) by {
                if lower(authority).contains('@') {
                    let i = choose|i: int| 0 <= i < lower(authority).len() && lower(authority)[i] == '@';
                    lemma_lower_char(authority[i]);
                    assert(authority[i] == '@');
                }
                if authority.contains('@') {
                    let i = choose|i: int| 0 <= i < authority.len() && authority[i] == '@';
                    lemma_lower_char(authority[i]);
                    assert(lower(authority)[i] == '@');
                }
            }
            lemma_authority_ok_lower(authority);
            lemma_lower_twice(authority);
            lemma_index_where_lower(after, ends_path());
            lemma_index_where(after, ends_path());
            lemma_lower_subrange(after, 0, index_where(after, ends_path()) as int);
            lemma_lower_twice(prefix_until(after, ends_path()));
        },
    }
}

/// Neither surrounding white space nor ASCII case changes whether a URL is
/// accepted or which platform it is classified as.
pub proof fn lemma_platform_of_normalised(url: Seq<char>)
    ensures
        platform_of(lower(trim(url))) == platform_of(url),
{
    lemma_platform_ignores_case(trim(url));
    lemma_platform_ignores_padding(url);
}


/// Which platform an accepted URL is, by its host (lower-cased, without
/// leading `www.` and port) and its lower-cased path: YouTube for
/// `youtube.com`, `m.youtube.com`, `music.youtube.com` (Shorts under
/// `/shorts/`) and `youtu.be`; Instagram for `instagram.com` and
/// `m.instagram.com` (Reels under `/reel/` or `/reels/`); TikTok for
/// `tiktok.com`, `m.`, `vt.` and `vm.tiktok.com`; Facebook for
/// `facebook.com`, `m.facebook.com` and `fb.watch`; X for `x.com`,
/// `twitter.com`, `mobile.twitter.com` and `t.co`; any other host is
/// generic. A refused URL has no platform.
pub proof fn lemma_platform_by_host(url: Seq<char>)
    ensures
        url_parts(url) is None <==> platform_of(url) is None,
        url_parts(url) matches Some((h, p)) ==> ({
            &&& (h == "youtube.com"@ || h == "m.youtube.com"@ || h == "music.youtube.com"@) ==> platform_of(url) == Some(
                if has_prefix(p, "/shorts/"@) {
                    Platform::YouTubeShorts
                } else {
                    Platform::YouTube
                },
            )
            &&& h == "youtu.be"@ ==> platform_of(url) == Some(Platform::YouTube)
            &&& (h == "instagram.com"@ || h == "m.instagram.com"@) ==> platform_of(url) == Some(
                if has_prefix(p, "/reel/"@) || has_prefix(p, "/reels/"@) {
                    Platform::InstagramReels
                } else {
                    Platform::Instagram
                },
            )
            &&& (h == "tiktok.com"@ || h == "m.tiktok.com"@ || h == "vt.tiktok.com"@ || h == "vm.tiktok.com"@) ==> platform_of(url) == Some(Platform::TikTok)
            &&& (h == "facebook.com"@ || h == "m.facebook.com"@ || h == "fb.watch"@) ==> platform_of(url) == Some(Platform::Facebook)
            &&& (h == "x.com"@ || h == "twitter.com"@ || h == "mobile.twitter.com"@ || h == "t.co"@) ==> platform_of(url) == Some(Platform::X)
            &&& !(h == "youtube.com"@ || h == "m.youtube.com"@ || h == "music.youtube.com"@ || h == "youtu.be"@ || h == "instagram.com"@ || h == "m.instagram.com"@ || h == "tiktok.com"@ || h == "m.tiktok.com"@ || h == "vt.tiktok.com"@ || h == "vm.tiktok.com"@ || h == "facebook.com"@ || h == "m.facebook.com"@ || h == "fb.watch"@ || h == "x.com"@ || h == "twitter.com"@ || h == "mobile.twitter.com"@ || h == "t.co"@) ==> platform_of(url) == Some(Platform::Generic)
        }),
{
    reveal_strlit("youtube.com");
    reveal_strlit("m.youtube.com");
    reveal_strlit("music.youtube.com");
    reveal_strlit("youtu.be");
    reveal_strlit("instagram.com");
    reveal_strlit("m.instagram.com");
    reveal_strlit("tiktok.com");
    reveal_strlit("m.tiktok.com");
    reveal_strlit("vt.tiktok.com");
    reveal_strlit("vm.tiktok.com");
    reveal_strlit("facebook.com");
    reveal_strlit("m.facebook.com");
    reveal_strlit("fb.watch");
    reveal_strlit("x.com");
    reveal_strlit("twitter.com");
    reveal_strlit("mobile.twitter.com");
    reveal_strlit("t.co");
    reveal_strlit("/shorts/");
    reveal_strlit("/reel/");
    reveal_strlit("/reels/");
    match url_parts(url) {
        Some((h, p)) => {
            assert(platform_of(url) == Some(classify(h, p)));
            assert("youtube.com"@.len() == 11 && "youtube.com"@[0] == 'y' && "youtube.com"@[1] == 'o');
            assert("m.youtube.com"@.len() == 13 && "m.youtube.com"@[0] == 'm' && "m.youtube.com"@[1] == '.');
            assert("music.youtube.com"@.len() == 17 && "music.youtube.com"@[0] == 'm' && "music.youtube.com"@[1] == 'u');
            assert("youtu.be"@.len() == 8 && "youtu.be"@[0] == 'y' && "youtu.be"@[1] == 'o');
            assert("instagram.com"@.len() == 13 && "instagram.com"@[0] == 'i' && "instagram.com"@[1] == 'n');
            assert("m.instagram.com"@.len() == 15 && "m.instagram.com"@[0] == 'm' && "m.instagram.com"@[1] == '.');
            assert("tiktok.com"@.len() == 10 && "tiktok.com"@[0] == 't' && "tiktok.com"@[1] == 'i');
            assert("m.tiktok.com"@.len() == 12 && "m.tiktok.com"@[0] == 'm' && "m.tiktok.com"@[1] == '.');
            assert("vt.tiktok.com"@.len() == 13 && "vt.tiktok.com"@[0] == 'v' && "vt.tiktok.com"@[1] == 't');
            assert("vm.tiktok.com"@.len() == 13 && "vm.tiktok.com"@[0] == 'v' && "vm.tiktok.com"@[1] == 'm');
            assert("facebook.com"@.len() == 12 && "facebook.com"@[0] == 'f' && "facebook.com"@[1] == 'a');
            assert("m.facebook.com"@.len() == 14 && "m.facebook.com"@[0] == 'm' && "m.facebook.com"@[1] == '.');
            assert("fb.watch"@.len() == 8 && "fb.watch"@[0] == 'f' && "fb.watch"@[1] == 'b');
            assert("x.com"@.len() == 5 && "x.com"@[0] == 'x' && "x.com"@[1] == '.');
            assert("twitter.com"@.len() == 11 && "twitter.com"@[0] == 't' && "twitter.com"@[1] == 'w');
            assert("mobile.twitter.com"@.len() == 18 && "mobile.twitter.com"@[0] == 'm' && "mobile.twitter.com"@[1] == 'o');
            assert("t.co"@.len() == 4 && "t.co"@[0] == 't' && "t.co"@[1] == '.');
        },
        None => {},
    }
}

} // verus!
