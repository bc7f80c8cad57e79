//! Conservative classification of yt-dlp error output.

use vstd::prelude::*;

use crate::text::{chars_of, concat3, contains_str, lower, lower_vec, seq_contains};

verus! {

/// How old the installed yt-dlp release is, as far as its version tells.
#[derive(Debug, Clone, Copy, PartialEq, Eq, Structural)]
pub enum VersionFreshness {
    Unknown,
    Current,
    OlderThan90Days,
}

#[derive(Debug, Clone, Copy, PartialEq, Eq, Structural)]
pub enum ErrorCause {
    AuthenticationRequired,
    GeoRestricted,
    MediaUnavailable,
    FormatUnavailable,
    OutdatedYtDlp,
    NetworkUnavailable,
}

#[derive(Debug, Clone)]
pub struct ErrorDiagnosis {
    pub cause: ErrorCause,
    pub summary: String,
    pub advice: String,
}

impl PartialEq for ErrorDiagnosis {
    fn eq(&self, other: &ErrorDiagnosis) -> (r: bool) {
        self.cause == other.cause && crate::text::str_eq(self.summary.as_str(), other.summary.as_str())
            && crate::text::str_eq(self.advice.as_str(), other.advice.as_str())
    }
}

impl vstd::std_specs::cmp::PartialEqSpecImpl for ErrorDiagnosis {
    open spec fn obeys_eq_spec() -> bool {
        true
    }

    open spec fn eq_spec(&self, other: &ErrorDiagnosis) -> bool {
        self.cause == other.cause && self.summary@ == other.summary@ && self.advice@ == other.advice@
    }
}

// ---------------------------------------------------------------------
// Signatures (on the lower-cased error text)
// ---------------------------------------------------------------------

pub open spec fn mentions_authentication(s: Seq<char>) -> bool {
    ||| seq_contains(s, "login required"@)
    ||| seq_contains(s, "log in to"@)
    ||| seq_contains(s, "sign in to"@)
    ||| seq_contains(s, "authentication required"@)
    ||| seq_contains(s, "confirm you’re not a bot"@)
    ||| seq_contains(s, "confirm you're not a bot"@)
    ||| seq_contains(s, "use --cookies"@)
    ||| seq_contains(s, "http error 401"@)
    ||| (seq_contains(s, "http error 403"@) && (seq_contains(s, "cookie"@) || seq_contains(
        s,
        "login"@,
    ) || seq_contains(s, "sign in"@) || seq_contains(s, "authentication"@)))
}

pub open spec fn mentions_geo_restriction(s: Seq<char>) -> bool {
    ||| seq_contains(s, "georestrictederror"@)
    ||| seq_contains(s, "geo-restricted"@)
    ||| seq_contains(s, "geo restricted"@)
    ||| seq_contains(s, "not available in your country"@)
    ||| seq_contains(s, "not available in your region"@)
}

pub open spec fn mentions_removal(s: Seq<char>) -> bool {
    ||| seq_contains(s, "has been removed"@)
    ||| seq_contains(s, "removed by the uploader"@)
    ||| seq_contains(s, "deleted by uploader"@)
    ||| seq_contains(s, "this video was deleted"@)
    ||| seq_contains(s, "content is no longer available"@)
}

pub open spec fn mentions_format(s: Seq<char>) -> bool {
    ||| seq_contains(s, "requested format is not available"@)
    ||| seq_contains(s, "no video formats found"@)
    ||| seq_contains(s, "no audio formats found"@)
    ||| seq_contains(s, "format selection failed"@)
}

pub open spec fn asks_for_update(s: Seq<char>) -> bool {
    ||| seq_contains(s, "please update to the latest version"@)
    ||| seq_contains(s, "update yt-dlp"@)
    ||| seq_contains(s, "your version of yt-dlp is out of date"@)
}

pub open spec fn mentions_extractor_failure(s: Seq<char>) -> bool {
    ||| seq_contains(s, "nsig extraction failed"@)
    ||| seq_contains(s, "signature extraction failed"@)
    ||| seq_contains(s, "unable to extract"@)
    ||| seq_contains(s, "player response"@)
}

pub open spec fn mentions_network(s: Seq<char>) -> bool {
    ||| seq_contains(s, "temporary failure in name resolution"@)
    ||| seq_contains(s, "name or service not known"@)
    ||| seq_contains(s, "nodename nor servname provided"@)
    ||| seq_contains(s, "connection timed out"@)
    ||| seq_contains(s, "connection refused"@)
    ||| seq_contains(s, "connection reset"@)
    ||| seq_contains(s, "network is unreachable"@)
    ||| seq_contains(s, "unable to download webpage"@)
    ||| seq_contains(s, "ssl: certificate"@)
    ||| seq_contains(s, "tls handshake"@)
}

/// The summary of an outdated-yt-dlp diagnosis.
pub open spec fn outdated_summary(version: Option<Seq<char>>) -> Seq<char> {
    match version {
        None => "The installed yt-dlp may be outdated."@,
        Some(v) => "The installed yt-dlp version ("@ + v + ") may be outdated."@,
    }
}

/// The diagnosis of an error text, as cause, summary and advice. The first
/// signature that matches decides; nothing is guessed when none matches.
pub open spec fn diagnosis_of(
    stderr: Seq<char>,
    version: Option<Seq<char>>,
    freshness: VersionFreshness,
) -> Option<(ErrorCause, Seq<char>, Seq<char>)> {
    let s = lower(stderr);
    if mentions_authentication(s) {
        Some(
            (
                ErrorCause::AuthenticationRequired,
                "This site appears to require authentication."@,
                "Confirm that you are authorized to access the content, then configure a browser session or cookie file in /settings."@,
            ),
        )
    } else if mentions_geo_restriction(s) {
        Some(
            (
                ErrorCause::GeoRestricted,
                "The media appears to be unavailable in the current region."@,
                "dloor does not bypass regional restrictions. Verify that the content is lawfully available from your location."@,
            ),
        )
    } else if mentions_removal(s) {
        Some(
            (
                ErrorCause::MediaUnavailable,
                "The media appears to have been removed or is no longer available."@,
                "Verify the URL in a browser. Removed media cannot be downloaded by updating settings."@,
            ),
        )
    } else if mentions_format(s) {
        Some(
            (
                ErrorCause::FormatUnavailable,
                "The requested media format is not available."@,
                "Return to the format or quality screen and try Best, or refresh metadata after updating yt-dlp."@,
            ),
        )
    } else if asks_for_update(s) || (mentions_extractor_failure(s) && freshness
        == VersionFreshness::OlderThan90Days) {
        Some(
            (
                ErrorCause::OutdatedYtDlp,
                outdated_summary(version),
                "Run /update. If self-update is unavailable, use the package manager that installed yt-dlp."@,
            ),
        )
    } else if mentions_network(s) {
        Some(
            (
                ErrorCause::NetworkUnavailable,
                "The network request could not reach the media site."@,
                "Check DNS, connectivity, proxy settings, and TLS inspection, then retry."@,
            ),
        )
    } else {
        None
    }
}

// ---------------------------------------------------------------------
// Executable checks
// ---------------------------------------------------------------------

fn authentication(s: &[char]) -> (b: bool)
    ensures
        b == mentions_authentication(s@),
{
    contains_str(s, "login required") || contains_str(s, "log in to") || contains_str(
        s,
        "sign in to",
    ) || contains_str(s, "authentication required") || contains_str(
        s,
        "confirm you’re not a bot",
    ) || contains_str(s, "confirm you're not a bot") || contains_str(s, "use --cookies")
        || contains_str(s, "http error 401") || (contains_str(s, "http error 403") && (
    contains_str(s, "cookie") || contains_str(s, "login") || contains_str(s, "sign in")
        || contains_str(s, "authentication")))
}

fn geo_restriction(s: &[char]) -> (b: bool)
    ensures
        b == mentions_geo_restriction(s@),
{
    contains_str(s, "georestrictederror") || contains_str(s, "geo-restricted") || contains_str(
        s,
        "geo restricted",
    ) || contains_str(s, "not available in your country") || contains_str(
        s,
        "not available in your region",
    )
}

fn removal(s: &[char]) -> (b: bool)
    ensures
        b == mentions_removal(s@),
{
    contains_str(s, "has been removed") || contains_str(s, "removed by the uploader")
        || contains_str(s, "deleted by uploader") || contains_str(s, "this video was deleted")
        || contains_str(s, "content is no longer available")
}

fn format_failure(s: &[char]) -> (b: bool)
    ensures
        b == mentions_format(s@),
{
    contains_str(s, "requested format is not available") || contains_str(
        s,
        "no video formats found",
    ) || contains_str(s, "no audio formats found") || contains_str(s, "format selection failed")
}

fn update_request(s: &[char]) -> (b: bool)
    ensures
        b == asks_for_update(s@),
{
    contains_str(s, "please update to the latest version") || contains_str(s, "update yt-dlp")
        || contains_str(s, "your version of yt-dlp is out of date")
}

fn extractor_failure(s: &[char]) -> (b: bool)
    ensures
        b == mentions_extractor_failure(s@),
{
    contains_str(s, "nsig extraction failed") || contains_str(s, "signature extraction failed")
        || contains_str(s, "unable to extract") || contains_str(s, "player response")
}

fn network(s: &[char]) -> (b: bool)
    ensures
        b == mentions_network(s@),
{
    contains_str(s, "temporary failure in name resolution") || contains_str(
        s,
        "name or service not known",
    ) || contains_str(s, "nodename nor servname provided") || contains_str(
        s,
        "connection timed out",
    ) || contains_str(s, "connection refused") || contains_str(s, "connection reset")
        || contains_str(s, "network is unreachable") || contains_str(
        s,
        "unable to download webpage",
    ) || contains_str(s, "ssl: certificate") || contains_str(s, "tls handshake")
}

fn diagnosis(cause: ErrorCause, summary: &str, advice: &str) -> (d: ErrorDiagnosis)
    ensures
        d.cause == cause,
        d.summary@ == summary@,
        d.advice@ == advice@,
{
    ErrorDiagnosis { cause, summary: summary.to_owned(), advice: advice.to_owned() }
}

/// Recognizes a few well-known shapes of yt-dlp failures. Returns `None`
/// when the message is ambiguous.
pub fn diagnose_ytdlp_error(
    stderr: &str,
    yt_dlp_version: Option<&str>,
    freshness: VersionFreshness,
) -> (r: Option<ErrorDiagnosis>)
    ensures
        match diagnosis_of(
            stderr@,
            match yt_dlp_version {
                Some(v) => Some(v@),
                None => None,
            },
            freshness,
        ) {
            None => r is None,
            Some((cause, summary, advice)) => r matches Some(d) && d.cause == cause && d.summary@
                == summary && d.advice@ == advice,
        },
{
    let raw = chars_of(stderr);
    let s = lower_vec(raw.as_slice());
    if authentication(s.as_slice()) {
        return Some(
            diagnosis(
                ErrorCause::AuthenticationRequired,
                "This site appears to require authentication.",
                "Confirm that you are authorized to access the content, then configure a browser session or cookie file in /settings.",
            ),
        );
    }
    if geo_restriction(s.as_slice()) {
        return Some(
            diagnosis(
                ErrorCause::GeoRestricted,
                "The media appears to be unavailable in the current region.",
                "dloor does not bypass regional restrictions. Verify that the content is lawfully available from your location.",
            ),
        );
    }
    if removal(s.as_slice()) {
        return Some(
            diagnosis(
                ErrorCause::MediaUnavailable,
                "The media appears to have been removed or is no longer available.",
                "Verify the URL in a browser. Removed media cannot be downloaded by updating settings.",
            ),
        );
    }
    if format_failure(s.as_slice()) {
        return Some(
            diagnosis(
                ErrorCause::FormatUnavailable,
                "The requested media format is not available.",
                "Return to the format or quality screen and try Best, or refresh metadata after updating yt-dlp.",
            ),
        );
    }
    let explicit_update = update_request(s.as_slice());
    let extractor = extractor_failure(s.as_slice());
    if explicit_update || (extractor && freshness == VersionFreshness::OlderThan90Days) {
        let summary = match yt_dlp_version {
            None => "The installed yt-dlp may be outdated.".to_owned(),
            Some(version) => concat3(
                "The installed yt-dlp version (",
                version,
                ") may be outdated.",
            ),
        };
        return Some(
            ErrorDiagnosis {
                cause: ErrorCause::OutdatedYtDlp,
                summary,
                advice: "Run /update. If self-update is unavailable, use the package manager that installed yt-dlp.".to_owned(),
            },
        );
    }
    if network(s.as_slice()) {
        return Some(
            diagnosis(
                ErrorCause::NetworkUnavailable,
                "The network request could not reach the media site.",
                "Check DNS, connectivity, proxy settings, and TLS inspection, then retry.",
            ),
        );
    }
    None
}

// ---------------------------------------------------------------------
// What each kind of error text is diagnosed as
// ---------------------------------------------------------------------

/// An error text with an authentication signature (a login or sign-in request, a bot check, a cookie hint, HTTP 401, or HTTP 403 with a login or cookie hint) in any ASCII case, and none of the kinds checked before it,
/// is diagnosed as `AuthenticationRequired`; and only such a text is.
pub proof fn lemma_authentication_diagnosis(stderr: Seq<char>, version: Option<Seq<char>>, freshness: VersionFreshness)
    ensures
        ({
            let s = lower(stderr);
            (true && ((seq_contains(s, "login required"@) || seq_contains(s, "log in to"@) || seq_contains(s, "sign in to"@) || seq_contains(s, "authentication required"@) || seq_contains(s, "confirm you’re not a bot"@) || seq_contains(s, "confirm you're not a bot"@) || seq_contains(s, "use --cookies"@) || seq_contains(s, "http error 401"@)) || (seq_contains(s, "http error 403"@) && (seq_contains(s, "cookie"@) || seq_contains(s, "login"@) || seq_contains(s, "sign in"@) || seq_contains(s, "authentication"@))))) <==> (diagnosis_of(stderr, version, freshness) matches Some((c, _, _)) && c == ErrorCause::AuthenticationRequired)
        }),
        ({
            let s = lower(stderr);
            (true && ((seq_contains(s, "login required"@) || seq_contains(s, "log in to"@) || seq_contains(s, "sign in to"@) || seq_contains(s, "authentication required"@) || seq_contains(s, "confirm you’re not a bot"@) || seq_contains(s, "confirm you're not a bot"@) || seq_contains(s, "use --cookies"@) || seq_contains(s, "http error 401"@)) || (seq_contains(s, "http error 403"@) && (seq_contains(s, "cookie"@) || seq_contains(s, "login"@) || seq_contains(s, "sign in"@) || seq_contains(s, "authentication"@))))) ==> (diagnosis_of(stderr, version, freshness) matches Some((_, summary, advice)) && summary == "This site appears to require authentication."@ && advice == "Confirm that you are authorized to access the content, then configure a browser session or cookie file in /settings."@)
        }),
{
}

/// An error text with a regional-restriction signature in any ASCII case, and none of the kinds checked before it,
/// is diagnosed as `GeoRestricted`; and only such a text is.
pub proof fn lemma_region_diagnosis(stderr: Seq<char>, version: Option<Seq<char>>, freshness: VersionFreshness)
    ensures
        ({
            let s = lower(stderr);
            (!((seq_contains(s, "login required"@) || seq_contains(s, "log in to"@) || seq_contains(s, "sign in to"@) || seq_contains(s, "authentication required"@) || seq_contains(s, "confirm you’re not a bot"@) || seq_contains(s, "confirm you're not a bot"@) || seq_contains(s, "use --cookies"@) || seq_contains(s, "http error 401"@)) || (seq_contains(s, "http error 403"@) && (seq_contains(s, "cookie"@) || seq_contains(s, "login"@) || seq_contains(s, "sign in"@) || seq_contains(s, "authentication"@)))) && (seq_contains(s, "georestrictederror"@) || seq_contains(s, "geo-restricted"@) || seq_contains(s, "geo restricted"@) || seq_contains(s, "not available in your country"@) || seq_contains(s, "not available in your region"@))) <==> (diagnosis_of(stderr, version, freshness) matches Some((c, _, _)) && c == ErrorCause::GeoRestricted)
        }),
        ({
            let s = lower(stderr);
            (!((seq_contains(s, "login required"@) || seq_contains(s, "log in to"@) || seq_contains(s, "sign in to"@) || seq_contains(s, "authentication required"@) || seq_contains(s, "confirm you’re not a bot"@) || seq_contains(s, "confirm you're not a bot"@) || seq_contains(s, "use --cookies"@) || seq_contains(s, "http error 401"@)) || (seq_contains(s, "http error 403"@) && (seq_contains(s, "cookie"@) || seq_contains(s, "login"@) || seq_contains(s, "sign in"@) || seq_contains(s, "authentication"@)))) && (seq_contains(s, "georestrictederror"@) || seq_contains(s, "geo-restricted"@) || seq_contains(s, "geo restricted"@) || seq_contains(s, "not available in your country"@) || seq_contains(s, "not available in your region"@))) ==> (diagnosis_of(stderr, version, freshness) matches Some((_, summary, advice)) && summary == "The media appears to be unavailable in the current region."@ && advice == "dloor does not bypass regional restrictions. Verify that the content is lawfully available from your location."@)
        }),
{
}

/// An error text with a removal signature in any ASCII case, and none of the kinds checked before it,
/// is diagnosed as `MediaUnavailable`; and only such a text is.
pub proof fn lemma_removal_diagnosis(stderr: Seq<char>, version: Option<Seq<char>>, freshness: VersionFreshness)
    ensures
        ({
            let s = lower(stderr);
            (!((seq_contains(s, "login required"@) || seq_contains(s, "log in to"@) || seq_contains(s, "sign in to"@) || seq_contains(s, "authentication required"@) || seq_contains(s, "confirm you’re not a bot"@) || seq_contains(s, "confirm you're not a bot"@) || seq_contains(s, "use --cookies"@) || seq_contains(s, "http error 401"@)) || (seq_contains(s, "http error 403"@) && (seq_contains(s, "cookie"@) || seq_contains(s, "login"@) || seq_contains(s, "sign in"@) || seq_contains(s, "authentication"@)))) && !(seq_contains(s, "georestrictederror"@) || seq_contains(s, "geo-restricted"@) || seq_contains(s, "geo restricted"@) || seq_contains(s, "not available in your country"@) || seq_contains(s, "not available in your region"@)) && (seq_contains(s, "has been removed"@) || seq_contains(s, "removed by the uploader"@) || seq_contains(s, "deleted by uploader"@) || seq_contains(s, "this video was deleted"@) || seq_contains(s, "content is no longer available"@))) <==> (diagnosis_of(stderr, version, freshness) matches Some((c, _, _)) && c == ErrorCause::MediaUnavailable)
        }),
        ({
            let s = lower(stderr);
            (!((seq_contains(s, "login required"@) || seq_contains(s, "log in to"@) || seq_contains(s, "sign in to"@) || seq_contains(s, "authentication required"@) || seq_contains(s, "confirm you’re not a bot"@) || seq_contains(s, "confirm you're not a bot"@) || seq_contains(s, "use --cookies"@) || seq_contains(s, "http error 401"@)) || (seq_contains(s, "http error 403"@) && (seq_contains(s, "cookie"@) || seq_contains(s, "login"@) || seq_contains(s, "sign in"@) || seq_contains(s, "authentication"@)))) && !(seq_contains(s, "georestrictederror"@) || seq_contains(s, "geo-restricted"@) || seq_contains(s, "geo restricted"@) || seq_contains(s, "not available in your country"@) || seq_contains(s, "not available in your region"@)) && (seq_contains(s, "has been removed"@) || seq_contains(s, "removed by the uploader"@) || seq_contains(s, "deleted by uploader"@) || seq_contains(s, "this video was deleted"@) || seq_contains(s, "content is no longer available"@))) ==> (diagnosis_of(stderr, version, freshness) matches Some((_, summary, advice)) && summary == "The media appears to have been removed or is no longer available."@ && advice == "Verify the URL in a browser. Removed media cannot be downloaded by updating settings."@)
        }),
{
}

/// An error text with a missing-format signature in any ASCII case, and none of the kinds checked before it,
/// is diagnosed as `FormatUnavailable`; and only such a text is.
pub proof fn lemma_format_diagnosis(stderr: Seq<char>, version: Option<Seq<char>>, freshness: VersionFreshness)
    ensures
        ({
            let s = lower(stderr);
            (!((seq_contains(s, "login required"@) || seq_contains(s, "log in to"@) || seq_contains(s, "sign in to"@) || seq_contains(s, "authentication required"@) || seq_contains(s, "confirm you’re not a bot"@) || seq_contains(s, "confirm you're not a bot"@) || seq_contains(s, "use --cookies"@) || seq_contains(s, "http error 401"@)) || (seq_contains(s, "http error 403"@) && (seq_contains(s, "cookie"@) || seq_contains(s, "login"@) || seq_contains(s, "sign in"@) || seq_contains(s, "authentication"@)))) && !(seq_contains(s, "georestrictederror"@) || seq_contains(s, "geo-restricted"@) || seq_contains(s, "geo restricted"@) || seq_contains(s, "not available in your country"@) || seq_contains(s, "not available in your region"@)) && !(seq_contains(s, "has been removed"@) || seq_contains(s, "removed by the uploader"@) || seq_contains(s, "deleted by uploader"@) || seq_contains(s, "this video was deleted"@) || seq_contains(s, "content is no longer available"@)) && (seq_contains(s, "requested format is not available"@) || seq_contains(s, "no video formats found"@) || seq_contains(s, "no audio formats found"@) || seq_contains(s, "format selection failed"@))) <==> (diagnosis_of(stderr, version, freshness) matches Some((c, _, _)) && c == ErrorCause::FormatUnavailable)
        }),
        ({
            let s = lower(stderr);
            (!((seq_contains(s, "login required"@) || seq_contains(s, "log in to"@) || seq_contains(s, "sign in to"@) || seq_contains(s, "authentication required"@) || seq_contains(s, "confirm you’re not a bot"@) || seq_contains(s, "confirm you're not a bot"@) || seq_contains(s, "use --cookies"@) || seq_contains(s, "http error 401"@)) || (seq_contains(s, "http error 403"@) && (seq_contains(s, "cookie"@) || seq_contains(s, "login"@) || seq_contains(s, "sign in"@) || seq_contains(s, "authentication"@)))) && !(seq_contains(s, "georestrictederror"@) || seq_contains(s, "geo-restricted"@) || seq_contains(s, "geo restricted"@) || seq_contains(s, "not available in your country"@) || seq_contains(s, "not available in your region"@)) && !(seq_contains(s, "has been removed"@) || seq_contains(s, "removed by the uploader"@) || seq_contains(s, "deleted by uploader"@) || seq_contains(s, "this video was deleted"@) || seq_contains(s, "content is no longer available"@)) && (seq_contains(s, "requested format is not available"@) || seq_contains(s, "no video formats found"@) || seq_contains(s, "no audio formats found"@) || seq_contains(s, "format selection failed"@))) ==> (diagnosis_of(stderr, version, freshness) matches Some((_, summary, advice)) && summary == "The requested media format is not available."@ && advice == "Return to the format or quality screen and try Best, or refresh metadata after updating yt-dlp."@)
        }),
{
}

/// An error text with an update request, or an extractor failure with a yt-dlp older than 90 days, in any ASCII case, and none of the kinds checked before it,
/// is diagnosed as `OutdatedYtDlp`; and only such a text is.
pub proof fn lemma_outdated_diagnosis(stderr: Seq<char>, version: Option<Seq<char>>, freshness: VersionFreshness)
    ensures
        ({
            let s = lower(stderr);
            (!((seq_contains(s, "login required"@) || seq_contains(s, "log in to"@) || seq_contains(s, "sign in to"@) || seq_contains(s, "authentication required"@) || seq_contains(s, "confirm you’re not a bot"@) || seq_contains(s, "confirm you're not a bot"@) || seq_contains(s, "use --cookies"@) || seq_contains(s, "http error 401"@)) || (seq_contains(s, "http error 403"@) && (seq_contains(s, "cookie"@) || seq_contains(s, "login"@) || seq_contains(s, "sign in"@) || seq_contains(s, "authentication"@)))) && !(seq_contains(s, "georestrictederror"@) || seq_contains(s, "geo-restricted"@) || seq_contains(s, "geo restricted"@) || seq_contains(s, "not available in your country"@) || seq_contains(s, "not available in your region"@)) && !(seq_contains(s, "has been removed"@) || seq_contains(s, "removed by the uploader"@) || seq_contains(s, "deleted by uploader"@) || seq_contains(s, "this video was deleted"@) || seq_contains(s, "content is no longer available"@)) && !(seq_contains(s, "requested format is not available"@) || seq_contains(s, "no video formats found"@) || seq_contains(s, "no audio formats found"@) || seq_contains(s, "format selection failed"@)) && ((seq_contains(s, "please update to the latest version"@) || seq_contains(s, "update yt-dlp"@) || seq_contains(s, "your version of yt-dlp is out of date"@)) || ((seq_contains(s, "nsig extraction failed"@) || seq_contains(s, "signature extraction failed"@) || seq_contains(s, "unable to extract"@) || seq_contains(s, "player response"@)) && freshness == VersionFreshness::OlderThan90Days))) <==> (diagnosis_of(stderr, version, freshness) matches Some((c, _, _)) && c == ErrorCause::OutdatedYtDlp)
        }),
        ({
            let s = lower(stderr);
            (!((seq_contains(s, "login required"@) || seq_contains(s, "log in to"@) || seq_contains(s, "sign in to"@) || seq_contains(s, "authentication required"@) || seq_contains(s, "confirm you’re not a bot"@) || seq_contains(s, "confirm you're not a bot"@) || seq_contains(s, "use --cookies"@) || seq_contains(s, "http error 401"@)) || (seq_contains(s, "http error 403"@) && (seq_contains(s, "cookie"@) || seq_contains(s, "login"@) || seq_contains(s, "sign in"@) || seq_contains(s, "authentication"@)))) && !(seq_contains(s, "georestrictederror"@) || seq_contains(s, "geo-restricted"@) || seq_contains(s, "geo restricted"@) || seq_contains(s, "not available in your country"@) || seq_contains(s, "not available in your region"@)) && !(seq_contains(s, "has been removed"@) || seq_contains(s, "removed by the uploader"@) || seq_contains(s, "deleted by uploader"@) || seq_contains(s, "this video was deleted"@) || seq_contains(s, "content is no longer available"@)) && !(seq_contains(s, "requested format is not available"@) || seq_contains(s, "no video formats found"@) || seq_contains(s, "no audio formats found"@) || seq_contains(s, "format selection failed"@)) && ((seq_contains(s, "please update to the latest version"@) || seq_contains(s, "update yt-dlp"@) || seq_contains(s, "your version of yt-dlp is out of date"@)) || ((seq_contains(s, "nsig extraction failed"@) || seq_contains(s, "signature extraction failed"@) || seq_contains(s, "unable to extract"@) || seq_contains(s, "player response"@)) && freshness == VersionFreshness::OlderThan90Days))) ==> (diagnosis_of(stderr, version, freshness) matches Some((_, summary, advice)) && summary == outdated_summary(version) && advice == "Run /update. If self-update is unavailable, use the package manager that installed yt-dlp."@)
        }),
{
}

/// An error text with a network signature (name resolution, a refused, reset or timed-out connection, an unreachable network, a failed webpage download, or a TLS failure) in any ASCII case, and none of the kinds checked before it,
/// is diagnosed as `NetworkUnavailable`; and only such a text is.
pub proof fn lemma_network_diagnosis(stderr: Seq<char>, version: Option<Seq<char>>, freshness: VersionFreshness)
    ensures
        ({
            let s = lower(stderr);
            (!((seq_contains(s, "login required"@) || seq_contains(s, "log in to"@) || seq_contains(s, "sign in to"@) || seq_contains(s, "authentication required"@) || seq_contains(s, "confirm you’re not a bot"@) || seq_contains(s, "confirm you're not a bot"@) || seq_contains(s, "use --cookies"@) || seq_contains(s, "http error 401"@)) || (seq_contains(s, "http error 403"@) && (seq_contains(s, "cookie"@) || seq_contains(s, "login"@) || seq_contains(s, "sign in"@) || seq_contains(s, "authentication"@)))) && !(seq_contains(s, "georestrictederror"@) || seq_contains(s, "geo-restricted"@) || seq_contains(s, "geo restricted"@) || seq_contains(s, "not available in your country"@) || seq_contains(s, "not available in your region"@)) && !(seq_contains(s, "has been removed"@) || seq_contains(s, "removed by the uploader"@) || seq_contains(s, "deleted by uploader"@) || seq_contains(s, "this video was deleted"@) || seq_contains(s, "content is no longer available"@)) && !(seq_contains(s, "requested format is not available"@) || seq_contains(s, "no video formats found"@) || seq_contains(s, "no audio formats found"@) || seq_contains(s, "format selection failed"@)) && !((seq_contains(s, "please update to the latest version"@) || seq_contains(s, "update yt-dlp"@) || seq_contains(s, "your version of yt-dlp is out of date"@)) || ((seq_contains(s, "nsig extraction failed"@) || seq_contains(s, "signature extraction failed"@) || seq_contains(s, "unable to extract"@) || seq_contains(s, "player response"@)) && freshness == VersionFreshness::OlderThan90Days)) && (seq_contains(s, "temporary failure in name resolution"@) || seq_contains(s, "name or service not known"@) || seq_contains(s, "nodename nor servname provided"@) || seq_contains(s, "connection timed out"@) || seq_contains(s, "connection refused"@) || seq_contains(s, "connection reset"@) || seq_contains(s, "network is unreachable"@) || seq_contains(s, "unable to download webpage"@) || seq_contains(s, "ssl: certificate"@) || seq_contains(s, "tls handshake"@))) <==> (diagnosis_of(stderr, version, freshness) matches Some((c, _, _)) && c == ErrorCause::NetworkUnavailable)
        }),
        ({
            let s = lower(stderr);
            (!((seq_contains(s, "login required"@) || seq_contains(s, "log in to"@) || seq_contains(s, "sign in to"@) || seq_contains(s, "authentication required"@) || seq_contains(s, "confirm you’re not a bot"@) || seq_contains(s, "confirm you're not a bot"@) || seq_contains(s, "use --cookies"@) || seq_contains(s, "http error 401"@)) || (seq_contains(s, "http error 403"@) && (seq_contains(s, "cookie"@) || seq_contains(s, "login"@) || seq_contains(s, "sign in"@) || seq_contains(s, "authentication"@)))) && !(seq_contains(s, "georestrictederror"@) || seq_contains(s, "geo-restricted"@) || seq_contains(s, "geo restricted"@) || seq_contains(s, "not available in your country"@) || seq_contains(s, "not available in your region"@)) && !(seq_contains(s, "has been removed"@) || seq_contains(s, "removed by the uploader"@) || seq_contains(s, "deleted by uploader"@) || seq_contains(s, "this video was deleted"@) || seq_contains(s, "content is no longer available"@)) && !(seq_contains(s, "requested format is not available"@) || seq_contains(s, "no video formats found"@) || seq_contains(s, "no audio formats found"@) || seq_contains(s, "format selection failed"@)) && !((seq_contains(s, "please update to the latest version"@) || seq_contains(s, "update yt-dlp"@) || seq_contains(s, "your version of yt-dlp is out of date"@)) || ((seq_contains(s, "nsig extraction failed"@) || seq_contains(s, "signature extraction failed"@) || seq_contains(s, "unable to extract"@) || seq_contains(s, "player response"@)) && freshness == VersionFreshness::OlderThan90Days)) && (seq_contains(s, "temporary failure in name resolution"@) || seq_contains(s, "name or service not known"@) || seq_contains(s, "nodename nor servname provided"@) || seq_contains(s, "connection timed out"@) || seq_contains(s, "connection refused"@) || seq_contains(s, "connection reset"@) || seq_contains(s, "network is unreachable"@) || seq_contains(s, "unable to download webpage"@) || seq_contains(s, "ssl: certificate"@) || seq_contains(s, "tls handshake"@))) ==> (diagnosis_of(stderr, version, freshness) matches Some((_, summary, advice)) && summary == "The network request could not reach the media site."@ && advice == "Check DNS, connectivity, proxy settings, and TLS inspection, then retry."@)
        }),
{
}

/// An error text with no known signature is not diagnosed: nothing is
/// guessed.
pub proof fn lemma_unknown_errors_are_not_diagnosed(stderr: Seq<char>, version: Option<Seq<char>>, freshness: VersionFreshness)
    ensures
        ({
            let s = lower(stderr);
            (!((seq_contains(s, "login required"@) || seq_contains(s, "log in to"@) || seq_contains(s, "sign in to"@) || seq_contains(s, "authentication required"@) || seq_contains(s, "confirm you’re not a bot"@) || seq_contains(s, "confirm you're not a bot"@) || seq_contains(s, "use --cookies"@) || seq_contains(s, "http error 401"@)) || (seq_contains(s, "http error 403"@) && (seq_contains(s, "cookie"@) || seq_contains(s, "login"@) || seq_contains(s, "sign in"@) || seq_contains(s, "authentication"@)))) && !(seq_contains(s, "georestrictederror"@) || seq_contains(s, "geo-restricted"@) || seq_contains(s, "geo restricted"@) || seq_contains(s, "not available in your country"@) || seq_contains(s, "not available in your region"@)) && !(seq_contains(s, "has been removed"@) || seq_contains(s, "removed by the uploader"@) || seq_contains(s, "deleted by uploader"@) || seq_contains(s, "this video was deleted"@) || seq_contains(s, "content is no longer available"@)) && !(seq_contains(s, "requested format is not available"@) || seq_contains(s, "no video formats found"@) || seq_contains(s, "no audio formats found"@) || seq_contains(s, "format selection failed"@)) && !((seq_contains(s, "please update to the latest version"@) || seq_contains(s, "update yt-dlp"@) || seq_contains(s, "your version of yt-dlp is out of date"@)) || ((seq_contains(s, "nsig extraction failed"@) || seq_contains(s, "signature extraction failed"@) || seq_contains(s, "unable to extract"@) || seq_contains(s, "player response"@)) && freshness == VersionFreshness::OlderThan90Days)) && !(seq_contains(s, "temporary failure in name resolution"@) || seq_contains(s, "name or service not known"@) || seq_contains(s, "nodename nor servname provided"@) || seq_contains(s, "connection timed out"@) || seq_contains(s, "connection refused"@) || seq_contains(s, "connection reset"@) || seq_contains(s, "network is unreachable"@) || seq_contains(s, "unable to download webpage"@) || seq_contains(s, "ssl: certificate"@) || seq_contains(s, "tls handshake"@))) <==> diagnosis_of(stderr, version, freshness) is None
        }),
{
}

} // verus!
