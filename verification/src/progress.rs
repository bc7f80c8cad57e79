//! Download progress: yt-dlp's progress records, combined over the streams
//! of an item and the items of a playlist into one figure that never goes
//! back.
//!
//! Percentages are hundredths of a percent (0 to 10000); the part of an item
//! that is done is counted in millionths.

use vstd::prelude::*;

use crate::download::{
    lemma_splitn_len, pair_views, parse_plan_line, plan_record, split_fields, splitn_bar,
    DownloadProgress, ProgressPlan,
};
use crate::text::{
    all_digits, chars_eq, chars_of, decimal_value, digit_value, has_prefix, index_of_char_from,
    index_where, is_char, is_ascii_digit, is_digit, lemma_index_where, lemma_trailing_count,
    parse_u64, parse_u64_spec, slice_vec, starts_with, string_from_chars, trailing_count, trim,
    trim_vec,
};

use std::collections::HashMap;

verus! {

broadcast use vstd::string::group_string_axioms, vstd::std_specs::hash::group_hash_axioms;

/// A whole item, in millionths.
pub const ITEM_SCALE: u64 = 1000000;

/// A whole job, in hundredths of a percent.
pub const PERCENT_SCALE: u64 = 10000;

// ---------------------------------------------------------------------
// Progress records
// ---------------------------------------------------------------------

/// The percent field without its `%` signs and surrounding blanks.
pub open spec fn percent_text(t: Seq<char>) -> Seq<char> {
    trim(t.subrange(0, t.len() - trailing_count(t, '%')))
}

/// A decimal percentage (`42`, `42.7`, `.5`, `100.`) in hundredths, further
/// decimals dropped.
pub open spec fn percent_hundredths(t: Seq<char>) -> Option<nat> {
    let dot = index_where(t, is_char('.'));
    let whole = t.subrange(0, dot as int);
    let frac = if dot < t.len() {
        t.subrange(dot as int + 1, t.len() as int)
    } else {
        Seq::empty()
    };
    if all_digits(whole) && all_digits(frac) && whole.len() + frac.len() > 0 {
        Some(
            decimal_value(whole) * 100 + (if frac.len() > 0 {
                digit_value(frac[0]) * 10
            } else {
                0
            }) + (if frac.len() > 1 {
                digit_value(frac[1])
            } else {
                0
            }),
        )
    } else {
        None
    }
}

/// What a progress record reports.
pub struct ProgressRecord {
    pub percent: nat,
    pub downloaded: Option<u64>,
    pub total: Option<u64>,
    pub playlist_index: Option<u64>,
    pub n_entries: Option<u64>,
    pub format_id: Seq<char>,
    pub speed: Seq<char>,
    pub eta: Seq<char>,
}

pub open spec fn progress_prefix() -> Seq<char> {
    "DLOOR_PROGRESS|"@
}

/// A progress record
/// (`DLOOR_PROGRESS|percent|downloaded|total|index|entries|format|speed|eta`);
/// the percentage is kept to 100.
pub open spec fn progress_record(line: Seq<char>) -> Option<ProgressRecord> {
    if !has_prefix(line, progress_prefix()) {
        None
    } else {
        let f = splitn_bar(line.subrange(progress_prefix().len() as int, line.len() as int), 8);
        if f.len() < 6 {
            None
        } else {
            match percent_hundredths(percent_text(trim(f[0]))) {
                None => None,
                Some(p) => Some(
                    ProgressRecord {
                        percent: if p > 10000 {
                            10000
                        } else {
                            p
                        },
                        downloaded: parse_u64_spec(trim(f[1])),
                        total: parse_u64_spec(trim(f[2])),
                        playlist_index: parse_u64_spec(trim(f[3])),
                        n_entries: parse_u64_spec(trim(f[4])),
                        format_id: trim(f[5]),
                        speed: if f.len() > 6 {
                            trim(f[6])
                        } else {
                            Seq::empty()
                        },
                        eta: if f.len() > 7 {
                            trim(f[7])
                        } else {
                            Seq::empty()
                        },
                    },
                ),
            }
        }
    }
}

/// A progress record as read from a line.
pub struct ParsedProgress {
    pub percent: u64,
    pub downloaded_bytes: Option<u64>,
    pub total_bytes: Option<u64>,
    pub playlist_index: Option<u64>,
    pub n_entries: Option<u64>,
    pub format_id: String,
    pub speed: String,
    pub eta: String,
}

impl ParsedProgress {
    pub open spec fn view_record(&self) -> ProgressRecord {
        ProgressRecord {
            percent: self.percent as nat,
            downloaded: self.downloaded_bytes,
            total: self.total_bytes,
            playlist_index: self.playlist_index,
            n_entries: self.n_entries,
            format_id: self.format_id@,
            speed: self.speed@,
            eta: self.eta@,
        }
    }
}

/// The value of the digits `s[from..to]`, kept to `cap`; `None` when some
/// character is not a digit.
fn capped_digits(s: &[char], from: usize, to: usize, cap: u64) -> (r: Option<u64>)
    requires
        from <= to <= s.len(),
        cap <= 1000,
    ensures
        all_digits(s@.subrange(from as int, to as int)) <==> r is Some,
        r matches Some(v) ==> v == if decimal_value(s@.subrange(from as int, to as int)) > cap {
            cap as nat
        } else {
            decimal_value(s@.subrange(from as int, to as int))
        },
{
    let mut value: u64 = 0;
    let mut i: usize = from;
    while i < to
        invariant
            from <= i <= to,
            to <= s.len(),
            cap <= 1000,
            all_digits(s@.subrange(from as int, i as int)),
            value == if decimal_value(s@.subrange(from as int, i as int)) > cap {
                cap as nat
            } else {
                decimal_value(s@.subrange(from as int, i as int))
            },
        decreases to - i,
    {
        let c = s[i];
        if !is_digit(c) {
            assert(s@.subrange(from as int, to as int)[i - from] == c);
            return None;
        }
        let ghost before = s@.subrange(from as int, i as int);
        assert(s@.subrange(from as int, i + 1) =~= before.push(c));
        assert(s@.subrange(from as int, i + 1).drop_last() =~= before);
        let d = (c as u32 - '0' as u32) as u64;
        let grown = value * 10 + d;
        value = if grown > cap {
            cap
        } else {
            grown
        };
        i = i + 1;
    }
    Some(value)
}

/// Reads the percent field: hundredths, kept to 100 percent.
fn parse_percent(t: &[char]) -> (r: Option<u64>)
    ensures
        match percent_hundredths(t@) {
            Some(p) => r == Some((if p > 10000 {
                10000
            } else {
                p
            }) as u64),
            None => r is None,
        },
{
    let dot = index_of_char_from(t, '.', 0);
    proof {
        lemma_index_where(t@, is_char('.'));
        assert(t@.subrange(0, t@.len() as int) =~= t@);
    }
    let frac_start = if dot < t.len() {
        dot + 1
    } else {
        t.len()
    };
    let ghost frac = if dot < t.len() {
        t@.subrange(dot + 1, t@.len() as int)
    } else {
        Seq::<char>::empty()
    };
    assert(frac =~= t@.subrange(frac_start as int, t@.len() as int));
    let whole = capped_digits(t, 0, dot, 100);
    let frac_ok = capped_digits(t, frac_start, t.len(), 0);
    if whole.is_none() || frac_ok.is_none() || dot + (t.len() - frac_start) == 0 {
        return None;
    }
    let w = whole.unwrap();
    if w >= 100 {
        return Some(10000);
    }
    let d1: u64 = if frac_start < t.len() {
        assert(is_ascii_digit(frac[0]));
        (t[frac_start] as u32 - '0' as u32) as u64
    } else {
        0
    };
    let d2: u64 = if t.len() - frac_start > 1 {
        assert(is_ascii_digit(frac[1]));
        (t[frac_start + 1] as u32 - '0' as u32) as u64
    } else {
        0
    };
    Some(w * 100 + d1 * 10 + d2)
}

/// Reads a progress record; other lines give `None`.
pub fn parse_progress_fields(line: &str) -> (r: Option<ParsedProgress>)
    ensures
        match progress_record(line@) {
            None => r is None,
            Some(rec) => r matches Some(p) && p.view_record() == rec,
        },
{
    let v = chars_of(line);
    let prefix = chars_of("DLOOR_PROGRESS|");
    if !starts_with(v.as_slice(), prefix.as_slice()) {
        return None;
    }
    let f = split_fields(v.as_slice(), prefix.len(), 8);
    proof {
        lemma_splitn_len(v@.subrange(prefix.len() as int, v.len() as int), 8);
    }
    if f.len() < 6 {
        return None;
    }
    let ghost fs = splitn_bar(v@.subrange(prefix.len() as int, v.len() as int), 8);
    let field0 = trim_vec(slice_vec(v.as_slice(), f[0].0, f[0].1).as_slice());
    let mut end = field0.len();
    assert(field0@.subrange(0, field0.len() as int) =~= field0@);
    while end > 0 && field0[end - 1] == '%'
        invariant
            end <= field0.len(),
            trailing_count(field0@, '%') == (field0.len() - end) + trailing_count(
                field0@.subrange(0, end as int),
                '%',
            ),
        decreases end,
    {
        assert(field0@.subrange(0, end as int).drop_last() =~= field0@.subrange(0, end - 1));
        end = end - 1;
    }
    proof {
        assert(field0@.subrange(0, field0.len() as int) =~= field0@);
        if end > 0 {
            assert(field0@.subrange(0, end as int).last() != '%');
        }
    }
    let stripped = slice_vec(field0.as_slice(), 0, end);
    let pct_text = trim_vec(stripped.as_slice());
    let percent = match parse_percent(pct_text.as_slice()) {
        Some(p) => p,
        None => {
            return None;
        },
    };
    let field = |k: usize| -> (r: Vec<char>)
        requires
            k < f@.len(),
            f@[k as int].0 <= f@[k as int].1 <= v@.len(),
        ensures
            r@ == trim(v@.subrange(f@[k as int].0 as int, f@[k as int].1 as int)),
        { trim_vec(slice_vec(v.as_slice(), f[k].0, f[k].1).as_slice()) };
    let downloaded_bytes = parse_u64(field(1).as_slice());
    let total_bytes = parse_u64(field(2).as_slice());
    let playlist_index = parse_u64(field(3).as_slice());
    let n_entries = parse_u64(field(4).as_slice());
    let format_id = string_from_chars(field(5).as_slice());
    let speed = if f.len() > 6 {
        string_from_chars(field(6).as_slice())
    } else {
        String::new()
    };
    let eta = if f.len() > 7 {
        string_from_chars(field(7).as_slice())
    } else {
        String::new()
    };
    Some(
        ParsedProgress {
            percent,
            downloaded_bytes,
            total_bytes,
            playlist_index,
            n_entries,
            format_id,
            speed,
            eta,
        },
    )
}

// ---------------------------------------------------------------------
// Association lists (keys occur at most once where they are built by `put`)
// ---------------------------------------------------------------------

/// The first position of key `k`, or the length when it is absent.
pub open spec fn key_index<K, V>(s: Seq<(K, V)>, k: K) -> nat
    decreases s.len(),
{
    if s.len() == 0 {
        0
    } else if s[0].0 == k {
        0
    } else {
        1 + key_index(s.drop_first(), k)
    }
}

pub open spec fn lookup<K, V>(s: Seq<(K, V)>, k: K) -> Option<V> {
    if key_index(s, k) < s.len() {
        Some(s[key_index(s, k) as int].1)
    } else {
        None
    }
}

/// `s` with key `k` bound to `v`: replaced in place, or added at the end.
pub open spec fn put<K, V>(s: Seq<(K, V)>, k: K, v: V) -> Seq<(K, V)> {
    if key_index(s, k) < s.len() {
        s.update(key_index(s, k) as int, (k, v))
    } else {
        s.push((k, v))
    }
}

pub proof fn lemma_key_index<K, V>(s: Seq<(K, V)>, k: K)
    ensures
        key_index(s, k) <= s.len(),
        forall|j: int| 0 <= j < key_index(s, k) ==> (#[trigger] s[j]).0 != k,
        key_index(s, k) < s.len() ==> s[key_index(s, k) as int].0 == k,
    decreases s.len(),
{
    if s.len() > 0 && s[0].0 != k {
        lemma_key_index(s.drop_first(), k);
        assert forall|j: int| 0 <= j < key_index(s, k) implies (#[trigger] s[j]).0 != k by {
            if j > 0 {
                assert(s[j] == s.drop_first()[j - 1]);
            }
        }
    }
}

/// No key occurs twice.
pub open spec fn keys_unique<K, V>(s: Seq<(K, V)>) -> bool {
    forall|i: int, j: int| 0 <= i < j < s.len() ==> (#[trigger] s[i]).0 != (#[trigger] s[j]).0
}

/// Binding a key keeps every key unique.
pub proof fn lemma_put_keeps_keys_unique<K, V>(s: Seq<(K, V)>, k: K, v: V)
    requires
        keys_unique(s),
    ensures
        keys_unique(put(s, k, v)),
        lookup(put(s, k, v), k) == Some(v),
{
    lemma_key_index(s, k);
    let t = put(s, k, v);
    if key_index(s, k) < s.len() {
        assert forall|i: int, j: int| 0 <= i < j < t.len() implies (#[trigger] t[i]).0 != (
        #[trigger] t[j]).0 by {
            assert(s[i].0 != s[j].0);
        }
        lemma_key_index(t, k);
        assert(t[key_index(s, k) as int].0 == k);
        if key_index(t, k) < key_index(s, k) {
            assert(t[key_index(t, k) as int] == s[key_index(t, k) as int]);
        }
        lemma_key_index_at(t, k, key_index(s, k) as int);
    } else {
        assert forall|i: int, j: int| 0 <= i < j < t.len() implies (#[trigger] t[i]).0 != (
        #[trigger] t[j]).0 by {
            if j < s.len() {
                assert(s[i].0 != s[j].0);
            } else {
                assert(t[i] == s[i]);
            }
        }
        assert forall|j: int| 0 <= j < s.len() implies (#[trigger] t[j]).0 != k by {
            assert(t[j] == s[j]);
        }
        lemma_key_index_at(t, k, s.len() as int);
    }
}

proof fn lemma_key_index_at<K, V>(s: Seq<(K, V)>, k: K, i: int)
    requires
        0 <= i <= s.len(),
        forall|j: int| 0 <= j < i ==> (#[trigger] s[j]).0 != k,
        i < s.len() ==> s[i].0 == k,
    ensures
        key_index(s, k) == i,
{
    lemma_key_index(s, k);
}

// ---------------------------------------------------------------------
// The tracker's model
// ---------------------------------------------------------------------

/// What is known of one item: its playlist's size and, per stream, the
/// size and the bytes received.
pub struct PlanView {
    pub n_entries: Option<u64>,
    pub sizes: Seq<(Seq<char>, u64)>,
    pub downloaded: Seq<(Seq<char>, u64)>,
}

/// No format id occurs twice among a plan's sizes, nor among its byte
/// counts.
pub open spec fn plan_ids_unique(p: PlanView) -> bool {
    keys_unique(p.sizes) && keys_unique(p.downloaded)
}

/// Taking in a progress record keeps a plan's format ids unique.
pub proof fn lemma_record_stream_keeps_ids_unique(plan: PlanView, r: ProgressRecord)
    requires
        plan_ids_unique(plan),
    ensures
        plan_ids_unique(record_stream(plan, r)),
{
    if let Some(t) = r.total {
        lemma_put_keeps_keys_unique(plan.sizes, r.format_id, t);
    }
    if let Some(d) = r.downloaded {
        lemma_put_keeps_keys_unique(plan.downloaded, r.format_id, d);
    }
}

/// The plan of playlist item `index`, if one was announced.
pub open spec fn plan_of(plans: Map<u64, PlanView>, index: u64) -> Option<PlanView> {
    if plans.contains_key(index) {
        Some(plans[index])
    } else {
        None
    }
}

pub struct TrackerView {
    pub plans: Map<u64, PlanView>,
    pub active: Option<u64>,
    pub completed: Seq<(u64, Seq<char>)>,
    pub last_index: Option<u64>,
    pub last_format: Option<Seq<char>>,
    pub max: nat,
    pub parts: nat,
}

/// A report: the job's and the item's progress in hundredths of a percent.
pub struct ProgressReport {
    pub overall: nat,
    pub item: nat,
    pub speed: Seq<char>,
    pub eta: Seq<char>,
}

pub open spec fn sat(n: nat) -> nat {
    if n > u64::MAX {
        u64::MAX as nat
    } else {
        n
    }
}

pub open spec fn min_nat(a: nat, b: nat) -> nat {
    if a < b {
        a
    } else {
        b
    }
}

pub open spec fn size_sum(s: Seq<(Seq<char>, u64)>) -> nat
    decreases s.len(),
{
    if s.len() == 0 {
        0
    } else {
        size_sum(s.drop_last()) + (s.last().1 as nat)
    }
}

/// The bytes received of the planned streams, each kept to its size.
pub open spec fn done_sum(sizes: Seq<(Seq<char>, u64)>, got: Seq<(Seq<char>, u64)>) -> nat
    decreases sizes.len(),
{
    if sizes.len() == 0 {
        0
    } else {
        done_sum(sizes.drop_last(), got) + min_nat(
            match lookup(got, sizes.last().0) {
                Some(d) => d as nat,
                None => 0,
            },
            sizes.last().1 as nat,
        )
    }
}

/// The part of the current stream that is done, in millionths: from the
/// byte counts where both are known, else from the percentage.
pub open spec fn part_done(r: ProgressRecord) -> nat {
    match (r.downloaded, r.total) {
        (Some(d), Some(t)) => if t > 0 {
            min_nat(((ITEM_SCALE as nat) * (d as nat) / (t as nat)) as nat, ITEM_SCALE as nat)
        } else {
            r.percent * 100
        },
        _ => r.percent * 100,
    }
}

/// Without a plan, an item is split into equal parts, one per stream.
pub open spec fn fallback_done(completed: nat, parts: nat, part: nat) -> nat {
    ((min_nat(completed, (parts - 1) as nat) * (ITEM_SCALE as nat) + part) / parts) as nat
}

/// With a plan, the bytes received of all its streams over their sizes.
pub open spec fn plan_done(plan: PlanView, part: nat) -> nat {
    let total = sat(size_sum(plan.sizes));
    if total > 0 {
        ((ITEM_SCALE as nat) * sat(done_sum(plan.sizes, plan.downloaded)) / total) as nat
    } else {
        part
    }
}

/// The job's progress: the items before this one and the part of this one,
/// over the playlist's size where it is known.
pub open spec fn overall_of(index: u64, item: nat, n_entries: Option<u64>) -> nat {
    match n_entries {
        Some(t) => if t > 0 {
            min_nat(
                ((PERCENT_SCALE as int) * ((index - 1) * (ITEM_SCALE as int) + item) / ((t as int) * (ITEM_SCALE as int))) as nat,
                PERCENT_SCALE as nat,
            )
        } else {
            min_nat(item / 100, PERCENT_SCALE as nat)
        },
        None => min_nat(item / 100, PERCENT_SCALE as nat),
    }
}

/// The item a record is about: its own playlist index, else the item of
/// the last plan, else the first; never 0.
pub open spec fn item_index(record_index: Option<u64>, active: Option<u64>) -> u64 {
    let i = match record_index {
        Some(i) => i,
        None => match active {
            Some(a) => a,
            None => 1,
        },
    };
    if i == 0 {
        1
    } else {
        i
    }
}

pub open spec fn count_for(c: Seq<(u64, Seq<char>)>, index: u64) -> nat
    decreases c.len(),
{
    if c.len() == 0 {
        0
    } else {
        count_for(c.drop_last(), index) + if c.last().0 == index {
            1nat
        } else {
            0nat
        }
    }
}

pub open spec fn add_completed(c: Seq<(u64, Seq<char>)>, e: (u64, Seq<char>)) -> Seq<(u64, Seq<char>)> {
    if c.contains(e) {
        c
    } else {
        c.push(e)
    }
}

/// A plan after a progress record of one of its streams.
pub open spec fn record_stream(plan: PlanView, r: ProgressRecord) -> PlanView {
    PlanView {
        n_entries: plan.n_entries,
        sizes: match r.total {
            Some(t) => if t > 0 {
                put(plan.sizes, r.format_id, t)
            } else {
                plan.sizes
            },
            None => plan.sizes,
        },
        downloaded: match r.downloaded {
            Some(d) => put(plan.downloaded, r.format_id, d),
            None => plan.downloaded,
        },
    }
}

/// The tracker after a progress record, and what it reports: the highest
/// progress so far.
pub open spec fn progress_step(v: TrackerView, r: ProgressRecord) -> (TrackerView, ProgressReport) {
    let index = item_index(r.playlist_index, v.active);
    let completed = if v.last_index == Some(index) && v.last_format is Some && v.last_format != Some(
        r.format_id,
    ) {
        add_completed(v.completed, (index, v.last_format->0))
    } else {
        v.completed
    };
    let part = part_done(r);
    let plans = match plan_of(v.plans, index) {
        Some(plan) => v.plans.insert(index, record_stream(plan, r)),
        None => v.plans,
    };
    let item = match plan_of(v.plans, index) {
        Some(plan) => plan_done(record_stream(plan, r), part),
        None => fallback_done(count_for(completed, index), v.parts, part),
    };
    let n_entries = match r.n_entries {
        Some(n) => Some(n),
        None => match plan_of(v.plans, index) {
            Some(plan) => plan.n_entries,
            None => None,
        },
    };
    let o = overall_of(index, item, n_entries);
    let max = if o > v.max {
        o
    } else {
        v.max
    };
    (
        TrackerView {
            plans,
            active: v.active,
            completed,
            last_index: Some(index),
            last_format: Some(r.format_id),
            max,
            parts: v.parts,
        },
        ProgressReport {
            overall: max,
            item: min_nat(item / 100, PERCENT_SCALE as nat),
            speed: r.speed,
            eta: r.eta,
        },
    )
}

/// The tracker after a line of yt-dlp's error output, and what it reports.
/// A plan record is remembered and reports nothing; a progress record
/// reports the highest progress so far; other lines change nothing.
pub open spec fn advance(v: TrackerView, line: Seq<char>) -> (TrackerView, Option<ProgressReport>) {
    match plan_record(line) {
        Some((index, n_entries, sizes)) => (
            TrackerView {
                plans: v.plans.insert(index, PlanView { n_entries, sizes, downloaded: Seq::empty() }),
                active: Some(index),
                ..v
            },
            None,
        ),
        None => match progress_record(line) {
            None => (v, None),
            Some(r) => (progress_step(v, r).0, Some(progress_step(v, r).1)),
        },
    }
}

/// A tracker that has seen nothing, for items of `parts` streams.
pub open spec fn fresh_tracker(parts: nat) -> TrackerView {
    TrackerView {
        plans: Map::empty(),
        active: None,
        completed: Seq::empty(),
        last_index: None,
        last_format: None,
        max: 0,
        parts,
    }
}

/// Reports never go back, and never pass 100 percent.
pub proof fn lemma_progress_never_goes_back(v: TrackerView, line: Seq<char>)
    requires
        v.max <= PERCENT_SCALE,
    ensures
        advance(v, line).0.max >= v.max,
        advance(v, line).0.max <= PERCENT_SCALE,
        advance(v, line).1 matches Some(r) ==> r.overall == advance(v, line).0.max,
{
}

/// The tracker after a run of lines, the first first.
pub open spec fn after_lines(v: TrackerView, lines: Seq<Seq<char>>) -> TrackerView
    decreases lines.len(),
{
    if lines.len() == 0 {
        v
    } else {
        advance(after_lines(v, lines.drop_last()), lines.last()).0
    }
}

/// The report, if any, that line `i` of a run gives.
pub open spec fn report_at(v: TrackerView, lines: Seq<Seq<char>>, i: int) -> Option<ProgressReport> {
    advance(after_lines(v, lines.subrange(0, i)), lines[i]).1
}

proof fn lemma_after_lines_grows(v: TrackerView, lines: Seq<Seq<char>>, i: int, j: int)
    requires
        v.max <= PERCENT_SCALE,
        0 <= i <= j <= lines.len(),
    ensures
        v.max <= after_lines(v, lines.subrange(0, i)).max,
        after_lines(v, lines.subrange(0, i)).max <= after_lines(v, lines.subrange(0, j)).max,
        after_lines(v, lines.subrange(0, j)).max <= PERCENT_SCALE,
    decreases j,
{
    if j == 0 {
        assert(lines.subrange(0, 0) =~= Seq::<Seq<char>>::empty());
    } else if i == j {
        lemma_after_lines_grows(v, lines, i - 1, j - 1);
        let prefix = lines.subrange(0, j);
        assert(prefix.drop_last() =~= lines.subrange(0, j - 1));
        lemma_progress_never_goes_back(after_lines(v, lines.subrange(0, j - 1)), prefix.last());
    } else {
        lemma_after_lines_grows(v, lines, i, j - 1);
        let prefix = lines.subrange(0, j);
        assert(prefix.drop_last() =~= lines.subrange(0, j - 1));
        lemma_progress_never_goes_back(after_lines(v, lines.subrange(0, j - 1)), prefix.last());
    }
}

/// Across a whole run of updates, from a tracker within 100 percent, every
/// report stays within 100 percent and none is lower than an earlier one,
/// whether the next stream or the next playlist item starts in between.
pub proof fn lemma_progress_across_a_run(v: TrackerView, lines: Seq<Seq<char>>, i: int, j: int)
    requires
        v.max <= PERCENT_SCALE,
        0 <= i <= j < lines.len(),
    ensures
        report_at(v, lines, j) matches Some(r) ==> v.max <= r.overall <= PERCENT_SCALE,
        report_at(v, lines, i) is Some && report_at(v, lines, j) is Some ==> report_at(
            v,
            lines,
            i,
        )->0.overall <= report_at(v, lines, j)->0.overall,
{
    lemma_after_lines_grows(v, lines, i + 1, j + 1);
    lemma_after_lines_grows(v, lines, 0, i);
    lemma_after_lines_grows(v, lines, 0, j);
    assert(lines.subrange(0, i + 1).drop_last() =~= lines.subrange(0, i));
    assert(lines.subrange(0, j + 1).drop_last() =~= lines.subrange(0, j));
    assert(lines.subrange(0, i + 1).last() == lines[i]);
    assert(lines.subrange(0, j + 1).last() == lines[j]);
    lemma_progress_never_goes_back(after_lines(v, lines.subrange(0, i)), lines[i]);
    lemma_progress_never_goes_back(after_lines(v, lines.subrange(0, j)), lines[j]);
}

// ---------------------------------------------------------------------
// The tracker
// ---------------------------------------------------------------------

struct ItemPlan {
    n_entries: Option<u64>,
    sizes: Vec<(String, u64)>,
    downloaded: Vec<(String, u64)>,
}

impl ItemPlan {
    closed spec fn view_plan(&self) -> PlanView {
        PlanView {
            n_entries: self.n_entries,
            sizes: pair_views(self.sizes@),
            downloaded: pair_views(self.downloaded@),
        }
    }
}

spec fn plan_views(m: Map<u64, ItemPlan>) -> Map<u64, PlanView> {
    m.map_values(|p: ItemPlan| p.view_plan())
}

spec fn completed_views(v: Seq<(u64, String)>) -> Seq<(u64, Seq<char>)> {
    v.map_values(|e: (u64, String)| (e.0, e.1@))
}

/// Combines yt-dlp's progress records into the progress of the whole job.
pub struct ProgressTracker {
    plans: HashMap<u64, ItemPlan>,
    active_plan_index: Option<u64>,
    completed_formats: Vec<(u64, String)>,
    last_playlist_index: Option<u64>,
    last_format_id: Option<String>,
    max_hundredths: u64,
    fallback_part_count: usize,
}

pub open spec fn report_view(p: Option<DownloadProgress>) -> Option<ProgressReport> {
    match p {
        Some(p) => Some(
            ProgressReport {
                overall: p.overall_hundredths as nat,
                item: p.item_hundredths as nat,
                speed: p.speed@,
                eta: p.eta@,
            },
        ),
        None => None,
    }
}

fn str_key_index(v: &Vec<(String, u64)>, k: &str) -> (r: usize)
    ensures
        r == key_index(pair_views(v@), k@),
{
    let mut i: usize = 0;
    while i < v.len()
        invariant
            i <= v.len(),
            forall|j: int| 0 <= j < i ==> (#[trigger] pair_views(v@)[j]).0 != k@,
        decreases v.len() - i,
    {
        if crate::text::str_eq(v[i].0.as_str(), k) {
            proof {
                lemma_key_index_at(pair_views(v@), k@, i as int);
            }
            return i;
        }
        i = i + 1;
    }
    proof {
        lemma_key_index_at(pair_views(v@), k@, i as int);
    }
    i
}

fn str_lookup(v: &Vec<(String, u64)>, k: &str) -> (r: Option<u64>)
    ensures
        r == lookup(pair_views(v@), k@),
{
    let i = str_key_index(v, k);
    if i < v.len() {
        Some(v[i].1)
    } else {
        None
    }
}

fn str_put(v: &mut Vec<(String, u64)>, k: &str, value: u64)
    ensures
        pair_views(final(v)@) == put(pair_views(old(v)@), k@, value),
{
    let i = str_key_index(v, k);
    let ghost before = v@;
    if i < v.len() {
        v.remove(i);
        v.insert(i, (String::from_str(k), value));
        assert(pair_views(v@) =~= put(pair_views(before), k@, value));
    } else {
        v.push((String::from_str(k), value));
        assert(pair_views(v@) =~= put(pair_views(before), k@, value));
    }
}

/// The planned sizes added up, kept to `u64::MAX`.
fn size_total(v: &Vec<(String, u64)>) -> (r: u64)
    ensures
        r == sat(size_sum(pair_views(v@))),
{
    let mut acc: u128 = 0;
    let mut i: usize = 0;
    while i < v.len()
        invariant
            i <= v.len(),
            acc == sat(size_sum(pair_views(v@).subrange(0, i as int))),
        decreases v.len() - i,
    {
        assert(pair_views(v@).subrange(0, i + 1).drop_last() =~= pair_views(v@).subrange(0, i as int));
        let next = acc + v[i].1 as u128;
        acc = if next > u64::MAX as u128 {
            u64::MAX as u128
        } else {
            next
        };
        i = i + 1;
    }
    assert(pair_views(v@).subrange(0, v.len() as int) =~= pair_views(v@));
    acc as u64
}

/// The received bytes of the planned streams added up, kept to `u64::MAX`.
fn done_total(sizes: &Vec<(String, u64)>, got: &Vec<(String, u64)>) -> (r: u64)
    ensures
        r == sat(done_sum(pair_views(sizes@), pair_views(got@))),
{
    let mut acc: u128 = 0;
    let mut i: usize = 0;
    while i < sizes.len()
        invariant
            i <= sizes.len(),
            acc == sat(done_sum(pair_views(sizes@).subrange(0, i as int), pair_views(got@))),
        decreases sizes.len() - i,
    {
        assert(pair_views(sizes@).subrange(0, i + 1).drop_last() =~= pair_views(sizes@).subrange(
            0,
            i as int,
        ));
        let d = match str_lookup(got, sizes[i].0.as_str()) {
            Some(d) => d,
            None => 0,
        };
        let part = if d < sizes[i].1 {
            d
        } else {
            sizes[i].1
        };
        let next = acc + part as u128;
        acc = if next > u64::MAX as u128 {
            u64::MAX as u128
        } else {
            next
        };
        i = i + 1;
    }
    assert(pair_views(sizes@).subrange(0, sizes.len() as int) =~= pair_views(sizes@));
    acc as u64
}

impl ProgressTracker {
    pub closed spec fn view_tracker(&self) -> TrackerView {
        TrackerView {
            plans: plan_views(self.plans@),
            active: self.active_plan_index,
            completed: completed_views(self.completed_formats@),
            last_index: self.last_playlist_index,
            last_format: match self.last_format_id {
                Some(f) => Some(f@),
                None => None,
            },
            max: self.max_hundredths as nat,
            parts: self.fallback_part_count as nat,
        }
    }

    /// A tracker's invariant: at least one part per item, progress within
    /// 100 percent, and in each plan at most one size and one byte count per
    /// format id.
    pub closed spec fn wf(&self) -> bool {
        &&& self.fallback_part_count >= 1
        &&& self.max_hundredths <= PERCENT_SCALE
        &&& forall|k: u64| #[trigger]
            self.plans@.contains_key(k) ==> plan_ids_unique(self.plans@[k].view_plan())
    }

    /// What the invariant says of the tracker's view: at least one part per
    /// item, progress within 100 percent, and in each plan at most one entry
    /// per format id.
    pub proof fn lemma_wf_bounds(&self)
        requires
            self.wf(),
        ensures
            self.view_tracker().parts >= 1,
            self.view_tracker().max <= PERCENT_SCALE,
            forall|k: u64| #[trigger]
                self.view_tracker().plans.contains_key(k) ==> plan_ids_unique(
                    self.view_tracker().plans[k],
                ),
    {
        assert forall|k: u64| #[trigger]
            self.view_tracker().plans.contains_key(k) implies plan_ids_unique(
            self.view_tracker().plans[k],
        ) by {
            assert(self.plans@.contains_key(k));
        }
    }

    /// A tracker for items of `fallback_part_count` streams (at least one)
    /// where no plan says otherwise.
    pub fn new(fallback_part_count: usize) -> (t: ProgressTracker)
        ensures
            t.wf(),
            t.view_tracker() == fresh_tracker(
                if fallback_part_count == 0 {
                    1
                } else {
                    fallback_part_count as nat
                },
            ),
    {
        let t = ProgressTracker {
            plans: HashMap::new(),
            active_plan_index: None,
            completed_formats: Vec::new(),
            last_playlist_index: None,
            last_format_id: None,
            max_hundredths: 0,
            fallback_part_count: if fallback_part_count == 0 {
                1
            } else {
                fallback_part_count
            },
        };
        assert(t.view_tracker().plans =~= Map::<u64, PlanView>::empty());
        assert(t.view_tracker().completed =~= Seq::<(u64, Seq<char>)>::empty());
        t
    }

    fn count_completed(&self, index: u64) -> (r: usize)
        ensures
            r == count_for(completed_views(self.completed_formats@), index),
    {
        let mut n: usize = 0;
        let mut i: usize = 0;
        let ghost c = completed_views(self.completed_formats@);
        while i < self.completed_formats.len()
            invariant
                i <= self.completed_formats.len(),
                c == completed_views(self.completed_formats@),
                n == count_for(c.subrange(0, i as int), index),
                n <= i,
            decreases self.completed_formats.len() - i,
        {
            assert(c.subrange(0, i + 1).drop_last() =~= c.subrange(0, i as int));
            if self.completed_formats[i].0 == index {
                n = n + 1;
            }
            i = i + 1;
        }
        assert(c.subrange(0, self.completed_formats.len() as int) =~= c);
        n
    }

    fn mark_completed(&mut self, index: u64, format_id: String)
        ensures
            completed_views(final(self).completed_formats@) == add_completed(
                completed_views(old(self).completed_formats@),
                (index, format_id@),
            ),
            final(self).plans == old(self).plans,
            final(self).active_plan_index == old(self).active_plan_index,
            final(self).last_playlist_index == old(self).last_playlist_index,
            final(self).last_format_id == old(self).last_format_id,
            final(self).max_hundredths == old(self).max_hundredths,
            final(self).fallback_part_count == old(self).fallback_part_count,
    {
        let ghost c = completed_views(self.completed_formats@);
        let mut i: usize = 0;
        while i < self.completed_formats.len()
            invariant
                i <= self.completed_formats.len(),
                c == completed_views(self.completed_formats@),
                forall|j: int| 0 <= j < i ==> c[j] != (index, format_id@),
            decreases self.completed_formats.len() - i,
        {
            if self.completed_formats[i].0 == index && crate::text::str_eq(
                self.completed_formats[i].1.as_str(),
                format_id.as_str(),
            ) {
                assert(c[i as int] == (index, format_id@));
                assert(c.contains((index, format_id@)));
                return;
            }
            i = i + 1;
        }
        assert(!c.contains((index, format_id@)));
        self.completed_formats.push((index, format_id));
        assert(completed_views(self.completed_formats@) =~= c.push((index, format_id@)));
    }

    /// Notes the stream a record is about; the stream seen before it on the
    /// same item is then complete.
    fn note_stream(&mut self, index: u64, format_id: &String)
        ensures
            final(self).plans == old(self).plans,
            final(self).active_plan_index == old(self).active_plan_index,
            final(self).max_hundredths == old(self).max_hundredths,
            final(self).fallback_part_count == old(self).fallback_part_count,
            final(self).last_playlist_index == Some(index),
            final(self).last_format_id matches Some(f) && f@ == format_id@,
            completed_views(final(self).completed_formats@) == if old(self).view_tracker().last_index
                == Some(index) && old(self).view_tracker().last_format is Some
                && old(self).view_tracker().last_format != Some(format_id@) {
                add_completed(
                    completed_views(old(self).completed_formats@),
                    (index, old(self).view_tracker().last_format->0),
                )
            } else {
                completed_views(old(self).completed_formats@)
            },
    {
        let same_item = match self.last_playlist_index {
            Some(l) => l == index,
            None => false,
        };
        if same_item {
            let differs = match &self.last_format_id {
                Some(f) => !crate::text::str_eq(f.as_str(), format_id.as_str()),
                None => false,
            };
            if differs {
                let previous = self.last_format_id.take().unwrap();
                self.mark_completed(index, previous);
            }
        }
        self.last_playlist_index = Some(index);
        self.last_format_id = Some(format_id.clone());
    }

    /// How far the item is, in millionths, and the playlist size its plan
    /// gives; a plan takes in the record's byte counts.
    fn item_done(&mut self, index: u64, rec: &ParsedProgress, part: u128) -> (r: (u128, Option<u64>))
        requires
            old(self).wf(),
            part <= ITEM_SCALE,
        ensures
            final(self).wf(),
            final(self).active_plan_index == old(self).active_plan_index,
            final(self).completed_formats == old(self).completed_formats,
            final(self).last_playlist_index == old(self).last_playlist_index,
            final(self).last_format_id == old(self).last_format_id,
            final(self).max_hundredths == old(self).max_hundredths,
            final(self).fallback_part_count == old(self).fallback_part_count,
            r.0 <= 0xffff_ffff_ffff_ffffu128 * 1000000,
            match plan_of(old(self).view_tracker().plans, index) {
                Some(plan) => {
                    &&& final(self).view_tracker().plans == old(self).view_tracker().plans.insert(
                        index,
                        record_stream(plan, rec.view_record()),
                    )
                    &&& r.0 == plan_done(record_stream(plan, rec.view_record()), part as nat)
                    &&& r.1 == plan.n_entries
                },
                None => {
                    &&& final(self).plans@ == old(self).plans@
                    &&& r.0 == fallback_done(
                        count_for(old(self).view_tracker().completed, index),
                        old(self).view_tracker().parts,
                        part as nat,
                    )
                    &&& r.1 is None
                },
            },
    {
        let scale: u128 = ITEM_SCALE as u128;
        let ghost plans_before = self.plans@;
        let removed = self.plans.remove(&index);
        if let Some(mut plan) = removed {
            let planned = plan.n_entries;
            let ghost pre = plan.view_plan();
            assert(plan == plans_before[index]);
            match rec.total_bytes {
                Some(t) => {
                    if t > 0 {
                        str_put(&mut plan.sizes, rec.format_id.as_str(), t);
                    }
                },
                None => {},
            }
            match rec.downloaded_bytes {
                Some(d) => str_put(&mut plan.downloaded, rec.format_id.as_str(), d),
                None => {},
            }
            let total = size_total(&plan.sizes);
            let done = done_total(&plan.sizes, &plan.downloaded);
            let ghost pv = plan.view_plan();
            assert(pv == record_stream(pre, rec.view_record()));
            self.plans.insert(index, plan);
            proof {
                assert(plan_ids_unique(plans_before[index].view_plan()));
                lemma_record_stream_keeps_ids_unique(pre, rec.view_record());
                assert(self.plans@ == plans_before.insert(index, plan));
                assert(plan_views(self.plans@) =~= plan_views(plans_before).insert(index, pv));
                assert forall|k: u64| #[trigger] self.plans@.contains_key(k) implies plan_ids_unique(
                    self.plans@[k].view_plan(),
                ) by {
                    if k != index {
                        assert(plans_before.contains_key(k));
                    }
                }
            }
            if total > 0 {
                assert(scale * (done as u128) <= 1000000 * 0xffff_ffff_ffff_ffffu128) by (nonlinear_arith)
                    requires
                        scale == 1000000,
                        done <= 0xffff_ffff_ffff_ffffu64,
                ;
                let q = scale * (done as u128) / (total as u128);
                assert(q as int <= (scale as int) * (done as int)) by (nonlinear_arith)
                    requires
                        total > 0,
                        q as int == (scale as int) * (done as int) / (total as int),
                ;
                (q, planned)
            } else {
                (part, planned)
            }
        } else {
            assert(self.plans@ =~= plans_before);
            let count = self.count_completed(index) as u128;
            let parts = self.fallback_part_count as u128;
            let c = if count < parts - 1 {
                count
            } else {
                parts - 1
            };
            assert(c * scale <= 0xffff_ffff_ffff_ffffu128 * 1000000) by (nonlinear_arith)
                requires
                    scale == 1000000,
                    c <= 0xffff_ffff_ffff_ffffu128,
            ;
            let q = (c * scale + part) / parts;
            assert(q as int <= (c as int) * (scale as int) + (part as int)) by (nonlinear_arith)
                requires
                    parts >= 1,
                    q as int == ((c as int) * (scale as int) + (part as int)) / (parts as int),
            ;
            assert(q <= 0xffff_ffff_ffff_ffffu128 * 1000000);
            (q, None)
        }
    }

    /// Takes in one progress record.
    fn record_progress(&mut self, rec: ParsedProgress) -> (r: DownloadProgress)
        requires
            old(self).wf(),
            rec.percent <= PERCENT_SCALE,
        ensures
            final(self).wf(),
            (final(self).view_tracker(), report_view(Some(r))) == ({
                let step = progress_step(old(self).view_tracker(), rec.view_record());
                (step.0, Some(step.1))
            }),
    {
        let ghost v0 = self.view_tracker();
        let ghost record = rec.view_record();
        let raw_index = match rec.playlist_index {
            Some(i) => i,
            None => match self.active_plan_index {
                Some(a) => a,
                None => 1,
            },
        };
        let index = if raw_index == 0 {
            1
        } else {
            raw_index
        };
        self.note_stream(index, &rec.format_id);
        let scale: u128 = ITEM_SCALE as u128;
        let part: u128 = match (rec.downloaded_bytes, rec.total_bytes) {
            (Some(d), Some(t)) => {
                if t > 0 {
                    assert(scale * (d as u128) <= 1000000 * 0xffff_ffff_ffff_ffffu128) by (nonlinear_arith)
                        requires
                            scale == 1000000,
                            d <= 0xffff_ffff_ffff_ffffu64,
                    ;
                    let q = scale * (d as u128) / (t as u128);
                    if q > scale {
                        scale
                    } else {
                        q
                    }
                } else {
                    (rec.percent as u128) * 100
                }
            },
            _ => (rec.percent as u128) * 100,
        };
        assert(part == part_done(record));
        let ghost v1 = self.view_tracker();
        assert(v1.plans == v0.plans);
        let (item, planned) = self.item_done(index, &rec, part);
        let n_entries = match rec.n_entries {
            Some(n) => Some(n),
            None => planned,
        };
        let overall: u128 = match n_entries {
            Some(t) => {
                if t > 0 {
                    let before = (index as u128 - 1) * scale;
                    assert(before <= 0xffff_ffff_ffff_ffffu128 * 1000000) by (nonlinear_arith)
                        requires
                            scale == 1000000,
                            index as u128 - 1 <= 0xffff_ffff_ffff_ffffu128,
                            before == (index as u128 - 1) * scale,
                    ;
                    let denominator = (t as u128) * scale;
                    assert(0 < denominator <= 0xffff_ffff_ffff_ffffu128 * 1000000) by (nonlinear_arith)
                        requires
                            scale == 1000000,
                            0 < t <= 0xffff_ffff_ffff_ffffu64,
                            denominator == (t as u128) * scale,
                    ;
                    let x = 10000 * (before + item) / denominator;
                    if x > 10000 {
                        10000
                    } else {
                        x
                    }
                } else if item / 100 > 10000 {
                    10000
                } else {
                    item / 100
                }
            },
            None => {
                if item / 100 > 10000 {
                    10000
                } else {
                    item / 100
                }
            },
        };
        if overall as u64 > self.max_hundredths {
            self.max_hundredths = overall as u64;
        }
        let item_hundredths = if item / 100 > 10000 {
            10000
        } else {
            item / 100
        };
        DownloadProgress {
            overall_hundredths: self.max_hundredths as u32,
            item_hundredths: item_hundredths as u32,
            speed: rec.speed,
            eta: rec.eta,
        }
    }

    /// Takes in one line of yt-dlp's error output. Plan records are
    /// remembered; a progress record gives the job's progress, which never
    /// goes back; other lines give `None`.
    pub fn update(&mut self, line: &str) -> (r: Option<DownloadProgress>)
        requires
            old(self).wf(),
        ensures
            final(self).wf(),
            (final(self).view_tracker(), report_view(r)) == advance(old(self).view_tracker(), line@),
            final(self).view_tracker().max <= PERCENT_SCALE,
    {
        if let Some((index, plan)) = parse_plan_line(line) {
            self.active_plan_index = Some(index);
            let ProgressPlan { n_entries, sizes } = plan;
            let item = ItemPlan { n_entries, sizes, downloaded: Vec::new() };
            assert(item.view_plan().downloaded =~= Seq::<(Seq<char>, u64)>::empty());
            let ghost before = self.plans@;
            let ghost pv = item.view_plan();
            self.plans.insert(index, item);
            proof {
                assert(plan_views(self.plans@) =~= plan_views(before).insert(index, pv));
                assert forall|k: u64| #[trigger] self.plans@.contains_key(k) implies plan_ids_unique(
                    self.plans@[k].view_plan(),
                ) by {
                    if k != index {
                        assert(before.contains_key(k));
                    }
                }
            }
            return None;
        }
        match parse_progress_fields(line) {
            Some(p) => Some(self.record_progress(p)),
            None => None,
        }
    }
}

impl Default for ProgressTracker {
    fn default() -> (t: ProgressTracker)
        ensures
            t.wf(),
            t.view_tracker() == fresh_tracker(1),
    {
        ProgressTracker::new(1)
    }
}

/// The progress that one line reports on its own, with nothing planned.
pub fn parse_progress_line(line: &str) -> (r: Option<DownloadProgress>)
    ensures
        report_view(r) == advance(fresh_tracker(1), line@).1,
{
    let mut tracker = ProgressTracker::new(1);
    tracker.update(line)
}

} // verus!
