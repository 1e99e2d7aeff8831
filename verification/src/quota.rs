//! Shaping what the Codex app server reports about rate limits into the
//! snapshot the panel shows: which limit set is read, the defaults for
//! missing fields, the remaining percentages, and the reset times in local
//! time.
use crate::text::{decimal, push_decimal, push_str, seq_lt, lt_seq};
use chrono::{Datelike, Timelike};
use vstd::prelude::*;
use vstd::string::*;

verus! {

/// The earliest and latest second, counted from the Unix epoch, that chrono
/// can represent as a date and time (-262143-01-01 00:00:00 and
/// +262142-12-31 23:59:59).
pub const MIN_EPOCH_SECONDS: i64 = -8334601228800;

pub const MAX_EPOCH_SECONDS: i64 = 8210266876799;

/// A local date and time, down to the second.
#[derive(Clone, Copy, Debug, PartialEq, Eq, Structural)]
pub struct LocalStamp {
    pub year: i32,
    pub month: u32,
    pub day: u32,
    pub hour: u32,
    pub minute: u32,
    pub second: u32,
}

pub open spec fn stamp_ok(s: LocalStamp) -> bool {
    &&& 1 <= s.month <= 12
    &&& 1 <= s.day <= 31
    &&& s.hour < 24
    &&& s.minute < 60
    &&& s.second < 60
}

/// The seconds whose local time chrono can compute without running out of
/// range: all but the last day at either end of its range, where the local
/// offset could carry the time past the end.
pub open spec fn epoch_local_ok(epoch_seconds: i64) -> bool {
    &&& !(MIN_EPOCH_SECONDS <= epoch_seconds < MIN_EPOCH_SECONDS + 86400)
    &&& !(MAX_EPOCH_SECONDS - 86400 < epoch_seconds <= MAX_EPOCH_SECONDS)
}

/// The proleptic Gregorian date and time of a count of seconds from
/// 1970-01-01 00:00:00 (days from the epoch turned into a civil date).
pub open spec fn civil_of(secs: int) -> LocalStamp {
    let days = secs / 86400;
    let sod = secs % 86400;
    let z = days + 719468;
    let era = z / 146097;
    let doe = z - era * 146097;
    let yoe = (doe - doe / 1460 + doe / 36524 - doe / 146096) / 365;
    let doy = doe - (365 * yoe + yoe / 4 - yoe / 100);
    let mp = (5 * doy + 2) / 153;
    let month = if mp < 10 { mp + 3 } else { mp - 9 };
    let year = yoe + era * 400 + if month <= 2 { 1int } else { 0int };
    LocalStamp {
        year: year as i32,
        month: month as u32,
        day: (doy - (153 * mp + 2) / 5 + 1) as u32,
        hour: (sod / 3600) as u32,
        minute: (sod % 3600 / 60) as u32,
        second: (sod % 60) as u32,
    }
}

/// A stamp is the local reading of a timestamp under some fixed offset from
/// UTC of less than a day either way (chrono's offsets are such).
pub open spec fn local_reading_of(epoch_seconds: int, s: LocalStamp) -> bool {
    exists|local: int| -86400 < local - epoch_seconds < 86400 && s == #[trigger] civil_of(local)
}

/// What the local stamp of a reset timestamp can be: present exactly within
/// chrono's range, and then a valid calendar reading of the timestamp under
/// the machine's offset.
pub open spec fn reset_stamp_ok(epoch_seconds: i64, s: Option<LocalStamp>) -> bool {
    &&& (s is Some <==> MIN_EPOCH_SECONDS <= epoch_seconds <= MAX_EPOCH_SECONDS)
    &&& match s {
        Some(x) => stamp_ok(x) && local_reading_of(epoch_seconds as int, x),
        None => true,
    }
}

/// The local calendar date and time of a Unix timestamp, by
/// `chrono::DateTime::from_timestamp` and `with_timezone(&Local)`. It is
/// `None` exactly when the timestamp is outside chrono's range; otherwise the
/// fields are the civil date and time of the timestamp shifted by the local
/// offset, which chrono keeps under a day either way. Which offset applies
/// depends on the machine's time zone, so that is not stated.
#[verifier::external_body]
fn local_stamp_of_epoch(epoch_seconds: i64) -> (r: Option<LocalStamp>)
    requires
        epoch_local_ok(epoch_seconds),
    ensures
        reset_stamp_ok(epoch_seconds, r),
{
    let utc = chrono::DateTime::from_timestamp(epoch_seconds, 0)?;
    let local = utc.with_timezone(&chrono::Local);
    Some(LocalStamp {
        year: local.year(),
        month: local.month(),
        day: local.day(),
        hour: local.hour(),
        minute: local.minute(),
        second: local.second(),
    })
}

/// Whether the local time of a timestamp can be computed (see
/// `epoch_local_ok`).
pub fn epoch_in_local_range(epoch_seconds: i64) -> (r: bool)
    ensures
        r == epoch_local_ok(epoch_seconds),
{
    !(MIN_EPOCH_SECONDS <= epoch_seconds && epoch_seconds < MIN_EPOCH_SECONDS + 86400) && !(
    MAX_EPOCH_SECONDS - 86400 < epoch_seconds && epoch_seconds <= MAX_EPOCH_SECONDS)
}

/// The current local date and time, by `chrono::Local::now`; only the
/// calendar ranges of its fields are stated.
#[verifier::external_body]
fn local_now() -> (r: LocalStamp)
    ensures
        stamp_ok(r),
{
    let now = chrono::Local::now();
    LocalStamp {
        year: now.year(),
        month: now.month(),
        day: now.day(),
        hour: now.hour(),
        minute: now.minute(),
        second: now.second(),
    }
}

/// A number below 100 as two digits (`%H`, `%M`, `%S`).
pub open spec fn two_digits(n: nat) -> Seq<char> {
    if n < 10 {
        seq!['0'] + decimal(n)
    } else {
        decimal(n)
    }
}

/// `HH:MM`.
pub open spec fn clock_hm(s: LocalStamp) -> Seq<char> {
    two_digits(s.hour as nat) + ":"@ + two_digits(s.minute as nat)
}

/// `HH:MM:SS`.
pub open spec fn clock_hms(s: LocalStamp) -> Seq<char> {
    clock_hm(s) + ":"@ + two_digits(s.second as nat)
}

pub open spec fn same_day(a: LocalStamp, b: LocalStamp) -> bool {
    a.year == b.year && a.month == b.month && a.day == b.day
}

/// How a reset time reads: `HH:MM` when it falls today, `M/D HH:MM`
/// otherwise, `unknown` when there is no such time.
pub open spec fn spec_reset_text(stamp: Option<LocalStamp>, today: LocalStamp) -> Seq<char> {
    match stamp {
        None => "unknown"@,
        Some(s) => if same_day(s, today) {
            clock_hm(s)
        } else {
            decimal(s.month as nat) + "/"@ + decimal(s.day as nat) + " "@ + clock_hm(s)
        },
    }
}

fn push_two_digits(s: &mut String, n: u32)
    requires
        n < 100,
    ensures
        final(s)@ == old(s)@ + two_digits(n as nat),
{
    let ghost start = s@;
    if n < 10 {
        push_str(s, "0");
        proof {
            reveal_strlit("0");
        }
    }
    push_decimal(s, n as u64);
    proof {
        if n < 10 {
            assert(s@ =~= start + (seq!['0'] + decimal(n as nat)));
        }
    }
}

/// Formats a reset time against today's date: `HH:MM` on the same day,
/// `M/D HH:MM` on another, `unknown` without a time.
pub fn format_reset_stamp(stamp: Option<LocalStamp>, today: LocalStamp) -> (r: String)
    requires
        stamp matches Some(s) ==> stamp_ok(s),
    ensures
        r@ == spec_reset_text(stamp, today),
{
    match stamp {
        None => String::from_str("unknown"),
        Some(s) => {
            let mut out = String::new();
            let ghost start = out@;
            let same = s.year == today.year && s.month == today.month && s.day == today.day;
            if !same {
                push_decimal(&mut out, s.month as u64);
                push_str(&mut out, "/");
                push_decimal(&mut out, s.day as u64);
                push_str(&mut out, " ");
            }
            push_two_digits(&mut out, s.hour);
            push_str(&mut out, ":");
            push_two_digits(&mut out, s.minute);
            proof {
                assert(start =~= Seq::<char>::empty());
                assert(out@ =~= spec_reset_text(stamp, today));
            }
            out
        },
    }
}

/// Formats a local time as `HH:MM:SS`.
pub fn format_clock(stamp: LocalStamp) -> (r: String)
    requires
        stamp_ok(stamp),
    ensures
        r@ == clock_hms(stamp),
{
    let mut out = String::new();
    push_two_digits(&mut out, stamp.hour);
    push_str(&mut out, ":");
    push_two_digits(&mut out, stamp.minute);
    push_str(&mut out, ":");
    push_two_digits(&mut out, stamp.second);
    assert(out@ =~= clock_hms(stamp));
    out
}

/// The reset time of a Unix timestamp in local time: `HH:MM` when it is
/// today, `M/D HH:MM` otherwise, `unknown` when chrono cannot represent it.
/// The local time depends on the machine's clock and time zone; the result is
/// the text of some valid local time and date against some valid today.
pub fn format_reset_time(epoch_seconds: i64) -> (r: String)
    requires
        epoch_local_ok(epoch_seconds),
    ensures
        exists|s: Option<LocalStamp>, t: LocalStamp|
            reset_stamp_ok(epoch_seconds, s) && stamp_ok(t) && r@ == #[trigger] spec_reset_text(s, t),
{
    let stamp = local_stamp_of_epoch(epoch_seconds);
    let today = local_now();
    format_reset_stamp(stamp, today)
}

/// The current local time as `HH:MM:SS`.
pub fn current_clock() -> (r: String)
    ensures
        exists|t: LocalStamp| stamp_ok(t) && r@ == #[trigger] clock_hms(t),
{
    format_clock(local_now())
}

/// The snapshot the panel shows.
pub struct QuotaSnapshot {
    pub status: String,
    pub limit_name: String,
    pub plan_type: String,
    pub updated_at: String,
    pub primary_remaining: i64,
    pub primary_reset: String,
    pub secondary_remaining: i64,
    pub secondary_reset: String,
}

/// Why reading the quota failed, as a message for the user.
pub struct QuotaError(pub String);

impl QuotaError {
    /// The message.
    pub fn message(&self) -> (r: String)
        ensures
            r@ == self.0@,
    {
        self.0.clone()
    }
}

/// One rate-limit window as the server reported it: the remaining percentage
/// already rounded and bounded to 0..=100, and the reset time when it came as
/// an integer.
#[derive(Clone, Copy, Debug, PartialEq, Eq, Structural)]
pub struct RawWindow {
    pub remaining: i64,
    pub resets_at: Option<i64>,
}

/// A set of rate limits as the server reported it: the string fields when
/// they were strings, and each window when it was present.
pub struct RawLimits {
    pub limit_name: Option<String>,
    pub plan_type: Option<String>,
    pub primary: Option<RawWindow>,
    pub secondary: Option<RawWindow>,
}

/// One window of the snapshot.
pub struct WindowQuota {
    pub remaining: i64,
    pub reset: String,
}

/// A window as the app server's reading yields it: the remaining percentage
/// in 0..=100, and a reset time that can be formatted without leaving
/// chrono's range.
pub open spec fn window_ok(w: Option<RawWindow>) -> bool {
    match w {
        None => true,
        Some(x) => 0 <= x.remaining <= 100 && match x.resets_at {
            None => true,
            Some(t) => epoch_local_ok(t),
        },
    }
}

/// What a window of the snapshot says: 0% and `unknown` when the window is
/// missing, else its remaining percentage and its reset time (`unknown` when
/// it has none).
pub open spec fn window_reading_ok(source: Option<RawWindow>, w: WindowQuota) -> bool {
    match source {
        None => w.remaining == 0 && w.reset@ == "unknown"@,
        Some(x) => {
            &&& w.remaining == x.remaining
            &&& match x.resets_at {
                None => w.reset@ == "unknown"@,
                Some(t) => exists|s: Option<LocalStamp>, today: LocalStamp|
                    reset_stamp_ok(t, s) && stamp_ok(today) && w.reset@ == #[trigger] spec_reset_text(
                        s,
                        today,
                    ),
            }
        },
    }
}

/// Turns a reported window into the snapshot's remaining percentage and reset
/// text.
pub fn convert_window(source: Option<RawWindow>) -> (r: WindowQuota)
    requires
        window_ok(source),
    ensures
        window_reading_ok(source, r),
        0 <= r.remaining <= 100,
{
    match source {
        None => WindowQuota { remaining: 0, reset: String::from_str("unknown") },
        Some(x) => {
            let reset = match x.resets_at {
                Some(t) => format_reset_time(t),
                None => String::from_str("unknown"),
            };
            WindowQuota { remaining: x.remaining, reset }
        },
    }
}

pub open spec fn opt_text(o: Option<String>, default: Seq<char>) -> Seq<char> {
    match o {
        Some(s) => s@,
        None => default,
    }
}

/// The limit set a response is read from: the Codex entry of the per-limit
/// map, else the top-level rate limits.
pub open spec fn chosen_limits(codex: Option<RawLimits>, rate_limits: Option<RawLimits>) -> Option<
    RawLimits,
> {
    match codex {
        Some(c) => Some(c),
        None => rate_limits,
    }
}

/// Shapes a rate-limit response into a snapshot: reads the Codex entry of the
/// per-limit map, else the top-level rate limits, and fails when there is
/// neither. The limit name defaults to `Codex`, the plan type to empty, and
/// the snapshot is stamped with the current local time.
pub fn normalize_rate_limits(codex: Option<RawLimits>, rate_limits: Option<RawLimits>) -> (r: Result<
    QuotaSnapshot,
    QuotaError,
>)
    requires
        chosen_limits(codex, rate_limits) matches Some(l) ==> window_ok(l.primary) && window_ok(
            l.secondary,
        ),
    ensures
        match r {
            Err(e) => chosen_limits(codex, rate_limits) is None && e.0@
                == "Codex returned no rate limit data."@,
            Ok(s) => chosen_limits(codex, rate_limits) matches Some(l) && {
                &&& s.status@ == "ready"@
                &&& 0 <= s.primary_remaining <= 100
                &&& 0 <= s.secondary_remaining <= 100
                &&& s.limit_name@ == opt_text(l.limit_name, "Codex"@)
                &&& s.plan_type@ == opt_text(l.plan_type, ""@)
                &&& exists|t: LocalStamp| stamp_ok(t) && s.updated_at@ == #[trigger] clock_hms(t)
                &&& window_reading_ok(
                    l.primary,
                    WindowQuota { remaining: s.primary_remaining, reset: s.primary_reset },
                )
                &&& window_reading_ok(
                    l.secondary,
                    WindowQuota { remaining: s.secondary_remaining, reset: s.secondary_reset },
                )
            },
        },
{
    let limits = match codex {
        Some(c) => c,
        None => match rate_limits {
            Some(l) => l,
            None => {
                return Err(QuotaError(String::from_str("Codex returned no rate limit data.")));
            },
        },
    };
    let primary = convert_window(limits.primary);
    let secondary = convert_window(limits.secondary);
    let limit_name = match limits.limit_name {
        Some(n) => n,
        None => String::from_str("Codex"),
    };
    let plan_type = match limits.plan_type {
        Some(p) => p,
        None => String::from_str(""),
    };
    let updated_at = current_clock();
    Ok(
        QuotaSnapshot {
            status: String::from_str("ready"),
            limit_name,
            plan_type,
            updated_at,
            primary_remaining: primary.remaining,
            primary_reset: primary.reset,
            secondary_remaining: secondary.remaining,
            secondary_reset: secondary.reset,
        },
    )
}

/// The error a JSON-RPC response carries: its message when it has one as a
/// string, else a generic one; none when the response has no error.
pub fn response_error(has_error: bool, message: Option<String>) -> (r: Option<QuotaError>)
    ensures
        r is Some <==> has_error,
        r matches Some(e) ==> e.0@ == opt_text(message, "Codex returned an error."@),
{
    if !has_error {
        return None;
    }
    match message {
        Some(m) => Some(QuotaError(m)),
        None => Some(QuotaError(String::from_str("Codex returned an error."))),
    }
}

/// Whether a message from the app server answers the request with id
/// `request_id`: its `id` is that integer (a missing or non-integer id,
/// given as `None`, answers nothing).
pub fn is_response_for(message_id: Option<i64>, request_id: i64) -> (r: bool)
    ensures
        r == (message_id == Some(request_id)),
{
    match message_id {
        Some(id) => id == request_id,
        None => false,
    }
}

/// An executable found in a version directory of the Codex install: the
/// directory's name, and its modification time in nanoseconds from the Unix
/// epoch when the file system reported one.
pub struct CodexCandidate {
    pub dir_name: String,
    pub modified: Option<i128>,
}

/// The order candidates are picked in: later modification first (a known
/// time before an unknown one), then the greater directory name.
pub open spec fn candidate_before(a: CodexCandidate, b: CodexCandidate) -> bool {
    match (a.modified, b.modified) {
        (Some(x), Some(y)) => x > y || (x == y && lt_seq(b.dir_name@, a.dir_name@)),
        (Some(_), None) => true,
        (None, Some(_)) => false,
        (None, None) => lt_seq(b.dir_name@, a.dir_name@),
    }
}

/// Picks the executable to run among several installed versions: the most
/// recently modified one, ties going to the greater directory name, and among
/// equal candidates the first.
pub fn newest_candidate(candidates: &Vec<CodexCandidate>) -> (r: Option<usize>)
    ensures
        r is None <==> candidates.len() == 0,
        r matches Some(i) ==> {
            &&& i < candidates.len()
            &&& forall|j: int|
                0 <= j < candidates.len() ==> !#[trigger] candidate_before(
                    candidates@[j],
                    candidates@[i as int],
                )
            &&& forall|j: int|
                0 <= j < i ==> #[trigger] candidate_before(candidates@[i as int], candidates@[j])
        },
{
    if candidates.len() == 0 {
        return None;
    }
    let mut best: usize = 0;
    let mut i: usize = 1;
    proof {
        lemma_before_irreflexive(candidates@[0]);
    }
    while i < candidates.len()
        invariant
            1 <= i <= candidates.len(),
            best < i,
            forall|j: int| 0 <= j < i ==> !#[trigger] candidate_before(candidates@[j], candidates@[best as int]),
            forall|j: int| 0 <= j < best ==> #[trigger] candidate_before(candidates@[best as int], candidates@[j]),
        decreases candidates.len() - i,
    {
        if before(&candidates[i], &candidates[best]) {
            proof {
                lemma_candidate_order(candidates@, best as int, i as int);
            }
            best = i;
        }
        i = i + 1;
    }
    Some(best)
}

/// If `i` precedes the current best, it precedes everything the best was
/// compared with, and nothing before `i` precedes it.
proof fn lemma_candidate_order(c: Seq<CodexCandidate>, best: int, i: int)
    requires
        0 <= best < i < c.len(),
        candidate_before(c[i], c[best]),
        forall|j: int| 0 <= j < i ==> !#[trigger] candidate_before(c[j], c[best]),
        forall|j: int| 0 <= j < best ==> #[trigger] candidate_before(c[best], c[j]),
    ensures
        forall|j: int| 0 <= j <= i ==> !#[trigger] candidate_before(c[j], c[i]),
        forall|j: int| 0 <= j < i ==> #[trigger] candidate_before(c[i], c[j]),
{
    assert forall|j: int| 0 <= j < i implies #[trigger] candidate_before(c[i], c[j]) by {
        if j == best {
        } else if j < best {
            lemma_before_transitive(c[i], c[best], c[j]);
        } else {
            lemma_before_total(c[j], c[best]);
            if candidate_before(c[best], c[j]) {
                lemma_before_transitive(c[i], c[best], c[j]);
            } else {
                lemma_before_same(c[best], c[j], c[i]);
            }
        }
    }
    assert forall|j: int| 0 <= j <= i implies !#[trigger] candidate_before(c[j], c[i]) by {
        if j < i {
            lemma_before_asymmetric(c[i], c[j]);
        } else {
            lemma_before_irreflexive(c[i]);
        }
    }
}

proof fn lemma_before_irreflexive(a: CodexCandidate)
    ensures
        !candidate_before(a, a),
{
    crate::text::lemma_lt_irreflexive(a.dir_name@);
}

proof fn lemma_before_asymmetric(a: CodexCandidate, b: CodexCandidate)
    requires
        candidate_before(a, b),
    ensures
        !candidate_before(b, a),
{
    crate::text::lemma_lt_asymmetric(a.dir_name@, b.dir_name@);
}

proof fn lemma_before_transitive(a: CodexCandidate, b: CodexCandidate, c: CodexCandidate)
    requires
        candidate_before(a, b),
        candidate_before(b, c),
    ensures
        candidate_before(a, c),
{
    crate::text::lemma_lt_transitive(c.dir_name@, b.dir_name@, a.dir_name@);
}

/// Neither precedes the other: they are equal in the order.
proof fn lemma_before_total(a: CodexCandidate, b: CodexCandidate)
    ensures
        candidate_before(a, b) || candidate_before(b, a) || (a.modified == b.modified
            && a.dir_name@ == b.dir_name@),
{
    crate::text::lemma_lt_total(a.dir_name@, b.dir_name@);
}

proof fn lemma_before_same(a: CodexCandidate, b: CodexCandidate, x: CodexCandidate)
    requires
        !candidate_before(a, b),
        !candidate_before(b, a),
        candidate_before(x, a),
    ensures
        candidate_before(x, b),
{
    lemma_before_total(a, b);
}

fn before(a: &CodexCandidate, b: &CodexCandidate) -> (r: bool)
    ensures
        r == candidate_before(*a, *b),
{
    match (a.modified, b.modified) {
        (Some(x), Some(y)) => x > y || (x == y && seq_lt(b.dir_name.as_str(), a.dir_name.as_str())),
        (Some(_), None) => true,
        (None, Some(_)) => false,
        (None, None) => seq_lt(b.dir_name.as_str(), a.dir_name.as_str()),
    }
}

} // verus!
