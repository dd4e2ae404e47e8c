use vstd::prelude::*;
use vstd::string::StringExecFns;

verus! {

/// Seconds between two refreshes that succeed: one week.
pub const REFRESH_INTERVAL_SECS: u64 = 604800;

/// Seconds to wait after the first refresh that fails.
pub const INITIAL_BACKOFF_SECS: u64 = 60;

/// Longest wait after failed refreshes: one hour.
pub const MAX_BACKOFF_SECS: u64 = 3600;

/// When the refresher tries next, after successes and failures.
pub struct RefreshSchedule {
    backoff: u64,
    interval: u64,
}

impl RefreshSchedule {
    pub closed spec fn spec_backoff(&self) -> u64 {
        self.backoff
    }

    pub closed spec fn spec_interval(&self) -> u64 {
        self.interval
    }

    /// The wait after a failure lies between one minute and one hour.
    pub open spec fn wf(&self) -> bool {
        INITIAL_BACKOFF_SECS <= self.spec_backoff() <= MAX_BACKOFF_SECS
    }

    /// A schedule that refreshes every `interval` seconds.
    pub fn new(interval: u64) -> (r: Self)
        ensures
            r.wf(),
            r.spec_backoff() == INITIAL_BACKOFF_SECS,
            r.spec_interval() == interval,
    {
        RefreshSchedule { backoff: INITIAL_BACKOFF_SECS, interval }
    }

    /// Seconds to wait after a refresh that succeeded; the back-off starts over.
    pub fn after_success(&mut self) -> (r: u64)
        requires
            old(self).wf(),
        ensures
            final(self).wf(),
            r == old(self).spec_interval(),
            final(self).spec_interval() == old(self).spec_interval(),
            final(self).spec_backoff() == INITIAL_BACKOFF_SECS,
    {
        self.backoff = INITIAL_BACKOFF_SECS;
        self.interval
    }

    /// Seconds to wait after a refresh that failed; the next such wait doubles, up to
    /// one hour.
    pub fn after_failure(&mut self) -> (r: u64)
        requires
            old(self).wf(),
        ensures
            final(self).wf(),
            r == old(self).spec_backoff(),
            final(self).spec_interval() == old(self).spec_interval(),
            final(self).spec_backoff() == if 2 * old(self).spec_backoff() < MAX_BACKOFF_SECS {
                2 * old(self).spec_backoff()
            } else {
                MAX_BACKOFF_SECS as int
            },
    {
        let wait = self.backoff;
        self.backoff = if 2 * self.backoff < MAX_BACKOFF_SECS {
            2 * self.backoff
        } else {
            MAX_BACKOFF_SECS
        };
        wait
    }
}

/// A local calendar date and time of day, to the second.
#[derive(Clone, Copy, Debug, PartialEq, Eq, Structural)]
pub struct CalendarTime {
    pub year: i32,
    pub month: u32,
    pub day: u32,
    pub hour: u32,
    pub minute: u32,
    pub second: u32,
}

/// The decimal digit `d`.
pub open spec fn digit(d: int) -> char {
    (48 + d) as char
}

/// `n` in two digits.
pub open spec fn pad2(n: int) -> Seq<char> {
    seq![digit((n / 10) % 10), digit(n % 10)]
}

/// `n` in four digits.
pub open spec fn pad4(n: int) -> Seq<char> {
    seq![digit((n / 1000) % 10), digit((n / 100) % 10), digit((n / 10) % 10), digit(n % 10)]
}

/// `YYYY-MM-DD-HH:MM:SS`.
pub open spec fn stamp_text(t: CalendarTime) -> Seq<char> {
    pad4(t.year as int) + seq!['-'] + pad2(t.month as int) + seq!['-'] + pad2(t.day as int) + seq![
        '-',
    ] + pad2(t.hour as int) + seq![':'] + pad2(t.minute as int) + seq![':'] + pad2(
        t.second as int,
    )
}

/// Whether `t` is a time of some day that every month has, in a four-digit year.
pub open spec fn plain_time(t: CalendarTime) -> bool {
    &&& 0 <= t.year <= 9999
    &&& 1 <= t.month <= 12
    &&& 1 <= t.day <= 28
    &&& t.hour < 24
    &&& t.minute < 60
    &&& t.second < 60
}

/// Relies on chrono's `NaiveDate::from_ymd_opt`, `NaiveDate::and_hms_opt` and
/// `format("%Y-%m-%d-%H:%M:%S")`: for a date and time that exist, in a year of four
/// digits, the text gives the zero-padded fields; for one that does not exist, nothing.
#[verifier::external_body]
fn format_timestamp(t: &CalendarTime) -> (r: Option<String>)
    requires
        0 <= t.year <= 9999,
    ensures
        r matches Some(s) ==> s@ == stamp_text(*t),
        plain_time(*t) ==> r.is_some(),
{
    match chrono::NaiveDate::from_ymd_opt(t.year, t.month, t.day) {
        Some(date) => match date.and_hms_opt(t.hour, t.minute, t.second) {
            Some(time) => Some(time.format("%Y-%m-%d-%H:%M:%S").to_string()),
            None => None,
        },
        None => None,
    }
}

/// `block_list_<stamp>.txt`, the file name of the snapshot that a refresh at `t`
/// writes; none where `t` is not a time that exists in a year of four digits.
pub fn snapshot_file_name(t: &CalendarTime) -> (r: Option<String>)
    ensures
        r matches Some(s) ==> s@ == seq!['b', 'l', 'o', 'c', 'k', '_', 'l', 'i', 's', 't', '_']
            + stamp_text(*t) + seq!['.', 't', 'x', 't'],
        plain_time(*t) ==> r.is_some(),
{
    if t.year < 0 || t.year > 9999 {
        return None;
    }
    match format_timestamp(t) {
        Some(stamp) => {
            let mut name = "block_list_".to_owned();
            name.append(stamp.as_str());
            name.append(".txt");
            proof {
                reveal_strlit("block_list_");
                reveal_strlit(".txt");
                assert(name@ =~= seq!['b', 'l', 'o', 'c', 'k', '_', 'l', 'i', 's', 't', '_']
                    + stamp_text(*t) + seq!['.', 't', 'x', 't']);
            }
            Some(name)
        },
        None => None,
    }
}

} // verus!
