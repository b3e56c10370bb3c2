//! UTC instants as the library holds them, and the chrono calls that print and read them.
use vstd::prelude::*;

use crate::digits::decimal;
use crate::text::push_str;

verus! {

/// The earliest second `chrono::DateTime<Utc>` represents.
pub const MIN_TIMESTAMP: i64 = -8334601315200;

/// The latest second `chrono::DateTime<Utc>` represents.
pub const MAX_TIMESTAMP: i64 = 8210266876799;

/// The first second of year 0 and the last of year 9999: the span RFC 3339 spells with four
/// year digits.
pub const FOUR_DIGIT_YEARS_START: i64 = -62167219200;

pub const FOUR_DIGIT_YEARS_END: i64 = 253402300799;

/// A UTC instant: whole seconds since the Unix epoch, and the nanoseconds past them.
///
/// A `chrono::DateTime<Utc>` read from text may carry a leap second as `nanos` of a billion or
/// more; one taken from the clock never does.
#[derive(Clone, Copy, Debug, PartialEq, Eq, Structural)]
pub struct UtcTime {
    pub secs: i64,
    pub nanos: u32,
}

/// An instant the clock can produce: inside chrono's range, and not inside a leap second.
pub open spec fn time_valid(t: UtcTime) -> bool {
    &&& MIN_TIMESTAMP <= t.secs <= MAX_TIMESTAMP
    &&& t.nanos < 1_000_000_000
}

/// `a` is no later than `b`, as chrono orders instants.
pub open spec fn time_le(a: UtcTime, b: UtcTime) -> bool {
    a.secs < b.secs || (a.secs == b.secs && a.nanos <= b.nanos)
}

/// `t` moved `seconds` later.
pub open spec fn time_plus(t: UtcTime, seconds: int) -> UtcTime {
    UtcTime { secs: (t.secs + seconds) as i64, nanos: t.nanos }
}

impl UtcTime {
    pub fn from_secs(secs: i64) -> (r: UtcTime)
        ensures
            r == (UtcTime { secs, nanos: 0 }),
    {
        UtcTime { secs, nanos: 0 }
    }

    /// Whether `self` is at or after `other`.
    pub fn at_or_after(&self, other: &UtcTime) -> (r: bool)
        ensures
            r == time_le(*other, *self),
    {
        other.secs < self.secs || (other.secs == self.secs && other.nanos <= self.nanos)
    }

    /// `self` plus whole seconds, as `DateTime + TimeDelta::seconds` computes it.
    pub fn plus_secs(&self, seconds: u64) -> (r: UtcTime)
        requires
            time_valid(*self),
            self.secs + seconds <= MAX_TIMESTAMP,
        ensures
            r == time_plus(*self, seconds as int),
            time_valid(r),
    {
        UtcTime { secs: self.secs + (seconds as i64), nanos: self.nanos }
    }
}

/// What `DateTime::to_rfc3339_opts(SecondsFormat::Secs, true)` writes for the second `secs`.
pub uninterp spec fn rfc3339_text(secs: int) -> Seq<char>;

/// What `DateTime::parse_from_rfc3339`, taken to UTC, reads from `s`.
pub uninterp spec fn rfc3339_reading(s: Seq<char>) -> Option<UtcTime>;

/// What `DateTime::format("%Y%m%dT%H%M%S")` writes for the second `secs`.
pub uninterp spec fn compact_text(secs: int) -> Seq<char>;

/// A character chrono's RFC 3339 writer can emit in whole-second `Z` form: digits, the year's
/// sign, the date and time separators, and `Z`.
pub open spec fn rfc3339_char(c: char) -> bool {
    ||| '0' <= c <= '9'
    ||| c == '+'
    ||| c == '-'
    ||| c == 'T'
    ||| c == ':'
    ||| c == 'Z'
}

/// Writes `t` as RFC 3339 in whole seconds with a `Z` suffix.
///
/// Trusted: calls `chrono::DateTime::from_timestamp` and `to_rfc3339_opts(Secs, true)`. The
/// text is named: chrono's calendar arithmetic decides it, and whole-second formatting drops the
/// sub-second part. Two facts are stated: chrono's writer (`write_rfc3339`) emits only digits,
/// a year sign, `-`, `T`, `:` and, with `use_z`, `Z`; and the round trip chrono's documentation
/// gives for RFC 3339: inside years 0 to 9999, `parse_from_rfc3339` reads back the same second.
#[verifier::external_body]
pub(crate) fn rfc3339_secs(t: UtcTime) -> (r: String)
    requires
        time_valid(t),
    ensures
        r@ == rfc3339_text(t.secs as int),
        r@.len() > 0,
        forall|i: int| 0 <= i < r@.len() ==> rfc3339_char(#[trigger] r@[i]),
        FOUR_DIGIT_YEARS_START <= t.secs <= FOUR_DIGIT_YEARS_END ==> rfc3339_reading(r@) == Some(
            UtcTime { secs: t.secs, nanos: 0 },
        ),
{
    chrono::DateTime::from_timestamp(t.secs, t.nanos).unwrap().to_rfc3339_opts(
        chrono::SecondsFormat::Secs,
        true,
    )
}

/// Reads an RFC 3339 timestamp, as UTC.
///
/// Trusted: calls `chrono::DateTime::parse_from_rfc3339`, converts with `with_timezone(&Utc)`,
/// and takes `timestamp` and `timestamp_subsec_nanos`. The reading is named; what is stated is
/// only what every chrono `DateTime<Utc>` satisfies: its second lies in chrono's range, and its
/// nanoseconds are below two billion (a leap second counts past one billion).
#[verifier::external_body]
pub(crate) fn parse_rfc3339(s: &str) -> (r: Option<UtcTime>)
    ensures
        r == rfc3339_reading(s@),
        r matches Some(t) ==> MIN_TIMESTAMP <= t.secs <= MAX_TIMESTAMP && t.nanos
            < 2_000_000_000,
{
    chrono::DateTime::parse_from_rfc3339(s).ok().map(
        |d| {
            let u = d.with_timezone(&chrono::Utc);
            UtcTime { secs: u.timestamp(), nanos: u.timestamp_subsec_nanos() }
        },
    )
}

/// Writes the second `secs` as `YYYYMMDDTHHMMSS`.
///
/// Trusted: calls `chrono::DateTime::from_timestamp` and `format("%Y%m%dT%H%M%S")`. The text is
/// named: the calendar is chrono's.
#[verifier::external_body]
fn compact_utc(secs: i64) -> (r: String)
    requires
        MIN_TIMESTAMP <= secs <= MAX_TIMESTAMP,
    ensures
        r@ == compact_text(secs as int),
{
    chrono::DateTime::from_timestamp(secs, 0).unwrap().format("%Y%m%dT%H%M%S").to_string()
}

/// `n` written with at least nine digits, zeros in front.
pub open spec fn nine_digits(n: nat) -> Seq<char> {
    Seq::new((9 - decimal(n).len()) as nat, |i: int| '0') + decimal(n)
}

/// A sortable id for an instant: `YYYYMMDDTHHMMSS`, the nanoseconds in nine digits, then `Z`.
pub open spec fn timestamp_id_text(t: UtcTime) -> Seq<char> {
    compact_text(t.secs as int) + nine_digits(t.nanos as nat) + "Z"@
}

/// The id `timestamp_id_text` spells for `now`.
pub fn timestamp_id(now: UtcTime) -> (r: String)
    requires
        time_valid(now),
    ensures
        r@ == timestamp_id_text(now),
{
    let mut r = compact_utc(now.secs);
    let digits = crate::digits::u64_to_decimal(now.nanos as u64);
    let width = digits.as_str().unicode_len();
    proof {
        reveal_with_fuel(pow10, 10);
        lemma_decimal_len_at_most(now.nanos as nat, 9);
    }
    let mut pad: usize = width;
    let ghost before_pad = r@;
    while pad < 9
        invariant
            width <= pad <= 9,
            r@ == before_pad + Seq::new((pad - width) as nat, |i: int| '0'),
        decreases 9 - pad,
    {
        crate::text::push_char(&mut r, '0');
        pad += 1;
        assert(r@ =~= before_pad + Seq::new((pad - width) as nat, |i: int| '0'));
    }
    push_str(&mut r, digits.as_str());
    push_str(&mut r, "Z");
    assert(r@ =~= timestamp_id_text(now));
    r
}

pub open spec fn pow10(n: nat) -> nat
    decreases n,
{
    if n == 0 {
        1
    } else {
        10 * pow10((n - 1) as nat)
    }
}

/// A value below `10^w` has at most `w` digits.
pub proof fn lemma_decimal_len_at_most(n: nat, w: nat)
    requires
        1 <= w,
        n < pow10(w),
    ensures
        decimal(n).len() <= w,
    decreases w,
{
    if n >= 10 {
        if w == 1 {
            assert(pow10(1) == 10 * pow10(0));
        }
        assert(w > 1);
        assert(pow10(w) == 10 * pow10((w - 1) as nat));
        lemma_decimal_len_at_most(n / 10, (w - 1) as nat);
    }
}

} // verus!

verus! {

/// The UTC calendar date of the second `secs`: year, month, day.
pub uninterp spec fn utc_date(secs: int) -> (i32, u32, u32);

/// The calendar date of the second `secs`, in UTC.
///
/// Trusted: calls `chrono::DateTime::from_timestamp` and `date_naive`, then `year`, `month`
/// and `day`. The date is named: the calendar is chrono's. chrono documents months as 1 to 12
/// and days as 1 to 31.
#[verifier::external_body]
pub(crate) fn date_of(secs: i64) -> (r: (i32, u32, u32))
    requires
        MIN_TIMESTAMP <= secs <= MAX_TIMESTAMP,
    ensures
        r == utc_date(secs as int),
        1 <= r.1 <= 12,
        1 <= r.2 <= 31,
{
    let d = chrono::DateTime::from_timestamp(secs, 0).unwrap().date_naive();
    (chrono::Datelike::year(&d), chrono::Datelike::month(&d), chrono::Datelike::day(&d))
}

} // verus!

verus! {

/// An instant a `chrono::DateTime<Utc>` can hold: inside chrono's range, with nanoseconds
/// past a billion only in the last second of a minute, where they stand for a leap second.
pub open spec fn chrono_time(t: UtcTime) -> bool {
    &&& MIN_TIMESTAMP <= t.secs <= MAX_TIMESTAMP
    &&& (t.nanos < 1_000_000_000 || (t.nanos < 2_000_000_000 && t.secs % 60 == 59))
}

/// What `DateTime::<Utc>::to_rfc3339` writes for `t`.
pub uninterp spec fn rfc3339_auto_text(t: UtcTime) -> Seq<char>;

/// Writes `t` as RFC 3339 with as many fractional digits as it needs and a `+00:00` offset.
///
/// Trusted: calls `chrono::DateTime::from_timestamp` and `to_rfc3339`. The text is named: the
/// calendar and the fraction are chrono's.
#[verifier::external_body]
pub(crate) fn rfc3339_auto(t: UtcTime) -> (r: String)
    requires
        chrono_time(t),
    ensures
        r@ == rfc3339_auto_text(t),
{
    chrono::DateTime::from_timestamp(t.secs, t.nanos).unwrap().to_rfc3339()
}

} // verus!
