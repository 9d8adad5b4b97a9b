//! Turning the date strings that feeds carry into one UTC instant.

use crate::text::{join_words, joined, split_words, texts, from_chars, to_chars, words};
use chrono::format::ParseErrorKind;
use vstd::prelude::*;

verus! {

/// A point in time on the UTC scale: whole seconds since 1970-01-01T00:00:00Z
/// (leap seconds not counted) and the nanoseconds into that second.
#[derive(Debug, Clone, Copy, PartialEq, Eq, Structural)]
pub struct UtcInstant {
    pub seconds: i64,
    pub nanos: u32,
}

impl Default for UtcInstant {
    /// The start of the Unix epoch, used where a feed gives no usable date.
    fn default() -> (r: UtcInstant)
        ensures
            r == (UtcInstant { seconds: 0, nanos: 0 }),
    {
        UtcInstant { seconds: 0, nanos: 0 }
    }
}

/// Why one format attempt did not produce a date.
#[derive(Debug, Clone, Copy, PartialEq, Eq, Structural)]
pub enum DateFault {
    /// A field is outside its permitted range.
    OutOfRange,
    /// The fields contradict each other.
    Impossible,
    /// The fields do not determine a date and time.
    NotEnough,
    /// The text does not have the shape of the format.
    Invalid,
    /// The text ended too early.
    TooShort,
    /// Text was left over after the format was matched.
    TooLong,
    /// The format itself is not usable.
    BadFormat,
}

/// The formats that are tried on a date string, in this order.
#[derive(Debug, Clone, Copy, PartialEq, Eq, Structural)]
pub enum DateFormat {
    /// RFC 3339 with an explicit offset.
    Rfc3339,
    /// RFC 2822.
    Rfc2822,
    /// `YYYY-MM-DD HH:MM:SS`, read as UTC.
    NaiveDateTime,
    /// Day, month name, year and time, after the weekday and the zone name
    /// were dropped; read as UTC.
    Cleaned,
    /// `YYYY-MM-DD`, midnight UTC.
    NaiveDate,
}

/// A format attempt that failed for a reason other than the text's shape.
#[derive(Debug, Clone, Copy, PartialEq, Eq, Structural)]
pub struct AttemptFault {
    pub format: DateFormat,
    pub fault: DateFault,
}

/// No format produced a date.
#[derive(Debug, Clone, PartialEq, Eq)]
pub struct DateError {
    /// The text that was given.
    pub input: String,
    /// The attempts that failed structurally, in the order tried.
    pub faults: Vec<AttemptFault>,
}

/// The format of plain date-times.
pub const NAIVE_DATETIME_FORMAT: &'static str = "%Y-%m-%d %H:%M:%S";

/// The format of date-times with a month name.
pub const CLEANED_FORMAT: &'static str = "%d %B %Y %H:%M:%S";

/// The format of plain dates.
pub const NAIVE_DATE_FORMAT: &'static str = "%Y-%m-%d";

/// The day number, counted from 0001-01-01 as day 1, of 1970-01-01.
pub const UNIX_EPOCH_DAY: i64 = 719_163;

/// The date that stands in where an entry carries none.
pub const MISSING_DATE: &'static str = "1990-09-19";

/// What `chrono::DateTime::parse_from_rfc3339` makes of a text, as a UTC
/// instant or the kind of its error.
pub uninterp spec fn rfc3339_instant(text: Seq<char>) -> Result<UtcInstant, DateFault>;

/// What `chrono::DateTime::parse_from_rfc2822` makes of a text, as a UTC
/// instant or the kind of its error.
pub uninterp spec fn rfc2822_instant(text: Seq<char>) -> Result<UtcInstant, DateFault>;

/// What `chrono::NaiveDateTime::parse_from_str` makes of a text under a
/// format, read as UTC, or the kind of its error.
pub uninterp spec fn naive_datetime_instant(text: Seq<char>, format: Seq<char>) -> Result<
    UtcInstant,
    DateFault,
>;

/// What `chrono::NaiveDate::parse_from_str` makes of a text under a format, as
/// the date's day number counted from 0001-01-01 as day 1, or the kind of its
/// error.
pub uninterp spec fn naive_date_day(text: Seq<char>, format: Seq<char>) -> Result<i32, DateFault>;

/// `chrono::DateTime::parse_from_rfc3339`, converted to UTC: the timestamp and
/// sub-second nanoseconds of the parsed instant, or the kind of the error.
#[verifier::external_body]
pub(crate) fn parse_rfc3339(text: &str) -> (r: Result<UtcInstant, DateFault>)
    ensures
        r == rfc3339_instant(text@),
{
    match chrono::DateTime::parse_from_rfc3339(text).map(|t| t.with_timezone(&chrono::Utc)) {
        Ok(t) => Ok(UtcInstant { seconds: t.timestamp(), nanos: t.timestamp_subsec_nanos() }),
        Err(e) => Err(match e.kind() {
            ParseErrorKind::OutOfRange => DateFault::OutOfRange,
            ParseErrorKind::Impossible => DateFault::Impossible,
            ParseErrorKind::NotEnough => DateFault::NotEnough,
            ParseErrorKind::Invalid => DateFault::Invalid,
            ParseErrorKind::TooShort => DateFault::TooShort,
            ParseErrorKind::TooLong => DateFault::TooLong,
            _ => DateFault::BadFormat,
        }),
    }
}

/// `chrono::DateTime::parse_from_rfc2822`, converted to UTC: the timestamp and
/// sub-second nanoseconds of the parsed instant, or the kind of the error.
#[verifier::external_body]
pub(crate) fn parse_rfc2822(text: &str) -> (r: Result<UtcInstant, DateFault>)
    ensures
        r == rfc2822_instant(text@),
{
    match chrono::DateTime::parse_from_rfc2822(text).map(|t| t.with_timezone(&chrono::Utc)) {
        Ok(t) => Ok(UtcInstant { seconds: t.timestamp(), nanos: t.timestamp_subsec_nanos() }),
        Err(e) => Err(match e.kind() {
            ParseErrorKind::OutOfRange => DateFault::OutOfRange,
            ParseErrorKind::Impossible => DateFault::Impossible,
            ParseErrorKind::NotEnough => DateFault::NotEnough,
            ParseErrorKind::Invalid => DateFault::Invalid,
            ParseErrorKind::TooShort => DateFault::TooShort,
            ParseErrorKind::TooLong => DateFault::TooLong,
            _ => DateFault::BadFormat,
        }),
    }
}

/// `chrono::NaiveDateTime::parse_from_str`, the result taken as UTC: its
/// timestamp and sub-second nanoseconds, or the kind of the error.
#[verifier::external_body]
pub(crate) fn parse_naive_datetime(text: &str, format: &str) -> (r: Result<UtcInstant, DateFault>)
    ensures
        r == naive_datetime_instant(text@, format@),
{
    match chrono::NaiveDateTime::parse_from_str(text, format).map(|n| n.and_utc()) {
        Ok(t) => Ok(UtcInstant { seconds: t.timestamp(), nanos: t.timestamp_subsec_nanos() }),
        Err(e) => Err(match e.kind() {
            ParseErrorKind::OutOfRange => DateFault::OutOfRange,
            ParseErrorKind::Impossible => DateFault::Impossible,
            ParseErrorKind::NotEnough => DateFault::NotEnough,
            ParseErrorKind::Invalid => DateFault::Invalid,
            ParseErrorKind::TooShort => DateFault::TooShort,
            ParseErrorKind::TooLong => DateFault::TooLong,
            _ => DateFault::BadFormat,
        }),
    }
}

/// `chrono::NaiveDate::parse_from_str`: the day number of the parsed date
/// (`Datelike::num_days_from_ce`), or the kind of the error.
#[verifier::external_body]
pub(crate) fn parse_naive_date(text: &str, format: &str) -> (r: Result<i32, DateFault>)
    ensures
        r == naive_date_day(text@, format@),
{
    match chrono::NaiveDate::parse_from_str(text, format) {
        Ok(date) => Ok(chrono::Datelike::num_days_from_ce(&date)),
        Err(e) => Err(match e.kind() {
            ParseErrorKind::OutOfRange => DateFault::OutOfRange,
            ParseErrorKind::Impossible => DateFault::Impossible,
            ParseErrorKind::NotEnough => DateFault::NotEnough,
            ParseErrorKind::Invalid => DateFault::Invalid,
            ParseErrorKind::TooShort => DateFault::TooShort,
            ParseErrorKind::TooLong => DateFault::TooLong,
            _ => DateFault::BadFormat,
        }),
    }
}

/// `chrono::Utc::now`: the current time, as timestamp and sub-second
/// nanoseconds. Nothing is promised of it.
#[verifier::external_body]
pub(crate) fn current_instant() -> (r: UtcInstant) {
    let now = chrono::Utc::now();
    UtcInstant { seconds: now.timestamp(), nanos: now.timestamp_subsec_nanos() }
}

/// One format attempt and what it gave.
pub struct Attempt {
    pub format: DateFormat,
    pub outcome: Result<UtcInstant, DateFault>,
}

/// Midnight UTC at the start of the day with the given day number.
pub open spec fn midnight(day: i32) -> UtcInstant {
    UtcInstant { seconds: ((day - UNIX_EPOCH_DAY) * 86_400) as i64, nanos: 0 }
}

/// The text of the cleaned attempt: the second to fifth word of `text`, with
/// single spaces between them. There is none when `text` has under five words.
pub open spec fn cleaned(text: Seq<char>) -> Option<Seq<char>> {
    let parts = words(text);
    if parts.len() >= 5 {
        Some(joined(parts.subrange(1, 5), ' '))
    } else {
        None
    }
}

/// The outcome of reading `text` as a plain date at midnight UTC.
pub open spec fn naive_date_instant(text: Seq<char>) -> Result<UtcInstant, DateFault> {
    match naive_date_day(text, NAIVE_DATE_FORMAT@) {
        Ok(day) => Ok(midnight(day)),
        Err(fault) => Err(fault),
    }
}

/// Every format attempt on `text`, in the order in which they are tried.
pub open spec fn attempts(text: Seq<char>) -> Seq<Attempt> {
    let head = seq![
        Attempt { format: DateFormat::Rfc3339, outcome: rfc3339_instant(text) },
        Attempt { format: DateFormat::Rfc2822, outcome: rfc2822_instant(text) },
        Attempt {
            format: DateFormat::NaiveDateTime,
            outcome: naive_datetime_instant(text, NAIVE_DATETIME_FORMAT@),
        },
    ];
    let last = Attempt { format: DateFormat::NaiveDate, outcome: naive_date_instant(text) };
    match cleaned(text) {
        Some(middle) => head.push(
            Attempt {
                format: DateFormat::Cleaned,
                outcome: naive_datetime_instant(middle, CLEANED_FORMAT@),
            },
        ).push(last),
        None => head.push(last),
    }
}

/// The instant of the first attempt that succeeded, if any did.
pub open spec fn first_success(tried: Seq<Attempt>) -> Option<UtcInstant>
    decreases tried.len(),
{
    if tried.len() == 0 {
        None
    } else {
        match first_success(tried.drop_last()) {
            Some(instant) => Some(instant),
            None => match tried.last().outcome {
                Ok(instant) => Some(instant),
                Err(_) => None,
            },
        }
    }
}

/// `faults` with the fault of one more attempt, unless that attempt succeeded
/// or merely found the text to be of another shape.
pub open spec fn noted(faults: Seq<AttemptFault>, attempt: Attempt) -> Seq<AttemptFault> {
    match attempt.outcome {
        Ok(_) => faults,
        Err(fault) => if fault == DateFault::Invalid {
            faults
        } else {
            faults.push(AttemptFault { format: attempt.format, fault })
        },
    }
}

/// The structural faults among the attempts, in the order tried.
pub open spec fn reported(tried: Seq<Attempt>) -> Seq<AttemptFault>
    decreases tried.len(),
{
    if tried.len() == 0 {
        Seq::empty()
    } else {
        noted(reported(tried.drop_last()), tried.last())
    }
}

/// The date that `text` stands for: the first success among the attempts, or
/// the structural faults of all of them.
pub open spec fn date_of(text: Seq<char>) -> Result<UtcInstant, Seq<AttemptFault>> {
    match first_success(attempts(text)) {
        Some(instant) => Ok(instant),
        None => Err(reported(attempts(text))),
    }
}

/// A success among the first attempts is the success of the whole chain.
pub proof fn lemma_first_success_stays(tried: Seq<Attempt>, n: int)
    requires
        0 <= n <= tried.len(),
        first_success(tried.take(n)) is Some,
    ensures
        first_success(tried) == first_success(tried.take(n)),
    decreases tried.len() - n,
{
    if n == tried.len() {
        assert(tried.take(n) =~= tried);
    } else {
        assert(tried.take(n + 1).drop_last() =~= tried.take(n));
        lemma_first_success_stays(tried, n + 1);
    }
}

/// Takes in the outcome of one attempt: hands a success on, and notes a
/// structural fault in `faults`.
pub fn record(format: DateFormat, outcome: Result<UtcInstant, DateFault>, faults: &mut Vec<
    AttemptFault,
>) -> (r: Option<UtcInstant>)
    ensures
        r == match outcome {
            Ok(instant) => Some(instant),
            Err(_) => None,
        },
        final(faults)@ == noted(old(faults)@, Attempt { format, outcome }),
{
    match outcome {
        Ok(instant) => Some(instant),
        Err(fault) => {
            if fault != DateFault::Invalid {
                faults.push(AttemptFault { format, fault });
            }
            None
        },
    }
}

/// The instant at midnight UTC of the day with the given day number.
pub fn midnight_of(day: i32) -> (r: UtcInstant)
    ensures
        r == midnight(day),
{
    let days: i64 = day as i64 - UNIX_EPOCH_DAY;
    UtcInstant { seconds: days * 86_400, nanos: 0 }
}

/// Builds the text of the cleaned attempt from the words of a date string.
pub fn clean_date(date_str: &str) -> (r: Option<String>)
    ensures
        r.deep_view() == cleaned(date_str@),
{
    let chars = to_chars(date_str);
    let parts = split_words(&chars);
    if parts.len() >= 5 {
        let mut middle: Vec<Vec<char>> = Vec::new();
        let mut i: usize = 1;
        while i < 5
            invariant
                1 <= i <= 5,
                parts.len() >= 5,
                texts(middle@) == texts(parts@).subrange(1, i as int),
            decreases 5 - i,
        {
            let ghost before = texts(middle@);
            let part = parts[i].clone();
            assert(part@ == parts@[i as int]@);
            middle.push(part);
            assert(texts(middle@) =~= before.push(part@));
            i += 1;
            assert(texts(middle@) =~= texts(parts@).subrange(1, i as int));
        }
        Some(from_chars(&join_words(&middle, ' ')))
    } else {
        None
    }
}

/// The attempts on a text: three fixed ones, the cleaned one where the text
/// has five words or more, and the plain date last.
pub proof fn lemma_attempts_shape(text: Seq<char>)
    ensures
        attempts(text).len() == if cleaned(text) is Some {
            5int
        } else {
            4int
        },
        attempts(text)[0] == (Attempt {
            format: DateFormat::Rfc3339,
            outcome: rfc3339_instant(text),
        }),
        attempts(text)[1] == (Attempt {
            format: DateFormat::Rfc2822,
            outcome: rfc2822_instant(text),
        }),
        attempts(text)[2] == (Attempt {
            format: DateFormat::NaiveDateTime,
            outcome: naive_datetime_instant(text, NAIVE_DATETIME_FORMAT@),
        }),
        cleaned(text) matches Some(middle) ==> attempts(text)[3] == (Attempt {
            format: DateFormat::Cleaned,
            outcome: naive_datetime_instant(middle, CLEANED_FORMAT@),
        }),
        attempts(text).last() == (Attempt {
            format: DateFormat::NaiveDate,
            outcome: naive_date_instant(text),
        }),
{
}

/// Reads a date string in the first format that fits, as a UTC instant.
pub fn parse_date(date_str: &str) -> (r: Result<UtcInstant, DateError>)
    ensures
        match r {
            Ok(instant) => date_of(date_str@) == Ok::<UtcInstant, Seq<AttemptFault>>(instant),
            Err(e) => date_of(date_str@) == Err::<UtcInstant, Seq<AttemptFault>>(e.faults@)
                && e.input@ == date_str@,
        },
{
    let ghost all = attempts(date_str@);
    let mut faults: Vec<AttemptFault> = Vec::new();
    proof {
        lemma_attempts_shape(date_str@);
        assert(all.take(0) =~= Seq::empty());
        assert(first_success(all.take(0)) is None);
        assert(reported(all.take(0)) =~= Seq::empty());
    }
    let first = record(DateFormat::Rfc3339, parse_rfc3339(date_str), &mut faults);
    proof {
        assert(all.take(1).drop_last() =~= all.take(0));
        assert(all.take(1).last() == all[0]);
        assert(faults@ == reported(all.take(1)));
        assert(first_success(all.take(1)) == first);
    }
    if let Some(instant) = first {
        proof {
            lemma_first_success_stays(all, 1);
        }
        return Ok(instant);
    }
    let second = record(DateFormat::Rfc2822, parse_rfc2822(date_str), &mut faults);
    proof {
        assert(all.take(2).drop_last() =~= all.take(1));
        assert(all.take(2).last() == all[1]);
        assert(faults@ == reported(all.take(2)));
        assert(first_success(all.take(2)) == second);
    }
    if let Some(instant) = second {
        proof {
            lemma_first_success_stays(all, 2);
        }
        return Ok(instant);
    }
    let third = record(
        DateFormat::NaiveDateTime,
        parse_naive_datetime(date_str, NAIVE_DATETIME_FORMAT),
        &mut faults,
    );
    proof {
        assert(all.take(3).drop_last() =~= all.take(2));
        assert(all.take(3).last() == all[2]);
        assert(faults@ == reported(all.take(3)));
        assert(first_success(all.take(3)) == third);
    }
    if let Some(instant) = third {
        proof {
            lemma_first_success_stays(all, 3);
        }
        return Ok(instant);
    }
    let ghost mut n: int = 3;
    if let Some(middle) = clean_date(date_str) {
        let fourth = record(
            DateFormat::Cleaned,
            parse_naive_datetime(middle.as_str(), CLEANED_FORMAT),
            &mut faults,
        );
        proof {
            assert(all.take(4).drop_last() =~= all.take(3));
            assert(all.take(4).last() == all[3]);
            assert(faults@ == reported(all.take(4)));
            assert(first_success(all.take(4)) == fourth);
            n = 4;
        }
        if let Some(instant) = fourth {
            proof {
                lemma_first_success_stays(all, 4);
            }
            return Ok(instant);
        }
    }
    assert(all.len() == n + 1);
    assert(faults@ == reported(all.take(n)) && first_success(all.take(n)) is None);
    let day = match parse_naive_date(date_str, NAIVE_DATE_FORMAT) {
        Ok(day) => Ok(midnight_of(day)),
        Err(fault) => Err(fault),
    };
    let fifth = record(DateFormat::NaiveDate, day, &mut faults);
    proof {
        assert(all.take(n + 1) =~= all);
        assert(all.drop_last() =~= all.take(n));
        assert(faults@ == reported(all));
        assert(first_success(all) == fifth);
    }
    if let Some(instant) = fifth {
        return Ok(instant);
    }
    Err(DateError { input: String::from_str(date_str), faults })
}

} // verus!
