//! What comes from outside the program: fresh identifiers and the time.

use vstd::prelude::*;
use vstd::string::StringExecFns;

use crate::text;

verus! {

/// Whether a character is a lower-case hexadecimal digit.
pub open spec fn is_lower_hex(c: char) -> bool {
    ('0' <= c && c <= '9') || ('a' <= c && c <= 'f')
}

/// Whether a text has the hyphenated form of an identifier: 32 lower-case hexadecimal digits in
/// groups of 8, 4, 4, 4 and 12.
pub open spec fn is_uuid_text(s: Seq<char>) -> bool {
    &&& s.len() == 36
    &&& forall|i: int|
        0 <= i < 36 ==> if i == 8 || i == 13 || i == 18 || i == 23 {
            #[trigger] s[i] == '-'
        } else {
            is_lower_hex(s[i])
        }
}

/// `uuid::Uuid::new_v4` and its `to_string`: a random identifier in hyphenated lower-case form.
/// Nothing is claimed of which identifier comes.
#[verifier::external_body]
pub(crate) fn new_id() -> (r: String)
    ensures
        is_uuid_text(r@),
{
    uuid::Uuid::new_v4().to_string()
}

/// `chrono::Utc::now` written by `to_rfc3339`. Nothing is claimed of which time comes.
#[verifier::external_body]
pub(crate) fn now_rfc3339() -> (r: String) {
    chrono::Utc::now().to_rfc3339()
}

/// What `chrono::DateTime::parse_from_rfc3339` makes of a text: the whole seconds since the start
/// of 1970 (UTC) and the nanoseconds beyond them, or nothing where the text is no such time.
pub uninterp spec fn rfc3339_time(s: Seq<char>) -> Option<(i64, u32)>;

/// `chrono::DateTime::parse_from_rfc3339`, with its `timestamp` and `timestamp_subsec_nanos`.
#[verifier::external_body]
pub(crate) fn parse_rfc3339(s: &str) -> (r: Option<(i64, u32)>)
    ensures
        r == rfc3339_time(s@),
{
    match chrono::DateTime::parse_from_rfc3339(s) {
        Ok(t) => Some((t.timestamp(), t.timestamp_subsec_nanos())),
        Err(_) => None,
    }
}

/// What `chrono::DateTime::to_rfc3339` writes of so many whole seconds since the start of 1970 (UTC)
/// and nanoseconds beyond them, or nothing where `chrono` has no such time.
pub uninterp spec fn rfc3339_text(seconds: i64, nanos: u32) -> Option<Seq<char>>;

/// `chrono::DateTime::from_timestamp`, written by `to_rfc3339`: a function of the two numbers alone.
#[verifier::external_body]
fn write_rfc3339(seconds: i64, nanos: u32) -> (r: Option<String>)
    ensures
        text::opt_text(r) == rfc3339_text(seconds, nanos),
{
    match chrono::DateTime::from_timestamp(seconds, nanos) {
        Some(t) => Some(t.to_rfc3339()),
        None => None,
    }
}

/// The time so many minutes after another. Where the other is no time, or `chrono` has no such time,
/// it is the other.
pub open spec fn minutes_after(now: Seq<char>, minutes: int) -> Seq<char> {
    match rfc3339_time(now) {
        Some((seconds, nanos)) => if seconds + 60 * minutes <= i64::MAX {
            match rfc3339_text((seconds + 60 * minutes) as i64, nanos) {
                Some(t) => t,
                None => now,
            }
        } else {
            now
        },
        None => now,
    }
}

/// The time so many minutes after another.
pub fn later_than(now: &str, minutes: u32) -> (r: String)
    ensures
        r@ == minutes_after(now@, minutes as int),
{
    if let Some((seconds, nanos)) = parse_rfc3339(now) {
        if let Some(n) = seconds.checked_add(60 * minutes as i64) {
            if let Some(t) = write_rfc3339(n, nanos) {
                return t;
            }
        }
    }
    now.to_owned()
}

/// A time as the tables date what is new: the date and the time of day in whole seconds.
pub open spec fn table_time(s: Seq<char>) -> Seq<char> {
    if s.len() >= 19 {
        s.take(10) + " "@ + s.subrange(11, 19)
    } else {
        s
    }
}

/// A time as the tables date what is new.
pub fn to_table_time(s: &str) -> (r: String)
    ensures
        r@ == table_time(s@),
{
    let v = text::chars_of(s);
    if v.len() < 19 {
        return s.to_owned();
    }
    let date = text::part(&v, 0, 10);
    let time = text::part(&v, 11, 19);
    proof {
        assert(v@.subrange(0, 10) =~= s@.take(10));
    }
    let mut r = text::string_of(date.as_slice());
    r.append(" ");
    r.append(text::string_of(time.as_slice()).as_str());
    r
}

/// The present time as the tables date what is new.
pub(crate) fn now_datetime() -> (r: String)
    ensures
        exists|now: Seq<char>| r@ == #[trigger] table_time(now),
{
    to_table_time(now_rfc3339().as_str())
}

/// A time that is so many minutes later is so many times sixty seconds later, to the same fraction of a
/// second; where that cannot be told it is the time itself.
pub proof fn minutes_are_sixty_seconds(now: Seq<char>, minutes: nat)
    ensures
        rfc3339_time(now) is None ==> minutes_after(now, minutes as int) == now,
        rfc3339_time(now) matches Some(t) ==> (t.0 + 60 * minutes <= i64::MAX && rfc3339_text(
            (t.0 + 60 * minutes) as i64,
            t.1,
        ) is Some ==> Some(minutes_after(now, minutes as int)) == rfc3339_text(
            (t.0 + 60 * minutes) as i64,
            t.1,
        )),
        rfc3339_time(now) matches Some(t) ==> (t.0 + 60 * minutes > i64::MAX ==> minutes_after(
            now,
            minutes as int,
        ) == now),
{
}

/// The tables date what is new to the second: the date, a blank, and the time of day.
pub proof fn tables_date_to_the_second(s: Seq<char>)
    requires
        s.len() >= 19,
    ensures
        table_time(s).len() == 19,
        table_time(s).take(10) == s.take(10),
        table_time(s)[10] == ' ',
        table_time(s).skip(11) == s.subrange(11, 19),
{
    reveal_strlit(" ");
    assert(table_time(s).take(10) =~= s.take(10));
    assert(table_time(s).skip(11) =~= s.subrange(11, 19));
}

} // verus!
