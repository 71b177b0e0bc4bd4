//! Points in time and their text.
use crate::text::opt_view;
use chrono::{DateTime, TimeDelta, Utc};
use vstd::prelude::*;

verus! {

/// The RFC 3339 text of a time, in seconds and nanoseconds since 1970, if it is in range.
pub uninterp spec fn rfc3339(seconds: i64, nanoseconds: u32) -> Option<Seq<char>>;

/// The most seconds that a time can be moved by.
pub const MAX_DELAY: i64 = 9_223_372_036_854_775;

/// The RFC 3339 text of a time some seconds after another one, if both are in range. A time within a
/// leap second leaves it when it is moved.
pub open spec fn rfc3339_after(seconds: i64, nanoseconds: u32, delay: i64) -> Option<Seq<char>> {
    if rfc3339(seconds, nanoseconds) is None || !(-MAX_DELAY <= delay <= MAX_DELAY) {
        None
    } else if nanoseconds < 1_000_000_000 || delay == 0 {
        rfc3339((seconds + delay) as i64, nanoseconds)
    } else if delay > 0 {
        rfc3339((seconds + delay) as i64, (nanoseconds - 1_000_000_000) as u32)
    } else {
        rfc3339((seconds + delay + 1) as i64, (nanoseconds - 1_000_000_000) as u32)
    }
}

/// `DateTime::from_timestamp` and `DateTime::to_rfc3339`: the text of a time in UTC.
#[verifier::external_body]
pub(crate) fn rfc3339_text(seconds: i64, nanoseconds: u32) -> (r: Option<String>)
    ensures
        opt_view(r) == rfc3339(seconds, nanoseconds),
{
    DateTime::<Utc>::from_timestamp(seconds, nanoseconds).map(|time| time.to_rfc3339())
}

/// `DateTime::from_timestamp_millis` and `DateTime::to_rfc3339`: the text of a time in UTC that is
/// given in milliseconds.
#[verifier::external_body]
pub(crate) fn rfc3339_text_of_millis(millis: i64) -> (r: Option<String>)
    ensures
        opt_view(r) == rfc3339(
            (millis as int / 1000) as i64,
            ((millis as int % 1000) * 1_000_000) as u32,
        ),
{
    DateTime::<Utc>::from_timestamp_millis(millis).map(|time| time.to_rfc3339())
}

/// The text of a time that an RFC 3339 text states, written in the usual form; nothing if the text
/// states none.
pub uninterp spec fn rfc3339_again(text: Seq<char>) -> Option<Seq<char>>;

/// `DateTime::parse_from_rfc3339` and `DateTime::to_rfc3339`: a time in the offset that it is
/// stated in.
#[verifier::external_body]
pub(crate) fn rewrite_rfc3339(text: &str) -> (r: Option<String>)
    ensures
        opt_view(r) == rfc3339_again(text@),
{
    DateTime::parse_from_rfc3339(text).ok().map(|time| time.to_rfc3339())
}

/// `DateTime::checked_add_signed` with `TimeDelta::try_seconds`: the text of a later time in UTC,
/// which is that of the time so many seconds on.
#[verifier::external_body]
pub(crate) fn rfc3339_text_after(seconds: i64, nanoseconds: u32, delay: i64) -> (r: Option<String>)
    ensures
        opt_view(r) == rfc3339_after(seconds, nanoseconds, delay),
{
    let time = DateTime::<Utc>::from_timestamp(seconds, nanoseconds)?;
    let later = time.checked_add_signed(TimeDelta::try_seconds(delay)?)?;
    Some(later.to_rfc3339())
}

/// A point in time that is in range.
pub struct Timestamp {
    seconds: i64,
    nanoseconds: u32,
    text: String,
}

impl Timestamp {
    #[verifier::type_invariant]
    spec fn in_range(self) -> bool {
        rfc3339(self.seconds, self.nanoseconds) == Some(self.text@)
    }

    /// The seconds since 1970.
    pub closed spec fn spec_seconds(self) -> i64 {
        self.seconds
    }

    /// The nanoseconds within the second.
    pub closed spec fn spec_nanoseconds(self) -> u32 {
        self.nanoseconds
    }

    /// A point in time, if it is in range.
    pub fn from_parts(seconds: i64, nanoseconds: u32) -> (r: Option<Timestamp>)
        ensures
            match r {
                Some(time) => rfc3339(seconds, nanoseconds) is Some && time.spec_seconds() == seconds
                    && time.spec_nanoseconds() == nanoseconds,
                None => rfc3339(seconds, nanoseconds) is None,
            },
    {
        match rfc3339_text(seconds, nanoseconds) {
            Some(text) => Some(Timestamp { seconds, nanoseconds, text }),
            None => None,
        }
    }

    /// The RFC 3339 text of the time.
    pub fn text(&self) -> (r: String)
        ensures
            rfc3339(self.spec_seconds(), self.spec_nanoseconds()) == Some(r@),
    {
        proof {
            use_type_invariant(self);
        }
        self.text.clone()
    }

    /// The RFC 3339 text of the time some seconds later, if that is in range.
    pub fn text_after(&self, delay: i64) -> (r: Option<String>)
        ensures
            opt_view(r) == rfc3339_after(self.spec_seconds(), self.spec_nanoseconds(), delay),
    {
        rfc3339_text_after(self.seconds, self.nanoseconds, delay)
    }
}

} // verus!
