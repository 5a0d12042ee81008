//! A single measurement: a value and the time of day at which it was taken.

use crate::error::ParseError;
use crate::ratio::Ratio;
use crate::text::{chars_of, parse_i16, parsed_i16, push_signed_decimal, signed_decimal, trim, trimmed};
use crate::time::{lemma_time_by_parts, parsed_time, time_text, Time};
use vstd::prelude::*;

verus! {

/// What the two texts of an entry denote: the value, the hour and the minute.
/// Both texts are trimmed first. The value is read first, so where both texts
/// are wrong the value's error is the one that comes back.
pub open spec fn parsed_entry(value: Seq<char>, time: Seq<char>) -> Result<
    (i16, u8, u8),
    ParseError,
> {
    match parsed_i16(trimmed(value)) {
        None => Err(ParseError::InvalidValue),
        Some(y) => match parsed_time(trimmed(time)) {
            None => Err(ParseError::MalformedTime),
            Some((h, m)) => Ok((y, h, m)),
        },
    }
}

/// A measurement as one line of text: `[HH:MM] value`.
pub open spec fn entry_text(y: i16, h: u8, m: u8) -> Seq<char> {
    seq!['['] + time_text(h, m) + seq![']', ' '] + signed_decimal(y as int)
}

/// A value together with the time of day at which it was taken.
#[derive(Clone, Copy, Debug, PartialEq, Eq, Structural)]
pub struct Meassurement {
    y: i16,
    t: Time,
}

impl Meassurement {
    /// The value.
    pub closed spec fn spec_y(&self) -> i16 {
        self.y
    }

    /// The time of day.
    pub closed spec fn spec_time(&self) -> Time {
        self.t
    }

    /// Minutes since midnight.
    pub open spec fn spec_timestamp(&self) -> i16 {
        self.time().timestamp()
    }

    /// The measurement of value `y` taken at `h:m`.
    pub closed spec fn of(y: i16, h: u8, m: u8) -> Meassurement {
        Meassurement { y, t: Time::of(h, m) }
    }

    /// Whether this is the measurement of value `y` taken at `h:m`.
    pub open spec fn holds(&self, y: i16, h: u8, m: u8) -> bool {
        &&& self.y() == y
        &&& self.time().hour() == h
        &&& self.time().minute() == m
    }

    /// The rate of change per minute from `m_2` to `self`: the difference of
    /// the values over the difference of the timestamps. It is undefined
    /// where the two share a timestamp.
    pub open spec fn spec_diff(&self, m_2: &Meassurement) -> Ratio {
        Ratio {
            num: (self.y() - m_2.y()) as i32,
            den: (self.timestamp() - m_2.timestamp()) as i32,
        }
    }

    /// Reads a measurement from the text of its value and the text of its
    /// time.
    pub fn new(ys: String, t: String) -> (r: Result<Meassurement, ParseError>)
        ensures
            match parsed_entry(ys@, t@) {
                Ok((y, h, m)) => r == Ok::<Meassurement, ParseError>(Meassurement::of(y, h, m))
                    && r.unwrap().holds(y, h, m),
                Err(e) => r == Err::<Meassurement, ParseError>(e),
            },
    {
        let value_chars = chars_of(ys.as_str());
        let y = match parse_i16(trim(value_chars.as_slice())) {
            Some(y) => y,
            None => {
                return Err(ParseError::InvalidValue);
            },
        };
        let time_chars = chars_of(t.as_str());
        match Time::from_chars(trim(time_chars.as_slice())) {
            Ok(t) => Ok(Meassurement { y, t }),
            Err(e) => Err(e),
        }
    }

    /// The value.
    #[verifier::when_used_as_spec(spec_y)]
    pub fn y(&self) -> (y: i16)
        ensures
            y == self.y(),
    {
        self.y
    }

    /// The time of day.
    #[verifier::when_used_as_spec(spec_time)]
    pub fn time(&self) -> (t: Time)
        ensures
            t == self.time(),
    {
        self.t
    }

    /// Minutes since midnight.
    #[verifier::when_used_as_spec(spec_timestamp)]
    pub fn timestamp(&self) -> (ts: i16)
        ensures
            ts == self.timestamp(),
            ts == self.time().hour() * 60 + self.time().minute(),
    {
        self.t.timestamp()
    }

    /// The rate of change per minute from `m_2` to `self`, exact: the
    /// difference of the values over the difference of the timestamps.
    #[verifier::when_used_as_spec(spec_diff)]
    pub fn diff(&self, m_2: &Meassurement) -> (rate: Ratio)
        ensures
            rate == self.diff(m_2),
            rate.num == self.y() - m_2.y(),
            rate.den == self.timestamp() - m_2.timestamp(),
            rate.defined() <==> self.timestamp() != m_2.timestamp(),
    {
        let dy: i32 = self.y as i32 - m_2.y as i32;
        let dt: i32 = self.timestamp() as i32 - m_2.timestamp() as i32;
        Ratio { num: dy, den: dt }
    }

    /// The measurement as `[HH:MM] value`.
    pub fn to_string(&self) -> (s: String)
        ensures
            s@ == entry_text(self.y(), self.time().hour(), self.time().minute()),
    {
        let mut s = String::new();
        s.push('[');
        let time = self.t.to_string();
        s.append(time.as_str());
        s.push(']');
        s.push(' ');
        push_signed_decimal(&mut s, self.y as i32);
        s
    }
}

/// A measurement is known by its value, hour and minute: `of(y, h, m)` holds
/// them, and it is the only measurement that does.
pub proof fn lemma_meassurement_by_parts(a: Meassurement, y: i16, h: u8, m: u8)
    ensures
        Meassurement::of(y, h, m).holds(y, h, m),
        a.holds(y, h, m) ==> a == Meassurement::of(y, h, m),
{
    lemma_time_by_parts(a.time(), h, m);
}

/// The rate between two measurements does not depend on which of them is
/// named first: swapping them changes the sign of both differences.
pub proof fn lemma_diff_swap(a: Meassurement, b: Meassurement)
    requires
        a.timestamp() != b.timestamp(),
    ensures
        a.diff(&b).defined(),
        b.diff(&a).defined(),
        a.diff(&b).same_value(b.diff(&a)),
{
    let dy = a.y() - b.y();
    let dt = a.timestamp() - b.timestamp();
    assert(dy * (-dt) == (-dy) * dt) by (nonlinear_arith);
}

/// Between two measurements of one value, taken at different times, the rate
/// one way is the opposite of the rate the other way: both are zero.
pub proof fn lemma_diff_opposite_when_level(a: Meassurement, b: Meassurement)
    requires
        a.timestamp() != b.timestamp(),
        a.y() == b.y(),
    ensures
        a.diff(&b).opposite_value(b.diff(&a)),
        a.diff(&b).num == 0,
        b.diff(&a).num == 0,
{
    let dt = a.timestamp() - b.timestamp();
    assert(0 * (-dt) == -(0 * dt)) by (nonlinear_arith);
}

/// Where the values differ too, the rate one way is not the opposite of the
/// rate the other way.
pub proof fn lemma_diff_not_opposite(a: Meassurement, b: Meassurement)
    requires
        a.timestamp() != b.timestamp(),
        a.y() != b.y(),
    ensures
        !a.diff(&b).opposite_value(b.diff(&a)),
{
    let dy = a.y() - b.y();
    let dt = a.timestamp() - b.timestamp();
    assert(dy * (-dt) != -((-dy) * dt)) by (nonlinear_arith)
        requires
            dy != 0,
            dt != 0,
    ;
}

} // verus!
