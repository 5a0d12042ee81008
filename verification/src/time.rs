//! Times of day: hours and minutes, read from `H:MM` and written as `HH:MM`.

use crate::error::ParseError;
use crate::text::{
    chars_of, decimal, digit_value, digits_value, is_digit, lemma_digit_char_of_value,
    lemma_two_digits_reads_back, parse_u8, parsed_u8, push_two_digits, two_digits,
};
use vstd::prelude::*;
use vstd::slice::slice_subrange;

verus! {

// ---------------------------------------------------------------------------
// The grammar
// ---------------------------------------------------------------------------

/// Whether the first field of `s` ends at `i`: at the first colon of `s`, or
/// at the end of `s` where it holds no colon.
pub open spec fn ends_field(s: Seq<char>, i: int) -> bool {
    &&& 0 <= i <= s.len()
    &&& forall|j: int| 0 <= j < i ==> s[j] != ':'
    &&& i < s.len() ==> s[i] == ':'
}

/// Where the first field of `s` ends.
pub open spec fn field_end(s: Seq<char>) -> int {
    choose|i: int| ends_field(s, i)
}

/// The first two of the fields that the colons of `s` separate, if there are
/// two.
pub open spec fn time_fields(s: Seq<char>) -> Option<(Seq<char>, Seq<char>)> {
    let i = field_end(s);
    if i >= s.len() {
        None
    } else {
        let rest = s.subrange(i + 1, s.len() as int);
        Some((s.subrange(0, i), rest.subrange(0, field_end(rest))))
    }
}

/// The hour and the minute that `s` denotes: its first two fields, each read
/// as a `u8`. Further fields are not looked at.
pub open spec fn parsed_time(s: Seq<char>) -> Option<(u8, u8)> {
    match time_fields(s) {
        None => None,
        Some((first, second)) => match (parsed_u8(first), parsed_u8(second)) {
            (Some(h), Some(m)) => Some((h, m)),
            _ => None,
        },
    }
}

/// A time of day as it is shown: both parts padded to two digits.
pub open spec fn time_text(h: u8, m: u8) -> Seq<char> {
    two_digits(h as nat) + seq![':'] + two_digits(m as nat)
}

/// The shape `DD:DD`.
pub open spec fn canonical(s: Seq<char>) -> bool {
    &&& s.len() == 5
    &&& is_digit(s[0])
    &&& is_digit(s[1])
    &&& s[2] == ':'
    &&& is_digit(s[3])
    &&& is_digit(s[4])
}

/// A field ends in one place only.
pub proof fn lemma_field_end(s: Seq<char>, i: int)
    requires
        ends_field(s, i),
    ensures
        field_end(s) == i,
{
    // The chosen end is an end as well. Were the two apart, the smaller
    // would sit on a colon that lies before the larger.
    let k = field_end(s);
    if k < i {
        assert(s[k] == ':');
    } else if i < k {
        assert(s[i] == ':');
    }
}

/// Finds where the first field of `s` ends.
fn find_field_end(s: &[char]) -> (i: usize)
    ensures
        i == field_end(s@),
        ends_field(s@, i as int),
{
    let mut i: usize = 0;
    while i < s.len() && s[i] != ':'
        invariant
            i <= s.len(),
            forall|j: int| 0 <= j < i ==> s@[j] != ':',
        decreases s.len() - i,
    {
        i += 1;
    }
    proof {
        lemma_field_end(s@, i as int);
    }
    i
}

// ---------------------------------------------------------------------------
// The type
// ---------------------------------------------------------------------------

/// A time of day. Neither part is held to the range of a clock: `25:70` is a
/// time, seventy minutes after hour twenty-five.
#[derive(Clone, Copy, Debug, PartialEq, Eq, Structural)]
pub struct Time {
    h: u8,
    m: u8,
}

impl Time {
    /// The hour.
    pub closed spec fn spec_hour(&self) -> u8 {
        self.h
    }

    /// The minute.
    pub closed spec fn spec_minute(&self) -> u8 {
        self.m
    }

    /// The time `h:m`.
    pub closed spec fn of(h: u8, m: u8) -> Time {
        Time { h, m }
    }

    /// Minutes since midnight.
    pub open spec fn spec_timestamp(&self) -> i16 {
        (self.hour() * 60 + self.minute()) as i16
    }

    /// The hour.
    #[verifier::when_used_as_spec(spec_hour)]
    pub fn hour(&self) -> (h: u8)
        ensures
            h == self.hour(),
    {
        self.h
    }

    /// The minute.
    #[verifier::when_used_as_spec(spec_minute)]
    pub fn minute(&self) -> (m: u8)
        ensures
            m == self.minute(),
    {
        self.m
    }

    /// Reads a time from its first two colon-separated fields.
    pub fn from_chars(s: &[char]) -> (r: Result<Time, ParseError>)
        ensures
            match parsed_time(s@) {
                Some((h, m)) => r == Ok::<Time, ParseError>(Time::of(h, m)) && r.unwrap().hour()
                    == h && r.unwrap().minute() == m,
                None => r == Err::<Time, ParseError>(ParseError::MalformedTime),
            },
    {
        let n = s.len();
        let i = find_field_end(s);
        if i >= n {
            return Err(ParseError::MalformedTime);
        }
        let rest = slice_subrange(s, i + 1, n);
        let j = find_field_end(rest);
        let first = slice_subrange(s, 0, i);
        let second = slice_subrange(rest, 0, j);
        match parse_u8(first) {
            None => Err(ParseError::MalformedTime),
            Some(h) => match parse_u8(second) {
                None => Err(ParseError::MalformedTime),
                Some(m) => Ok(Time { h, m }),
            },
        }
    }

    /// Reads a time from text such as `8:05` or `08:05`.
    pub fn parse(raw: &str) -> (r: Result<Time, ParseError>)
        ensures
            match parsed_time(raw@) {
                Some((h, m)) => r == Ok::<Time, ParseError>(Time::of(h, m)) && r.unwrap().hour()
                    == h && r.unwrap().minute() == m,
                None => r == Err::<Time, ParseError>(ParseError::MalformedTime),
            },
    {
        let chars = chars_of(raw);
        Time::from_chars(chars.as_slice())
    }

    /// Minutes since midnight.
    #[verifier::when_used_as_spec(spec_timestamp)]
    pub fn timestamp(&self) -> (ts: i16)
        ensures
            ts == self.timestamp(),
            ts == self.hour() * 60 + self.minute(),
    {
        self.h as i16 * 60 + self.m as i16
    }

    /// The time as `HH:MM`.
    pub fn to_string(&self) -> (s: String)
        ensures
            s@ == time_text(self.hour(), self.minute()),
    {
        let mut s = String::new();
        push_two_digits(&mut s, self.h);
        s.push(':');
        push_two_digits(&mut s, self.m);
        s
    }
}

/// A time is known by its hour and minute: `of(h, m)` has them, and it is
/// the only time that does.
pub proof fn lemma_time_by_parts(a: Time, h: u8, m: u8)
    ensures
        Time::of(h, m).hour() == h,
        Time::of(h, m).minute() == m,
        a.hour() == h && a.minute() == m ==> a == Time::of(h, m),
{
}

/// Text without a colon, that is with no field or with one, denotes no time.
pub proof fn lemma_no_colon_no_time(s: Seq<char>)
    requires
        forall|j: int| 0 <= j < s.len() ==> s[j] != ':',
    ensures
        parsed_time(s) is None,
{
    lemma_field_end(s, s.len() as int);
}

/// Writing a time and reading it back gives the time.
pub proof fn lemma_time_text_reads_back(h: u8, m: u8)
    ensures
        parsed_time(time_text(h, m)) == Some((h, m)),
        h < 100 && m < 100 ==> canonical(time_text(h, m)),
{
    let a = two_digits(h as nat);
    let b = two_digits(m as nat);
    let text = time_text(h, m);
    lemma_two_digits_reads_back(h as nat);
    lemma_two_digits_reads_back(m as nat);
    // The hour is all digits, so the first field ends right behind it.
    assert forall|j: int| 0 <= j < a.len() implies text[j] != ':' by {
        assert(is_digit(a[j]));
    }
    lemma_field_end(text, a.len() as int);
    assert(text.subrange(0, a.len() as int) =~= a);
    // What follows the colon is the minute, which is all digits too.
    let rest = text.subrange(a.len() as int + 1, text.len() as int);
    assert(rest =~= b);
    assert forall|j: int| 0 <= j < b.len() implies b[j] != ':' by {
        assert(is_digit(b[j]));
    }
    lemma_field_end(b, b.len() as int);
    assert(b.subrange(0, b.len() as int) =~= b);
}

/// Reading a time and writing it gives the padded form `HH:MM` of what was
/// read: text of that shape which denotes the same time. Text that already
/// has the shape comes back unchanged.
pub proof fn lemma_parse_then_display(s: Seq<char>)
    requires
        parsed_time(s) is Some,
    ensures
        ({
            let (h, m) = parsed_time(s).unwrap();
            &&& parsed_time(time_text(h, m)) == Some((h, m))
            &&& h < 100 && m < 100 ==> canonical(time_text(h, m))
            &&& canonical(s) ==> time_text(h, m) == s
        }),
{
    let (h, m) = parsed_time(s).unwrap();
    lemma_time_text_reads_back(h, m);
    if canonical(s) {
        lemma_canonical_is_fixed(s);
    }
}

/// Text of the shape `DD:DD` denotes a time, and that time is written as the
/// same text.
pub proof fn lemma_canonical_is_fixed(s: Seq<char>)
    requires
        canonical(s),
    ensures
        parsed_time(s) is Some,
        time_text(parsed_time(s).unwrap().0, parsed_time(s).unwrap().1) == s,
{
    lemma_field_end(s, 2);
    let rest = s.subrange(3, 5);
    lemma_field_end(rest, 2);
    let first = s.subrange(0, 2);
    let second = rest.subrange(0, 2);
    lemma_pair_of_digits(first);
    lemma_pair_of_digits(second);
    assert(s =~= first + seq![':'] + second);
}

/// Two digits denote a number below a hundred, which is written as the same
/// two digits.
proof fn lemma_pair_of_digits(s: Seq<char>)
    requires
        s.len() == 2,
        is_digit(s[0]),
        is_digit(s[1]),
    ensures
        parsed_u8(s) is Some,
        two_digits(parsed_u8(s).unwrap() as nat) == s,
{
    let tens = s.drop_last();
    assert(digits_value(tens.drop_last()) == 0);
    assert(digits_value(tens) == digit_value(s[0]));
    assert(digits_value(s) == 10 * digit_value(s[0]) + digit_value(s[1]));
    lemma_digit_char_of_value(s[0]);
    lemma_digit_char_of_value(s[1]);
    let n = digits_value(s) as nat;
    if n >= 10 {
        assert(decimal(n / 10) =~= seq![s[0]]);
    }
    assert(two_digits(n) =~= s);
}

} // verus!
