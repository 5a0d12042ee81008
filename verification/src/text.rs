//! Characters, whitespace trimming and decimal numerals.
//!
//! Everything here is stated over `Seq<char>`, the view of a string or of a
//! slice of characters.

use vstd::prelude::*;
use vstd::slice::slice_subrange;

verus! {

/// Collects the characters of `s` into a vector.
pub fn chars_of(s: &str) -> (out: Vec<char>)
    ensures
        out@ == s@,
{
    let mut out: Vec<char> = Vec::new();
    for c in it: s.chars()
        invariant
            out@ == it.seq().take(it.index() as int),
            it.seq() == s@,
    {
        out.push(c);
    }
    out
}

// ---------------------------------------------------------------------------
// Whitespace
// ---------------------------------------------------------------------------

/// Whether `c` carries the Unicode property `White_Space`.
pub open spec fn is_space(c: char) -> bool {
    let u = c as u32;
    ||| 0x0009 <= u <= 0x000d
    ||| u == 0x0020
    ||| u == 0x0085
    ||| u == 0x00a0
    ||| u == 0x1680
    ||| 0x2000 <= u <= 0x200a
    ||| u == 0x2028
    ||| u == 0x2029
    ||| u == 0x202f
    ||| u == 0x205f
    ||| u == 0x3000
}

/// Decides [`is_space`].
pub fn is_whitespace(c: char) -> (b: bool)
    ensures
        b == is_space(c),
{
    let u: u32 = c as u32;
    (0x0009 <= u && u <= 0x000d) || u == 0x0020 || u == 0x0085 || u == 0x00a0 || u == 0x1680 || (
    0x2000 <= u && u <= 0x200a) || u == 0x2028 || u == 0x2029 || u == 0x202f || u == 0x205f || u
        == 0x3000
}

/// `s` without its leading whitespace.
pub open spec fn trim_start(s: Seq<char>) -> Seq<char>
    decreases s.len(),
{
    if s.len() > 0 && is_space(s.first()) {
        trim_start(s.drop_first())
    } else {
        s
    }
}

/// `s` without its trailing whitespace.
pub open spec fn trim_end(s: Seq<char>) -> Seq<char>
    decreases s.len(),
{
    if s.len() > 0 && is_space(s.last()) {
        trim_end(s.drop_last())
    } else {
        s
    }
}

/// `s` without its leading and trailing whitespace.
pub open spec fn trimmed(s: Seq<char>) -> Seq<char> {
    trim_end(trim_start(s))
}

/// The part of `s` between its leading and its trailing whitespace.
pub fn trim(s: &[char]) -> (out: &[char])
    ensures
        out@ == trimmed(s@),
{
    let n = s.len();
    let mut a: usize = 0;
    proof {
        assert(s@.subrange(0, n as int) =~= s@);
    }
    while a < n && is_whitespace(s[a])
        invariant
            n == s.len(),
            a <= n,
            trim_start(s@) == trim_start(s@.subrange(a as int, n as int)),
        decreases n - a,
    {
        proof {
            assert(s@.subrange(a as int, n as int).drop_first() =~= s@.subrange(
                a as int + 1,
                n as int,
            ));
        }
        a += 1;
    }
    let mut b: usize = n;
    while b > a && is_whitespace(s[b - 1])
        invariant
            n == s.len(),
            a <= b <= n,
            trim_end(s@.subrange(a as int, n as int)) == trim_end(
                s@.subrange(a as int, b as int),
            ),
        decreases b,
    {
        proof {
            assert(s@.subrange(a as int, b as int).drop_last() =~= s@.subrange(
                a as int,
                b as int - 1,
            ));
        }
        b -= 1;
    }
    slice_subrange(s, a, b)
}

// ---------------------------------------------------------------------------
// Reading decimal numerals
// ---------------------------------------------------------------------------

/// Whether `c` is one of the ten ASCII digits.
pub open spec fn is_digit(c: char) -> bool {
    '0' <= c <= '9'
}

/// The number that the digit `c` stands for.
pub open spec fn digit_value(c: char) -> int {
    c as int - '0' as int
}

/// Whether `s` holds digits only.
pub open spec fn all_digits(s: Seq<char>) -> bool {
    forall|i: int| 0 <= i < s.len() ==> is_digit(#[trigger] s[i])
}

/// The number that a run of digits denotes in base ten; zero for the empty run.
pub open spec fn digits_value(s: Seq<char>) -> int
    decreases s.len(),
{
    if s.len() == 0 {
        0
    } else {
        10 * digits_value(s.drop_last()) + digit_value(s.last())
    }
}

/// What an unsigned numeral denotes: it has at least one digit and nothing
/// but digits.
pub open spec fn magnitude(s: Seq<char>) -> Option<int> {
    if s.len() > 0 && all_digits(s) {
        Some(digits_value(s))
    } else {
        None
    }
}

/// What a numeral denotes. One leading `+` is always accepted, one leading
/// `-` only where `signed` is set.
pub open spec fn numeral(s: Seq<char>, signed: bool) -> Option<int> {
    if s.len() > 0 && s[0] == '+' {
        magnitude(s.drop_first())
    } else if signed && s.len() > 0 && s[0] == '-' {
        match magnitude(s.drop_first()) {
            Some(v) => Some(-v),
            None => None,
        }
    } else {
        magnitude(s)
    }
}

/// The `u8` that `s` denotes, if it denotes one.
pub open spec fn parsed_u8(s: Seq<char>) -> Option<u8> {
    match numeral(s, false) {
        Some(v) => if v <= u8::MAX {
            Some(v as u8)
        } else {
            None
        },
        None => None,
    }
}

/// The `i16` that `s` denotes, if it denotes one.
pub open spec fn parsed_i16(s: Seq<char>) -> Option<i16> {
    match numeral(s, true) {
        Some(v) => if i16::MIN <= v <= i16::MAX {
            Some(v as i16)
        } else {
            None
        },
        None => None,
    }
}

/// A run of digits denotes no less than any of its prefixes.
proof fn lemma_digits_value_prefix(s: Seq<char>, k: int)
    requires
        all_digits(s),
        0 <= k <= s.len(),
    ensures
        0 <= digits_value(s.take(k)) <= digits_value(s),
    decreases s.len(),
{
    if k == s.len() {
        assert(s.take(k) =~= s);
        if s.len() > 0 {
            lemma_digits_value_prefix(s.drop_last(), k - 1);
        }
    } else {
        lemma_digits_value_prefix(s.drop_last(), k);
        assert(s.drop_last().take(k) =~= s.take(k));
    }
}

/// The number that the digit `c` stands for, if `c` is a digit.
pub fn digit_of(c: char) -> (d: Option<u8>)
    ensures
        d is Some <==> is_digit(c),
        d is Some ==> d.unwrap() == digit_value(c),
{
    if '0' <= c && c <= '9' {
        Some((c as u32 - 48) as u8)
    } else {
        None
    }
}

/// Reads an unsigned numeral that denotes at most `cap`.
fn parse_magnitude(s: &[char], cap: u32) -> (r: Option<u32>)
    requires
        cap <= 100_000_000,
    ensures
        match r {
            Some(v) => v <= cap && magnitude(s@) == Some(v as int),
            None => magnitude(s@) matches Some(v) ==> v > cap,
        },
{
    let n = s.len();
    if n == 0 {
        return None;
    }
    let mut acc: u32 = 0;
    let mut i: usize = 0;
    while i < n
        invariant
            n == s.len(),
            i <= n,
            cap <= 100_000_000,
            all_digits(s@.take(i as int)),
            acc == digits_value(s@.take(i as int)),
            acc <= cap,
        decreases n - i,
    {
        let d = match digit_of(s[i]) {
            Some(d) => d,
            None => {
                return None;
            },
        };
        let next: u32 = acc * 10 + d as u32;
        proof {
            assert(s@.take(i as int + 1).drop_last() =~= s@.take(i as int));
        }
        if next > cap {
            proof {
                if all_digits(s@) {
                    lemma_digits_value_prefix(s@, i as int + 1);
                }
            }
            return None;
        }
        acc = next;
        i += 1;
    }
    proof {
        assert(s@.take(n as int) =~= s@);
    }
    Some(acc)
}

/// Reads a `u8` the way the standard library reads one from a string: an
/// optional `+`, then at least one digit, nothing else, and no more than 255.
pub fn parse_u8(s: &[char]) -> (r: Option<u8>)
    ensures
        r == parsed_u8(s@),
{
    let digits = if s.len() > 0 && s[0] == '+' {
        slice_subrange(s, 1, s.len())
    } else {
        s
    };
    match parse_magnitude(digits, 255) {
        Some(v) => Some(v as u8),
        None => None,
    }
}

/// Reads an `i16` the way the standard library reads one from a string: an
/// optional `+` or `-`, then at least one digit, nothing else, and a value
/// from -32768 to 32767.
pub fn parse_i16(s: &[char]) -> (r: Option<i16>)
    ensures
        r == parsed_i16(s@),
{
    if s.len() > 0 && s[0] == '-' {
        match parse_magnitude(slice_subrange(s, 1, s.len()), 32768) {
            Some(v) => Some((0 - v as i32) as i16),
            None => None,
        }
    } else {
        let digits = if s.len() > 0 && s[0] == '+' {
            slice_subrange(s, 1, s.len())
        } else {
            s
        };
        match parse_magnitude(digits, 32767) {
            Some(v) => Some(v as i16),
            None => None,
        }
    }
}

// ---------------------------------------------------------------------------
// Writing decimal numerals
// ---------------------------------------------------------------------------

/// The digit that stands for `d`, for `d` below ten.
pub open spec fn digit_char(d: int) -> char {
    (d + '0' as int) as u8 as char
}

/// `n` in base ten, without leading zeros.
pub open spec fn decimal(n: nat) -> Seq<char>
    decreases n,
{
    if n < 10 {
        seq![digit_char(n as int)]
    } else {
        decimal(n / 10).push(digit_char((n % 10) as int))
    }
}

/// `v` in base ten, with a leading `-` where it is negative.
pub open spec fn signed_decimal(v: int) -> Seq<char> {
    if v < 0 {
        seq!['-'] + decimal((-v) as nat)
    } else {
        decimal(v as nat)
    }
}

/// `n` in base ten, padded with a zero to two digits.
pub open spec fn two_digits(n: nat) -> Seq<char> {
    if n < 10 {
        seq!['0'] + decimal(n)
    } else {
        decimal(n)
    }
}

/// Appends `n` in base ten.
pub fn push_decimal(out: &mut String, n: u32)
    ensures
        final(out)@ == old(out)@ + decimal(n as nat),
    decreases n,
{
    if n >= 10 {
        push_decimal(out, n / 10);
    }
    let d: u8 = (n % 10) as u8;
    out.push((d + 48) as char);
}

/// Appends `v` in base ten, with a leading `-` where it is negative.
pub fn push_signed_decimal(out: &mut String, v: i32)
    ensures
        final(out)@ == old(out)@ + signed_decimal(v as int),
{
    if v < 0 {
        out.push('-');
        let m: u32 = (0 - v as i64) as u32;
        push_decimal(out, m);
    } else {
        push_decimal(out, v as u32);
    }
}

/// Appends `n` in base ten, padded with a zero to two digits.
pub fn push_two_digits(out: &mut String, n: u8)
    ensures
        final(out)@ == old(out)@ + two_digits(n as nat),
{
    if n < 10 {
        out.push('0');
    }
    push_decimal(out, n as u32);
}

/// Writing a number and reading it back gives the number: `decimal(n)` is a
/// run of at least one digit that denotes `n`.
pub proof fn lemma_decimal_reads_back(n: nat)
    ensures
        decimal(n).len() >= 1,
        all_digits(decimal(n)),
        digits_value(decimal(n)) == n,
        magnitude(decimal(n)) == Some(n as int),
    decreases n,
{
    if n < 10 {
        let s = decimal(n);
        assert(digits_value(s.drop_last()) == 0);
    } else {
        lemma_decimal_reads_back(n / 10);
        let s = decimal(n);
        assert(s.drop_last() =~= decimal(n / 10));
    }
}

/// A padded number reads back as the number: `two_digits(n)` is a run of at
/// least two digits that denotes `n`, and of exactly two where `n` is below
/// a hundred.
pub proof fn lemma_two_digits_reads_back(n: nat)
    ensures
        two_digits(n).len() >= 2,
        n < 100 ==> two_digits(n).len() == 2,
        all_digits(two_digits(n)),
        digits_value(two_digits(n)) == n,
{
    lemma_decimal_reads_back(n);
    let s = two_digits(n);
    if n < 10 {
        assert(s.drop_last() =~= seq!['0']);
        assert(digits_value(seq!['0'].drop_last()) == 0);
        assert(digits_value(seq!['0']) == 0);
    } else {
        lemma_decimal_reads_back(n / 10);
    }
}

/// A digit stands for the number whose digit it is.
pub proof fn lemma_digit_char_of_value(c: char)
    requires
        is_digit(c),
    ensures
        0 <= digit_value(c) <= 9,
        digit_char(digit_value(c)) == c,
{
}

} // verus!
