//! Decimal numbers and colon-separated times of day, as the feed and the
//! timetable write them.

use vstd::prelude::*;

verus! {

/// Whether `c` is one of the ten ASCII digits.
pub open spec fn is_digit(c: char) -> bool {
    48 <= c as int <= 57
}

/// The number that the digit `c` stands for.
pub open spec fn digit_value(c: char) -> int {
    c as int - 48
}

/// Whether `text` consists of ASCII digits only; true of the empty text.
pub open spec fn all_digits(text: Seq<char>) -> bool {
    forall|i: int| 0 <= i < text.len() ==> is_digit(#[trigger] text[i])
}

/// The number that a run of digits stands for, read in base ten; 0 for the
/// empty run.
pub open spec fn decimal_value(digits: Seq<char>) -> int
    decreases digits.len(),
{
    if digits.len() == 0 {
        0
    } else {
        decimal_value(digits.drop_last()) * 10 + digit_value(digits.last())
    }
}

/// The value of `digits` where it is a non-empty run of digits that stands
/// for a number of at most `limit`.
pub open spec fn bounded_decimal(digits: Seq<char>, limit: int) -> Option<int> {
    if digits.len() > 0 && all_digits(digits) && decimal_value(digits) <= limit {
        Some(decimal_value(digits))
    } else {
        None
    }
}

/// What `text` stands for as a 64-bit signed integer: an optional `+` or
/// `-`, then at least one digit and nothing else, with a value that fits.
pub open spec fn i64_of(text: Seq<char>) -> Option<i64> {
    if text.len() > 0 && text[0] == '-' {
        match bounded_decimal(text.subrange(1, text.len() as int), 0x8000_0000_0000_0000) {
            Some(magnitude) => Some((-magnitude) as i64),
            None => None,
        }
    } else if text.len() > 0 && text[0] == '+' {
        match bounded_decimal(text.subrange(1, text.len() as int), 0x7fff_ffff_ffff_ffff) {
            Some(magnitude) => Some(magnitude as i64),
            None => None,
        }
    } else {
        match bounded_decimal(text, 0x7fff_ffff_ffff_ffff) {
            Some(magnitude) => Some(magnitude as i64),
            None => None,
        }
    }
}

/// What `text` stands for as a 32-bit unsigned integer: an optional `+`,
/// then at least one digit and nothing else, with a value that fits.
pub open spec fn u32_of(text: Seq<char>) -> Option<u32> {
    if text.len() > 0 && text[0] == '+' {
        match bounded_decimal(text.subrange(1, text.len() as int), 0xffff_ffff) {
            Some(value) => Some(value as u32),
            None => None,
        }
    } else {
        match bounded_decimal(text, 0xffff_ffff) {
            Some(value) => Some(value as u32),
            None => None,
        }
    }
}

/// The position of the first `:` of `text` at or after `from`; the length of
/// `text` where there is none.
pub open spec fn next_colon(text: Seq<char>, from: int) -> int
    decreases text.len() - from,
{
    if from >= text.len() {
        text.len() as int
    } else if text[from] == ':' {
        from
    } else {
        next_colon(text, from + 1)
    }
}

/// An hour, a minute and a second as the timetable gives them; none of them
/// is held to a range.
#[derive(Debug, Clone, Copy, PartialEq, Eq, Structural)]
pub struct TimeOfDay {
    pub hour: u32,
    pub minute: u32,
    pub second: u32,
}

/// The number that the component of `text` between `from` and the next `:`
/// stands for; 0 where it stands for none.
pub open spec fn component_value(text: Seq<char>, from: int) -> u32 {
    match u32_of(text.subrange(from, next_colon(text, from))) {
        Some(value) => value,
        None => 0,
    }
}

/// The time of day that `text` gives: its first three components between
/// colons, each read as a number. A component that is missing or stands for
/// no number counts as 0; what follows a third colon is ignored.
pub open spec fn time_of_day(text: Seq<char>) -> TimeOfDay {
    let first_end = next_colon(text, 0);
    let second_end = next_colon(text, first_end + 1);
    TimeOfDay {
        hour: component_value(text, 0),
        minute: if first_end < text.len() {
            component_value(text, first_end + 1)
        } else {
            0
        },
        second: if first_end < text.len() && second_end < text.len() {
            component_value(text, second_end + 1)
        } else {
            0
        },
    }
}

/// The ASCII digit that stands for `value`, a number below ten.
pub open spec fn digit_char(value: int) -> char {
    (value + 48) as char
}

/// `value` in decimal notation, without sign or padding.
pub open spec fn decimal_text(value: nat) -> Seq<char>
    decreases value,
{
    if value < 10 {
        seq![digit_char(value as int)]
    } else {
        decimal_text(value / 10).push(digit_char((value % 10) as int))
    }
}

/// `value`, a number below a hundred, as two digits.
pub open spec fn two_digits(value: nat) -> Seq<char> {
    seq![digit_char((value / 10) as int), digit_char((value % 10) as int)]
}

/// `value` in decimal notation, padded with zeros to at least `width`
/// digits.
pub open spec fn padded_decimal(value: nat, width: nat) -> Seq<char> {
    let digits = decimal_text(value);
    if digits.len() >= width {
        digits
    } else {
        Seq::new((width - digits.len()) as nat, |i: int| '0') + digits
    }
}

/// A run of digits stands for at least as much as any of its prefixes.
pub proof fn lemma_decimal_value_grows(digits: Seq<char>, prefix: int)
    requires
        all_digits(digits),
        0 <= prefix <= digits.len(),
    ensures
        0 <= decimal_value(digits.take(prefix)) <= decimal_value(digits),
    decreases digits.len(),
{
    if digits.len() == 0 {
        assert(digits.take(prefix) =~= digits);
    } else if prefix == digits.len() {
        assert(digits.take(prefix) =~= digits);
        lemma_decimal_value_grows(digits.drop_last(), prefix - 1);
        assert(is_digit(digits.last()));
    } else {
        assert(digits.drop_last().take(prefix) =~= digits.take(prefix));
        lemma_decimal_value_grows(digits.drop_last(), prefix);
        assert(is_digit(digits.last()));
    }
}

/// Reads the characters of `text` from `from` up to `to` as a run of digits
/// that stands for at most `limit`.
fn decimal_between(text: &str, from: usize, to: usize, limit: u64) -> (value: Option<u64>)
    requires
        from <= to <= text@.len(),
    ensures
        value matches Some(v) ==> bounded_decimal(text@.subrange(from as int, to as int), limit as int) == Some(v as int),
        value is None ==> bounded_decimal(text@.subrange(from as int, to as int), limit as int) is None,
{
    let ghost digits = text@.subrange(from as int, to as int);
    if from == to {
        return None;
    }
    let mut total: u128 = 0;
    let mut i: usize = from;
    while i < to
        invariant
            from <= i <= to <= text@.len(),
            digits == text@.subrange(from as int, to as int),
            all_digits(digits.take(i - from)),
            total == decimal_value(digits.take(i - from)),
            total <= limit,
        decreases to - i,
    {
        let c = text.get_char(i);
        let code = c as u32;
        let ghost seen = digits.take(i - from);
        let ghost next = digits.take(i - from + 1);
        proof {
            assert(digits[i - from] == c);
            assert(next.drop_last() =~= seen);
            assert(next.last() == c);
        }
        if code < 48 || code > 57 {
            proof {
                assert(!is_digit(digits[i - from]));
            }
            return None;
        }
        let grown: u128 = total * 10 + (code - 48) as u128;
        proof {
            assert(grown == decimal_value(next));
            assert forall|j: int| 0 <= j < next.len() implies is_digit(#[trigger] next[j]) by {
                if j < seen.len() {
                    assert(next[j] == seen[j]);
                }
            }
        }
        if grown > limit as u128 {
            proof {
                if all_digits(digits) {
                    lemma_decimal_value_grows(digits, i - from + 1);
                }
            }
            return None;
        }
        total = grown;
        i = i + 1;
    }
    proof {
        assert(digits.take(to - from) =~= digits);
    }
    Some(total as u64)
}

/// Reads `text` as a 64-bit signed integer in decimal notation.
pub fn parse_i64(text: &str) -> (number: Option<i64>)
    ensures
        number == i64_of(text@),
{
    let n = text.unicode_len();
    if n == 0 {
        return None;
    }
    let first = text.get_char(0);
    if first == '-' {
        match decimal_between(text, 1, n, 0x8000_0000_0000_0000) {
            Some(magnitude) => {
                if magnitude == 0x8000_0000_0000_0000 {
                    Some(i64::MIN)
                } else {
                    Some(-(magnitude as i64))
                }
            },
            None => None,
        }
    } else if first == '+' {
        match decimal_between(text, 1, n, 0x7fff_ffff_ffff_ffff) {
            Some(magnitude) => Some(magnitude as i64),
            None => None,
        }
    } else {
        proof {
            assert(text@.subrange(0, n as int) =~= text@);
        }
        match decimal_between(text, 0, n, 0x7fff_ffff_ffff_ffff) {
            Some(magnitude) => Some(magnitude as i64),
            None => None,
        }
    }
}

/// Reads the characters of `text` from `from` up to `to` as a 32-bit
/// unsigned integer in decimal notation.
fn parse_u32_between(text: &str, from: usize, to: usize) -> (number: Option<u32>)
    requires
        from <= to <= text@.len(),
    ensures
        number == u32_of(text@.subrange(from as int, to as int)),
{
    let ghost part = text@.subrange(from as int, to as int);
    if from == to {
        return None;
    }
    let first = text.get_char(from);
    proof {
        assert(part[0] == first);
    }
    if first == '+' {
        proof {
            assert(part.subrange(1, part.len() as int) =~= text@.subrange(from + 1, to as int));
        }
        match decimal_between(text, from + 1, to, 0xffff_ffff) {
            Some(value) => Some(value as u32),
            None => None,
        }
    } else {
        match decimal_between(text, from, to, 0xffff_ffff) {
            Some(value) => Some(value as u32),
            None => None,
        }
    }
}

/// Reads `text` as a 32-bit unsigned integer in decimal notation.
pub fn parse_u32(text: &str) -> (number: Option<u32>)
    ensures
        number == u32_of(text@),
{
    let n = text.unicode_len();
    proof {
        assert(text@.subrange(0, n as int) =~= text@);
    }
    parse_u32_between(text, 0, n)
}

/// Finds the first `:` of `text` at or after `from`.
fn find_colon(text: &str, from: usize) -> (position: usize)
    requires
        from <= text@.len(),
    ensures
        position == next_colon(text@, from as int),
        from <= position <= text@.len(),
{
    let n = text.unicode_len();
    let mut i: usize = from;
    while i < n
        invariant
            from <= i <= n,
            n == text@.len(),
            next_colon(text@, from as int) == next_colon(text@, i as int),
        decreases n - i,
    {
        if text.get_char(i) == ':' {
            return i;
        }
        i = i + 1;
    }
    i
}

/// Reads the component of `text` that starts at `from`, and says where it
/// ends.
fn read_component(text: &str, from: usize) -> (read: (u32, usize))
    requires
        from <= text@.len(),
    ensures
        read.0 == component_value(text@, from as int),
        read.1 == next_colon(text@, from as int),
        from <= read.1 <= text@.len(),
{
    let end = find_colon(text, from);
    let value = match parse_u32_between(text, from, end) {
        Some(value) => value,
        None => 0,
    };
    (value, end)
}

/// Reads a time of day written as hour, minute and second between colons.
pub fn parse_time_of_day(text: &str) -> (time: TimeOfDay)
    ensures
        time == time_of_day(text@),
{
    let n = text.unicode_len();
    let (hour, first_end) = read_component(text, 0);
    if first_end >= n {
        return TimeOfDay { hour, minute: 0, second: 0 };
    }
    let (minute, second_end) = read_component(text, first_end + 1);
    if second_end >= n {
        return TimeOfDay { hour, minute, second: 0 };
    }
    let (second, _third_end) = read_component(text, second_end + 1);
    TimeOfDay { hour, minute, second }
}

} // verus!
