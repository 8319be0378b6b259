//! Byte ranges of a request for part of a file, and the decimal numbers
//! they are written with.

use crate::text::{digit_char, digits_of};
use vstd::prelude::*;

verus! {

/// Whether a character is a decimal digit.
pub open spec fn is_digit(c: char) -> bool {
    '0' <= c && c <= '9'
}

/// The value of a decimal digit.
pub open spec fn digit_value(c: char) -> int {
    c as int - '0' as int
}

/// The number that a run of decimal digits stands for.
pub open spec fn decimal_value(digits: Seq<char>) -> int
    decreases digits.len(),
{
    if digits.len() == 0 {
        0
    } else {
        decimal_value(digits.drop_last()) * 10 + digit_value(digits.last())
    }
}

/// Every character is a decimal digit.
pub open spec fn all_digits(digits: Seq<char>) -> bool {
    forall|i: int| 0 <= i < digits.len() ==> is_digit(#[trigger] digits[i])
}

/// A text without the plus sign that it may start with.
pub open spec fn unsigned_part(text: Seq<char>) -> Seq<char> {
    if text.len() > 0 && text[0] == '+' {
        text.skip(1)
    } else {
        text
    }
}

/// The number that a text stands for, if it stands for one of at most
/// `max`: an optional plus sign, then one decimal digit or more and
/// nothing else.
pub open spec fn parsed_number(text: Seq<char>, max: u64) -> Option<u64> {
    let digits = unsigned_part(text);
    if digits.len() > 0 && all_digits(digits) && decimal_value(digits) <= max {
        Some(decimal_value(digits) as u64)
    } else {
        None
    }
}

/// A run of digits stands for no less than any run that it starts with.
pub proof fn lemma_decimal_grows(digits: Seq<char>, n: int)
    requires
        all_digits(digits),
        0 <= n <= digits.len(),
    ensures
        0 <= decimal_value(digits.take(n)) <= decimal_value(digits),
    decreases digits.len() - n,
{
    if n == digits.len() {
        assert(digits.take(n) =~= digits);
        lemma_decimal_nonnegative(digits);
    } else {
        lemma_decimal_grows(digits, n + 1);
        assert(digits.take(n + 1).drop_last() =~= digits.take(n));
        lemma_decimal_nonnegative(digits.take(n));
    }
}

/// A run of digits stands for no negative number.
pub proof fn lemma_decimal_nonnegative(digits: Seq<char>)
    requires
        all_digits(digits),
    ensures
        0 <= decimal_value(digits),
    decreases digits.len(),
{
    if digits.len() > 0 {
        assert(all_digits(digits.drop_last())) by {
            assert forall|i: int| 0 <= i < digits.drop_last().len() implies is_digit(
                #[trigger] digits.drop_last()[i],
            ) by {
                assert(is_digit(digits[i]));
            }
        }
        lemma_decimal_nonnegative(digits.drop_last());
    }
}

/// Reads a number of at most `max` from a text.
pub fn parse_number(text: &str, max: u64) -> (r: Option<u64>)
    ensures
        r == parsed_number(text@, max),
{
    let len = text.unicode_len();
    let mut i: usize = 0;
    if len > 0 && text.get_char(0) == '+' {
        i = 1;
    }
    let first = i;
    let ghost digits = unsigned_part(text@);
    if i == len {
        return None;
    }
    let mut value: u64 = 0;
    while i < len
        invariant
            first <= i <= len,
            len == text@.len(),
            digits == text@.skip(first as int),
            digits == unsigned_part(text@),
            value == decimal_value(digits.take(i - first)),
            value <= max,
            all_digits(digits.take(i - first)),
        decreases len - i,
    {
        let c = text.get_char(i);
        let ghost seen = digits.take(i - first);
        let ghost next = digits.take(i - first + 1);
        proof {
            assert(digits[i - first] == c);
            assert(next.drop_last() =~= seen);
        }
        if c < '0' || c > '9' {
            return None;
        }
        let d = (c as u32 - '0' as u32) as u64;
        if d > max || value > (max - d) / 10 {
            proof {
                assert(decimal_value(next) > max) by {
                    if d <= max {
                        assert(value * 10 + d > max) by (nonlinear_arith)
                            requires
                                value > (max - d) / 10,
                                0 <= d <= 9,
                                d <= max,
                        ;
                    }
                }
                if all_digits(digits) {
                    lemma_decimal_grows(digits, i - first + 1);
                }
            }
            return None;
        }
        assert(value * 10 + d <= max) by (nonlinear_arith)
            requires
                value <= (max - d) / 10,
                0 <= d <= 9,
                d <= max,
        ;
        value = value * 10 + d;
        proof {
            assert forall|k: int| 0 <= k < next.len() implies is_digit(#[trigger] next[k]) by {
                if k < seen.len() {
                    assert(is_digit(seen[k]));
                }
            }
        }
        i += 1;
    }
    proof {
        assert(digits.take(len - first) =~= digits);
    }
    Some(value)
}

/// The place `i` holds the first character `c` of the text.
pub open spec fn first_at(text: Seq<char>, c: char, i: int) -> bool {
    &&& 0 <= i < text.len()
    &&& text[i] == c
    &&& forall|k: int| 0 <= k < i ==> #[trigger] text[k] != c
}

/// The place `i` holds the last character `c` of the text.
pub open spec fn last_at(text: Seq<char>, c: char, i: int) -> bool {
    &&& 0 <= i < text.len()
    &&& text[i] == c
    &&& forall|k: int| i < k < text.len() ==> #[trigger] text[k] != c
}

/// The place of the first character `c` at or after `from`.
fn find_first(text: &str, c: char, from: usize) -> (r: Option<usize>)
    requires
        from <= text@.len(),
    ensures
        match r {
            Some(i) => from <= i && first_at(text@.skip(from as int), c, i - from),
            None => !text@.skip(from as int).contains(c),
        },
{
    let len = text.unicode_len();
    let ghost rest = text@.skip(from as int);
    let mut i: usize = from;
    while i < len
        invariant
            from <= i <= len,
            len == text@.len(),
            rest == text@.skip(from as int),
            forall|k: int| 0 <= k < i - from ==> #[trigger] rest[k] != c,
        decreases len - i,
    {
        if text.get_char(i) == c {
            return Some(i);
        }
        i += 1;
    }
    None
}

/// The text after `bytes=`, where the header starts so.
pub open spec fn range_spec(header: Seq<char>) -> Option<Seq<char>> {
    if header.len() >= 6 && header.take(6) == seq!['b', 'y', 't', 'e', 's', '='] {
        Some(header.skip(6))
    } else {
        None
    }
}

/// The byte range that a `Range` header asks for in a file of `size`
/// bytes.
///
/// The header is `bytes=`, a first byte, a dash and, where one is given,
/// a last byte. Without a last byte the range runs to the end of the
/// file; a last byte past the end is cut to the end. A header of another
/// shape asks for nothing that is understood.
pub open spec fn requested_range(header: Seq<char>, size: u64) -> Option<(u64, u64)> {
    match range_spec(header) {
        None => None,
        Some(spec) => if exists|d: int| first_at(spec, '-', d) {
            let d = choose|d: int| first_at(spec, '-', d);
            match parsed_number(spec.take(d), u64::MAX) {
                None => None,
                Some(start) => if spec.skip(d + 1).len() == 0 {
                    Some((start, (size - 1) as u64))
                } else {
                    match parsed_number(spec.skip(d + 1), u64::MAX) {
                        None => None,
                        Some(end) => Some(
                            (
                                start,
                                if end < size - 1 {
                                    end
                                } else {
                                    (size - 1) as u64
                                },
                            ),
                        ),
                    }
                },
            }
        } else {
            None
        },
    }
}

/// Whether the header starts with `bytes=`.
fn has_range_prefix(header: &str) -> (r: bool)
    ensures
        r == (range_spec(header@) is Some),
{
    if header.unicode_len() < 6 {
        return false;
    }
    let r = header.get_char(0) == 'b' && header.get_char(1) == 'y' && header.get_char(2) == 't'
        && header.get_char(3) == 'e' && header.get_char(4) == 's' && header.get_char(5) == '=';
    proof {
        let p = seq!['b', 'y', 't', 'e', 's', '='];
        let t = header@.take(6);
        if r {
            assert(t =~= p);
        } else {
            if t == p {
                assert(t[0] == p[0] && t[1] == p[1] && t[2] == p[2] && t[3] == p[3] && t[4]
                    == p[4] && t[5] == p[5]);
            }
        }
    }
    r
}

/// Reads the byte range that a `Range` header asks for in a file of
/// `size` bytes.
pub fn parse_range(header: &str, size: u64) -> (r: Option<(u64, u64)>)
    requires
        size > 0,
    ensures
        r == requested_range(header@, size),
{
    if !has_range_prefix(header) {
        return None;
    }
    let len = header.unicode_len();
    let ghost spec = header@.skip(6);
    let dash = match find_first(header, '-', 6) {
        Some(i) => i,
        None => {
            assert(!(exists|d: int| first_at(spec, '-', d))) by {
                if exists|d: int| first_at(spec, '-', d) {
                    let d = choose|d: int| first_at(spec, '-', d);
                }
            }
            return None;
        },
    };
    proof {
        let d = dash - 6;
        let c = choose|c: int| first_at(spec, '-', c);
        if c < d {
            assert(spec[c] != '-');
        }
        if d < c {
            assert(spec[d] != '-');
        }
        assert(header@.subrange(6, dash as int) =~= spec.take(d));
        assert(header@.subrange(dash + 1, len as int) =~= spec.skip(d + 1));
    }
    let start = match parse_number(header.substring_char(6, dash), u64::MAX) {
        Some(n) => n,
        None => return None,
    };
    if dash + 1 == len {
        return Some((start, size - 1));
    }
    let end = match parse_number(header.substring_char(dash + 1, len), u64::MAX) {
        Some(n) => n,
        None => return None,
    };
    Some((start, if end < size - 1 { end } else { size - 1 }))
}

/// The port that an address ends with: the number after its last colon,
/// where that is a port number.
pub open spec fn port_of(address: Seq<char>) -> Option<u16> {
    if exists|i: int| last_at(address, ':', i) {
        let i = choose|i: int| last_at(address, ':', i);
        match parsed_number(address.skip(i + 1), 65535) {
            Some(n) => Some(n as u16),
            None => None,
        }
    } else {
        None
    }
}

/// Reads the port from the text of an address such as `127.0.0.1:8080` or
/// `[::1]:8080`.
pub fn get_port_from_listen_addr(address: &str) -> (r: Option<u16>)
    ensures
        r == port_of(address@),
{
    let len = address.unicode_len();
    let mut i: usize = len;
    while i > 0
        invariant
            i <= len,
            len == address@.len(),
            forall|k: int| i <= k < len ==> #[trigger] address@[k] != ':',
        decreases i,
    {
        i -= 1;
        if address.get_char(i) == ':' {
            proof {
                assert(last_at(address@, ':', i as int));
                let c = choose|c: int| last_at(address@, ':', c);
                if c < i {
                    assert(address@[i as int] != ':');
                }
                if i < c {
                    assert(address@[c] != ':');
                }
            }
            return match parse_number(address.substring_char(i + 1, len), 65535) {
                Some(n) => Some(n as u16),
                None => None,
            };
        }
    }
    proof {
        if exists|c: int| last_at(address@, ':', c) {
            let c = choose|c: int| last_at(address@, ':', c);
            assert(address@[c] != ':');
        }
    }
    None
}

/// A number written in decimal is a run of digits that stands for it.
pub proof fn lemma_decimal_digits(n: nat)
    ensures
        digits_of(n, 10).len() > 0,
        all_digits(digits_of(n, 10)),
        decimal_value(digits_of(n, 10)) == n,
    decreases n,
{
    let text = digits_of(n, 10);
    if n < 10 {
        assert(decimal_value(text.drop_last()) == 0);
    } else {
        lemma_decimal_digits(n / 10);
        let front = digits_of(n / 10, 10);
        let last = digit_char((n % 10) as int);
        assert(text == front.push(last));
        assert(text.drop_last() =~= front);
        assert forall|i: int| 0 <= i < text.len() implies is_digit(#[trigger] text[i]) by {
            if i < front.len() {
                assert(is_digit(front[i]));
            }
        }
    }
}

/// What is written in decimal is read back as the number that was
/// written.
pub proof fn law_decimal_round_trip(n: u64)
    ensures
        parsed_number(digits_of(n as nat, 10), u64::MAX) == Some(n),
{
    lemma_decimal_digits(n as nat);
    let text = digits_of(n as nat, 10);
    assert(is_digit(text[0]));
}

} // verus!
