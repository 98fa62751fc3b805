//! The `max-age` directive of a `Cache-Control` header.
//!
//! A header value is a list of directives separated by commas. A directive is
//! a name, optionally followed by `=` and a value; blanks around the name and
//! around the value do not count, and the name is matched without regard to
//! case. The first directive named `max-age` decides: the header's max-age is
//! the number its value writes in decimal digits, and there is none when that
//! value is missing, is not made of digits alone, or does not fit in 64 bits.

use vstd::prelude::*;
use vstd::utf8::encode_utf8;

verus! {

/// The byte `,`, which separates directives.
pub const COMMA: u8 = 0x2c;

/// The byte `=`, which separates a directive's name from its value.
pub const EQUALS: u8 = 0x3d;

/// Space and horizontal tab, the blanks that may surround names and values.
pub open spec fn is_blank(b: u8) -> bool {
    b == 0x20 || b == 0x09
}

/// The decimal digits `0` to `9`.
pub open spec fn is_digit(b: u8) -> bool {
    0x30 <= b <= 0x39
}

/// An upper-case ASCII letter as its lower-case letter, any other byte as itself.
pub open spec fn lower(b: u8) -> u8 {
    if 0x41 <= b <= 0x5a {
        (b + 0x20) as u8
    } else {
        b
    }
}

/// The bytes of `max-age`.
pub open spec fn max_age_name() -> Seq<u8> {
    seq![0x6du8, 0x61u8, 0x78u8, 0x2du8, 0x61u8, 0x67u8, 0x65u8]
}

/// Where `sep` first occurs in `s`; the length of `s` if it does not occur.
pub open spec fn find(s: Seq<u8>, sep: u8) -> nat
    decreases s.len(),
{
    if s.len() == 0 || s[0] == sep {
        0
    } else {
        1 + find(s.skip(1), sep)
    }
}

/// `s` without the blanks at its start and at its end.
pub open spec fn trimmed(s: Seq<u8>) -> Seq<u8>
    decreases s.len(),
{
    if s.len() > 0 && is_blank(s.first()) {
        trimmed(s.drop_first())
    } else if s.len() > 0 && is_blank(s.last()) {
        trimmed(s.drop_last())
    } else {
        s
    }
}

/// Whether `name` spells `max-age`, in any mix of upper and lower case.
pub open spec fn names_max_age(name: Seq<u8>) -> bool {
    &&& name.len() == 7
    &&& forall|i: int| 0 <= i < 7 ==> lower(#[trigger] name[i]) == max_age_name()[i]
}

/// Whether every byte of `s` is a decimal digit.
pub open spec fn all_digits(s: Seq<u8>) -> bool {
    forall|i: int| 0 <= i < s.len() ==> is_digit(#[trigger] s[i])
}

/// The number that the digits of `s` write in base ten, most significant first.
pub open spec fn digits_value(s: Seq<u8>) -> nat
    decreases s.len(),
{
    if s.len() == 0 {
        0
    } else {
        10 * digits_value(s.drop_last()) + (s.last() - 0x30) as nat
    }
}

/// The number that `s` writes, if `s` is one or more digits and the number
/// fits in 64 bits.
pub open spec fn decimal(s: Seq<u8>) -> Option<u64> {
    if s.len() > 0 && all_digits(s) && digits_value(s) <= u64::MAX {
        Some(digits_value(s) as u64)
    } else {
        None
    }
}

/// What one directive says of max-age: `None` if it is not named `max-age`,
/// otherwise `Some` of the number its value writes, if it writes one.
pub open spec fn directive_max_age(directive: Seq<u8>) -> Option<Option<u64>> {
    let eq = find(directive, EQUALS) as int;
    if !names_max_age(trimmed(directive.take(eq))) {
        None
    } else if eq >= directive.len() {
        Some(None)
    } else {
        Some(decimal(trimmed(directive.skip(eq + 1))))
    }
}

/// The max-age that a header value of these bytes grants: the first directive
/// named `max-age` decides.
pub open spec fn max_age_of(header: Seq<u8>) -> Option<u64>
    decreases header.len(),
{
    let comma = find(header, COMMA) as int;
    match directive_max_age(header.take(comma)) {
        Some(age) => age,
        None => if comma >= header.len() {
            None
        } else {
            max_age_of(header.skip(comma + 1))
        },
    }
}

/// The max-age that a header value of this text grants, read from its bytes
/// in UTF-8.
pub open spec fn max_age_in(text: Seq<char>) -> Option<u64> {
    max_age_of(encode_utf8(text))
}

/// `find` is within the sequence, nothing before it is the separator, and
/// the separator stands at it unless it is the length.
pub proof fn lemma_find_bounds(s: Seq<u8>, sep: u8)
    ensures
        0 <= find(s, sep) <= s.len(),
        forall|j: int| 0 <= j < find(s, sep) ==> s[j] != sep,
        find(s, sep) < s.len() ==> s[find(s, sep) as int] == sep,
    decreases s.len(),
{
    if s.len() == 0 || s[0] == sep {
    } else {
        let rest = s.skip(1);
        lemma_find_bounds(rest, sep);
        assert forall|j: int| 0 <= j < find(s, sep) implies s[j] != sep by {
            if j > 0 {
                assert(rest[j - 1] == s[j]);
            }
        }
        let found = find(rest, sep) as int;
        if found < rest.len() {
            assert(rest[found] == s[found + 1]);
        }
    }
}

/// A position with nothing but other bytes before it, which holds the
/// separator or is the end, is where `find` points.
pub proof fn lemma_find_is(s: Seq<u8>, sep: u8, at: int)
    requires
        0 <= at <= s.len(),
        forall|j: int| 0 <= j < at ==> s[j] != sep,
        at < s.len() ==> s[at] == sep,
    ensures
        find(s, sep) == at,
{
    lemma_find_bounds(s, sep);
    let found = find(s, sep) as int;
    if found < at {
        assert(s[found] != sep);
    } else if at < found {
        assert(s[at] != sep);
    }
}

/// A window of `s` with only blanks outside it, and no blank at either of
/// its ends, is `s` trimmed.
pub proof fn lemma_trimmed_is(s: Seq<u8>, from: int, to: int)
    requires
        0 <= from <= to <= s.len(),
        forall|j: int| 0 <= j < from ==> is_blank(s[j]),
        forall|j: int| to <= j < s.len() ==> is_blank(s[j]),
        from < to ==> !is_blank(s[from]) && !is_blank(s[to - 1]),
    ensures
        trimmed(s) == s.subrange(from, to),
    decreases s.len(),
{
    if s.len() > 0 && is_blank(s.first()) {
        let rest = s.drop_first();
        if from == 0 {
            // Nothing is kept, so everything from `to` on is blank, and so is
            // what stands before it.
            assert(from == to);
            assert forall|j: int| 0 <= j < rest.len() implies is_blank(rest[j]) by {
                assert(rest[j] == s[j + 1]);
            }
            lemma_trimmed_is(rest, 0, 0);
            assert(rest.subrange(0, 0) =~= s.subrange(from, to));
        } else {
            assert forall|j: int| 0 <= j < from - 1 implies is_blank(rest[j]) by {
                assert(rest[j] == s[j + 1]);
            }
            assert forall|j: int| to - 1 <= j < rest.len() implies is_blank(rest[j]) by {
                assert(rest[j] == s[j + 1]);
            }
            lemma_trimmed_is(rest, from - 1, to - 1);
            assert(rest.subrange(from - 1, to - 1) =~= s.subrange(from, to));
        }
    } else if s.len() > 0 && is_blank(s.last()) {
        let rest = s.drop_last();
        if to == s.len() {
            assert(from == to);
            assert(from == 0);
        } else {
            lemma_trimmed_is(rest, from, to);
            assert(rest.subrange(from, to) =~= s.subrange(from, to));
        }
    } else {
        if s.len() > 0 {
            assert(from == 0);
            assert(to == s.len());
        }
        assert(s.subrange(from, to) =~= s);
    }
}

/// Digits written after digits only add to the number.
pub proof fn lemma_digits_value_grows(s: Seq<u8>, n: int)
    requires
        0 <= n <= s.len(),
        all_digits(s),
    ensures
        digits_value(s.take(n)) <= digits_value(s),
    decreases s.len(),
{
    if n == s.len() {
        assert(s.take(n) =~= s);
    } else {
        let front = s.drop_last();
        assert(is_digit(s.last()));
        assert forall|i: int| 0 <= i < front.len() implies is_digit(#[trigger] front[i]) by {
            assert(front[i] == s[i]);
        }
        lemma_digits_value_grows(front, n);
        assert(front.take(n) =~= s.take(n));
    }
}

/// A directive that is not named `max-age` is passed over: the header grants
/// what the directives after it grant.
pub proof fn lemma_max_age_passes_over(directive: Seq<u8>, rest: Seq<u8>)
    requires
        forall|i: int| 0 <= i < directive.len() ==> directive[i] != COMMA,
        directive_max_age(directive) is None,
    ensures
        max_age_of(directive + seq![COMMA] + rest) == max_age_of(rest),
{
    let header = directive + seq![COMMA] + rest;
    lemma_find_is(header, COMMA, directive.len() as int);
    assert(header.take(directive.len() as int) =~= directive);
    assert(header.skip(directive.len() as int + 1) =~= rest);
}

/// The first directive named `max-age` decides, whatever comes after it.
pub proof fn lemma_max_age_first_decides(directive: Seq<u8>, rest: Seq<u8>)
    requires
        forall|i: int| 0 <= i < directive.len() ==> directive[i] != COMMA,
        directive_max_age(directive) is Some,
    ensures
        max_age_of(directive) == directive_max_age(directive).unwrap(),
        max_age_of(directive + seq![COMMA] + rest) == directive_max_age(directive).unwrap(),
{
    let header = directive + seq![COMMA] + rest;
    lemma_find_is(header, COMMA, directive.len() as int);
    assert(header.take(directive.len() as int) =~= directive);
    lemma_find_is(directive, COMMA, directive.len() as int);
    assert(directive.take(directive.len() as int) =~= directive);
}

/// The directive `max-age=N`, with `N` in decimal digits and within 64 bits,
/// says `N`.
pub proof fn lemma_max_age_directive(digits: Seq<u8>)
    requires
        digits.len() > 0,
        all_digits(digits),
        digits_value(digits) <= u64::MAX,
    ensures
        directive_max_age(max_age_name() + seq![EQUALS] + digits) == Some(
            Some(digits_value(digits) as u64),
        ),
        forall|i: int|
            0 <= i < (max_age_name() + seq![EQUALS] + digits).len() ==> (max_age_name()
                + seq![EQUALS] + digits)[i] != COMMA,
{
    let name = max_age_name();
    let directive = name + seq![EQUALS] + digits;
    lemma_find_is(directive, EQUALS, 7);
    assert(directive.take(7) =~= name);
    assert(directive.skip(8) =~= digits);
    assert(!is_blank(name.first()) && !is_blank(name.last()));
    assert(trimmed(name) == name);
    assert(is_digit(digits[0]) && is_digit(digits[digits.len() - 1]));
    assert(trimmed(digits) == digits);
    assert forall|i: int| 0 <= i < directive.len() implies directive[i] != COMMA by {
        if i >= 8 {
            assert(is_digit(digits[i - 8]));
        }
    }
}

/// A header that is nothing but `max-age=N` grants `N`, for every `N` within
/// 64 bits and however many zeros it is written with.
pub proof fn lemma_max_age_alone(digits: Seq<u8>)
    requires
        digits.len() > 0,
        all_digits(digits),
        digits_value(digits) <= u64::MAX,
    ensures
        max_age_of(max_age_name() + seq![EQUALS] + digits) == Some(digits_value(digits) as u64),
{
    lemma_max_age_directive(digits);
    lemma_max_age_first_decides(max_age_name() + seq![EQUALS] + digits, Seq::empty());
}

/// Whether `b` is a space or a horizontal tab.
fn blank(b: u8) -> (r: bool)
    ensures
        r == is_blank(b),
{
    b == 0x20 || b == 0x09
}

/// `b` in lower case, if it is an upper-case ASCII letter.
fn to_lower(b: u8) -> (r: u8)
    ensures
        r == lower(b),
{
    if 0x41 <= b && b <= 0x5a {
        b + 0x20
    } else {
        b
    }
}

/// Where `sep` first stands in `bytes[from..to]`, as an index into `bytes`;
/// `to` if it does not stand there.
fn find_byte(bytes: &[u8], from: usize, to: usize, sep: u8) -> (at: usize)
    requires
        from <= to <= bytes@.len(),
    ensures
        from <= at <= to,
        at - from == find(bytes@.subrange(from as int, to as int), sep),
{
    let ghost window = bytes@.subrange(from as int, to as int);
    let mut at: usize = from;
    while at < to && bytes[at] != sep
        invariant
            from <= at <= to <= bytes@.len(),
            window == bytes@.subrange(from as int, to as int),
            forall|j: int| 0 <= j < at - from ==> window[j] != sep,
        decreases to - at,
    {
        at += 1;
    }
    proof {
        lemma_find_is(window, sep, at - from);
    }
    at
}

/// The window of `bytes[from..to]` that is left without the blanks at its
/// start and at its end.
fn trim(bytes: &[u8], from: usize, to: usize) -> (kept: (usize, usize))
    requires
        from <= to <= bytes@.len(),
    ensures
        from <= kept.0 <= kept.1 <= to,
        bytes@.subrange(kept.0 as int, kept.1 as int) == trimmed(
            bytes@.subrange(from as int, to as int),
        ),
{
    let ghost window = bytes@.subrange(from as int, to as int);
    let mut start: usize = from;
    while start < to && blank(bytes[start])
        invariant
            from <= start <= to <= bytes@.len(),
            window == bytes@.subrange(from as int, to as int),
            forall|j: int| 0 <= j < start - from ==> is_blank(window[j]),
        decreases to - start,
    {
        start += 1;
    }
    let mut end: usize = to;
    while end > start && blank(bytes[end - 1])
        invariant
            from <= start <= end <= to <= bytes@.len(),
            window == bytes@.subrange(from as int, to as int),
            forall|j: int| end - from <= j < window.len() ==> is_blank(window[j]),
        decreases end - start,
    {
        end -= 1;
    }
    proof {
        if start < end {
            assert(window[start - from] == bytes@[start as int]);
            assert(window[end - from - 1] == bytes@[end - 1]);
        } else {
            assert(start < to ==> window[start - from] == bytes@[start as int]);
        }
        if start == end && start < to {
            // The first loop stopped at a byte that is no blank, so the
            // second cannot have come down to it.
            assert(!is_blank(bytes@[start as int]));
            assert(end - from <= start - from < window.len());
            assert(is_blank(window[start - from]));
        }
        lemma_trimmed_is(window, start - from, end - from);
        assert(window.subrange(start - from, end - from) =~= bytes@.subrange(
            start as int,
            end as int,
        ));
    }
    (start, end)
}

/// Whether `bytes[from..to]` spells `max-age`, in any mix of upper and lower
/// case.
fn is_max_age_name(bytes: &[u8], from: usize, to: usize) -> (r: bool)
    requires
        from <= to <= bytes@.len(),
    ensures
        r == names_max_age(bytes@.subrange(from as int, to as int)),
{
    let ghost name = bytes@.subrange(from as int, to as int);
    if to - from != 7 {
        return false;
    }
    let expected: [u8; 7] = [0x6d, 0x61, 0x78, 0x2d, 0x61, 0x67, 0x65];
    assert(expected@ =~= max_age_name());
    let mut i: usize = 0;
    while i < 7
        invariant
            0 <= i <= 7,
            to - from == 7,
            to <= bytes@.len(),
            name == bytes@.subrange(from as int, to as int),
            expected@ == max_age_name(),
            forall|j: int| 0 <= j < i ==> lower(#[trigger] name[j]) == max_age_name()[j],
        decreases 7 - i,
    {
        if to_lower(bytes[from + i]) != expected[i] {
            assert(name[i as int] == bytes@[from + i]);
            return false;
        }
        assert(name[i as int] == bytes@[from + i]);
        i += 1;
    }
    true
}

/// The number that `bytes[from..to]` writes in decimal digits, if it writes
/// one that fits in 64 bits.
fn parse_decimal(bytes: &[u8], from: usize, to: usize) -> (r: Option<u64>)
    requires
        from <= to <= bytes@.len(),
    ensures
        r == decimal(bytes@.subrange(from as int, to as int)),
{
    let ghost digits = bytes@.subrange(from as int, to as int);
    if from == to {
        return None;
    }
    let mut value: u64 = 0;
    let mut i: usize = from;
    assert(digits.take(0) =~= Seq::<u8>::empty());
    while i < to
        invariant
            from <= i <= to <= bytes@.len(),
            from < to,
            digits == bytes@.subrange(from as int, to as int),
            all_digits(digits.take(i - from)),
            value == digits_value(digits.take(i - from)),
        decreases to - i,
    {
        let b: u8 = bytes[i];
        assert(digits[i - from] == b);
        if b < 0x30 || b > 0x39 {
            return None;
        }
        let ghost read = digits.take(i - from + 1);
        proof {
            assert(read.drop_last() =~= digits.take(i - from));
            assert(read.last() == b);
            assert forall|j: int| 0 <= j < read.len() implies is_digit(#[trigger] read[j]) by {
                if j < i - from {
                    assert(read[j] == digits.take(i - from)[j]);
                }
            }
            if all_digits(digits) {
                lemma_digits_value_grows(digits, i - from + 1);
            }
        }
        let digit: u64 = (b - 0x30) as u64;
        value = match value.checked_mul(10) {
            Some(tens) => match tens.checked_add(digit) {
                Some(sum) => sum,
                None => {
                    return None;
                },
            },
            None => {
                return None;
            },
        };
        i += 1;
    }
    assert(digits.take(to - from) =~= digits);
    Some(value)
}

/// What the directive `bytes[from..to]` says of max-age.
fn read_directive(bytes: &[u8], from: usize, to: usize) -> (r: Option<Option<u64>>)
    requires
        from <= to <= bytes@.len(),
    ensures
        r == directive_max_age(bytes@.subrange(from as int, to as int)),
{
    let ghost directive = bytes@.subrange(from as int, to as int);
    let eq = find_byte(bytes, from, to, EQUALS);
    let name = trim(bytes, from, eq);
    assert(directive.take(eq - from) =~= bytes@.subrange(from as int, eq as int));
    if !is_max_age_name(bytes, name.0, name.1) {
        return None;
    }
    if eq == to {
        return Some(None);
    }
    let value = trim(bytes, eq + 1, to);
    assert(directive.skip(eq - from + 1) =~= bytes@.subrange(eq + 1, to as int));
    Some(parse_decimal(bytes, value.0, value.1))
}

/// The max-age that a header value of these bytes grants.
pub fn max_age_of_bytes(header: &[u8]) -> (max_age: Option<u64>)
    ensures
        max_age == max_age_of(header@),
{
    let len = header.len();
    let mut from: usize = 0;
    assert(header@.skip(0) =~= header@);
    loop
        invariant
            from <= len == header@.len(),
            max_age_of(header@) == max_age_of(header@.skip(from as int)),
        decreases len - from,
    {
        let ghost rest = header@.skip(from as int);
        let comma = find_byte(header, from, len, COMMA);
        assert(header@.subrange(from as int, len as int) =~= rest);
        assert(rest.take(comma - from) =~= header@.subrange(from as int, comma as int));
        match read_directive(header, from, comma) {
            Some(age) => {
                return age;
            },
            None => {},
        }
        if comma == len {
            return None;
        }
        assert(rest.skip(comma - from + 1) =~= header@.skip(comma + 1));
        from = comma + 1;
    }
}

/// The max-age that a `Cache-Control` header value grants, in seconds.
pub fn get_max_age(header: &str) -> (max_age: Option<u64>)
    ensures
        max_age == max_age_in(header@),
{
    max_age_of_bytes(header.as_bytes())
}

} // verus!
