//! The text of a grid file: tokens between white space, and decimal integers.
use crate::numeric::{representable, Numerical};
use vstd::prelude::*;
use vstd::string::StringSliceAdditionalSpecFns;

verus! {

/// Whether a byte is white space by itself: a space, a tab, a line feed, a
/// vertical tab, a form feed or a carriage return.
pub open spec fn is_space(b: u8) -> bool {
    b == 32 || (9 <= b && b <= 13)
}

/// The number of bytes of the white-space character whose UTF-8 encoding
/// starts at `i`, or 0 where none starts there.
///
/// White space is the six ASCII characters of `is_space`, and U+0085,
/// U+00A0, U+1680, U+2000 to U+200A, U+2028, U+2029, U+202F, U+205F and
/// U+3000.
pub open spec fn space_len(s: Seq<u8>, i: int) -> int {
    if i < 0 || i >= s.len() {
        0
    } else if is_space(s[i]) {
        1
    } else if i + 1 < s.len() && s[i] == 0xC2 && (s[i + 1] == 0x85 || s[i + 1] == 0xA0) {
        2
    } else if i + 2 < s.len() && s[i] == 0xE1 && s[i + 1] == 0x9A && s[i + 2] == 0x80 {
        3
    } else if i + 2 < s.len() && s[i] == 0xE2 && s[i + 1] == 0x80 && ((0x80 <= s[i + 2] && s[i
        + 2] <= 0x8A) || s[i + 2] == 0xA8 || s[i + 2] == 0xA9 || s[i + 2] == 0xAF) {
        3
    } else if i + 2 < s.len() && s[i] == 0xE2 && s[i + 1] == 0x81 && s[i + 2] == 0x9F {
        3
    } else if i + 2 < s.len() && s[i] == 0xE3 && s[i + 1] == 0x80 && s[i + 2] == 0x80 {
        3
    } else {
        0
    }
}

/// The index of the first byte at or after `from` at which no white space
/// starts, white space passed whole, or the length of `s` where only white
/// space follows.
pub open spec fn skip_spaces(s: Seq<u8>, from: int) -> int
    decreases s.len() - from,
{
    if from < 0 || from >= s.len() {
        s.len() as int
    } else if space_len(s, from) == 0 {
        from
    } else {
        skip_spaces(s, from + space_len(s, from))
    }
}

/// The index of the first byte at or after `from` at which white space
/// starts, or the length of `s` where none follows.
pub open spec fn skip_token(s: Seq<u8>, from: int) -> int
    decreases s.len() - from,
{
    if from < 0 || from >= s.len() {
        s.len() as int
    } else if space_len(s, from) > 0 {
        from
    } else {
        skip_token(s, from + 1)
    }
}

/// Neither skip goes backwards or past the end, a token that starts where
/// no white space does holds at least one byte, and no white space starts
/// within a token.
pub proof fn skips_advance(s: Seq<u8>, from: int)
    requires
        0 <= from <= s.len(),
    ensures
        from <= skip_spaces(s, from) <= s.len(),
        from <= skip_token(s, from) <= s.len(),
        from < s.len() && space_len(s, from) == 0 ==> from < skip_token(s, from),
        skip_spaces(s, from) < s.len() ==> space_len(s, skip_spaces(s, from)) == 0,
        skip_token(s, from) < s.len() ==> space_len(s, skip_token(s, from)) > 0,
        forall|i: int| from <= i < skip_token(s, from) ==> space_len(s, i) == 0,
    decreases s.len() - from,
{
    if from < s.len() {
        skips_advance(s, from + 1);
        if space_len(s, from) > 0 {
            skips_advance(s, from + space_len(s, from));
        }
    }
}

/// The tokens of `s` that start at or after `from`, in order: the maximal
/// runs of bytes between white space.
pub open spec fn tokens_from(s: Seq<u8>, from: int) -> Seq<Seq<u8>>
    decreases s.len() - from,
    when 0 <= from <= s.len()
    via tokens_from_decreases
{
    let start = skip_spaces(s, from);
    if start >= s.len() {
        Seq::empty()
    } else {
        let end = skip_token(s, start);
        seq![s.subrange(start, end)] + tokens_from(s, end)
    }
}

#[via_fn]
proof fn tokens_from_decreases(s: Seq<u8>, from: int) {
    let start = skip_spaces(s, from);
    skips_advance(s, from);
    if start < s.len() {
        skips_advance(s, start);
    }
}

/// The tokens of a line, in order.
pub open spec fn tokens(s: Seq<u8>) -> Seq<Seq<u8>> {
    tokens_from(s, 0)
}

/// The number of bytes of the white-space character that starts at `i`, or
/// 0 where none starts there.
pub fn space_length(line: &[u8], i: usize) -> (n: usize)
    requires
        i < line@.len(),
    ensures
        n == space_len(line@, i as int),
        i + n <= line@.len(),
{
    let b: u8 = line[i];
    let left: usize = line.len() - i;
    if is_space_byte(b) {
        1
    } else if b == 0xC2 {
        if left > 1 && (line[i + 1] == 0x85 || line[i + 1] == 0xA0) {
            2
        } else {
            0
        }
    } else if b == 0xE1 {
        if left > 2 && line[i + 1] == 0x9A && line[i + 2] == 0x80 {
            3
        } else {
            0
        }
    } else if b == 0xE2 {
        if left > 2 && line[i + 1] == 0x80 {
            let c: u8 = line[i + 2];
            if (0x80 <= c && c <= 0x8A) || c == 0xA8 || c == 0xA9 || c == 0xAF {
                3
            } else {
                0
            }
        } else if left > 2 && line[i + 1] == 0x81 && line[i + 2] == 0x9F {
            3
        } else {
            0
        }
    } else if b == 0xE3 {
        if left > 2 && line[i + 1] == 0x80 && line[i + 2] == 0x80 {
            3
        } else {
            0
        }
    } else {
        0
    }
}

/// Where the first token at or after `from` starts and ends. Both are the
/// length of the line where no token is left.
pub fn next_token(line: &[u8], from: usize) -> (span: (usize, usize))
    requires
        from <= line@.len(),
    ensures
        span.0 == skip_spaces(line@, from as int),
        span.1 == skip_token(line@, span.0 as int),
        from <= span.0 <= span.1 <= line@.len(),
        span.0 < line@.len() ==> span.0 < span.1,
{
    let mut start: usize = from;
    loop
        invariant
            from <= start <= line@.len(),
            skip_spaces(line@, from as int) == skip_spaces(line@, start as int),
        ensures
            start == skip_spaces(line@, from as int),
        decreases line@.len() - start,
    {
        if start >= line.len() {
            break ;
        }
        let n: usize = space_length(line, start);
        if n == 0 {
            break ;
        }
        start += n;
    }
    let mut end: usize = start;
    loop
        invariant
            start <= end <= line@.len(),
            skip_token(line@, start as int) == skip_token(line@, end as int),
        ensures
            end == skip_token(line@, start as int),
        decreases line@.len() - end,
    {
        if end >= line.len() {
            break ;
        }
        let n: usize = space_length(line, end);
        if n > 0 {
            break ;
        }
        end += 1;
    }
    proof {
        skips_advance(line@, from as int);
        skips_advance(line@, start as int);
    }
    (start, end)
}

/// Whether a byte is white space by itself.
pub fn is_space_byte(b: u8) -> (space: bool)
    ensures
        space == is_space(b),
{
    b == 32 || (9 <= b && b <= 13)
}

/// Whether a byte is a decimal digit.
pub open spec fn is_digit(b: u8) -> bool {
    48 <= b && b <= 57
}

/// Whether every byte of `s` is a decimal digit.
pub open spec fn all_digits(s: Seq<u8>) -> bool {
    forall|i: int| 0 <= i < s.len() ==> is_digit(#[trigger] s[i])
}

/// The number that a run of decimal digits writes, the empty run writing 0.
pub open spec fn digits_value(s: Seq<u8>) -> int
    decreases s.len(),
{
    if s.len() == 0 {
        0
    } else {
        digits_value(s.drop_last()) * 10 + (s.last() - 48)
    }
}

/// The integer that a token writes: an optional `+` or `-`, then one or more
/// decimal digits. Anything else writes no integer.
pub open spec fn integer_value(s: Seq<u8>) -> Option<int> {
    if s.len() > 0 && (s[0] == 45 || s[0] == 43) {
        let digits = s.subrange(1, s.len() as int);
        if digits.len() > 0 && all_digits(digits) {
            Some(if s[0] == 45 { -digits_value(digits) } else { digits_value(digits) })
        } else {
            None
        }
    } else if s.len() > 0 && all_digits(s) {
        Some(digits_value(s))
    } else {
        None
    }
}

/// A run of digits writes a number that is not negative and not below the
/// number that any of its prefixes writes.
pub proof fn digits_value_grows(s: Seq<u8>, k: int)
    requires
        all_digits(s),
        0 <= k <= s.len(),
    ensures
        0 <= digits_value(s.subrange(0, k)) <= digits_value(s),
    decreases s.len() - k,
{
    if k == s.len() {
        assert(s.subrange(0, k) =~= s);
        digits_value_nonnegative(s);
    } else {
        let longer = s.subrange(0, k + 1);
        assert(longer.drop_last() =~= s.subrange(0, k));
        assert(is_digit(s[k]));
        assert(longer.last() == s[k]);
        digits_value_grows(s, k + 1);
        assert(all_digits(s.subrange(0, k))) by {
            assert forall|i: int| 0 <= i < k implies is_digit(#[trigger] s.subrange(0, k)[i]) by {
                assert(is_digit(s[i]));
            }
        }
        digits_value_nonnegative(s.subrange(0, k));
    }
}

/// A run of digits writes a number that is not negative.
pub proof fn digits_value_nonnegative(s: Seq<u8>)
    requires
        all_digits(s),
    ensures
        0 <= digits_value(s),
    decreases s.len(),
{
    if s.len() > 0 {
        assert(is_digit(s[s.len() - 1]));
        assert forall|i: int| 0 <= i < s.drop_last().len() implies is_digit(
            #[trigger] s.drop_last()[i],
        ) by {
            assert(is_digit(s[i]));
        }
        digits_value_nonnegative(s.drop_last());
    }
}

/// The integer that a token writes, within what a wide integer holds.
pub open spec fn wide_integer_value(s: Seq<u8>) -> Option<i128> {
    match integer_value(s) {
        Some(v) => if i128::MIN <= v <= i128::MAX {
            Some(v as i128)
        } else {
            None
        },
        None => None,
    }
}

/// Reads a token as a decimal integer.
pub fn parse_integer(token: &[u8]) -> (number: Option<i128>)
    ensures
        number == wide_integer_value(token@),
{
    let n: usize = token.len();
    if n == 0 {
        return None;
    }
    let negative: bool = token[0] == 45;
    let first: usize = if token[0] == 45 || token[0] == 43 {
        1
    } else {
        0
    };
    if first == n {
        return None;
    }
    let ghost digits = token@.subrange(first as int, n as int);
    assert(first == 0 ==> digits =~= token@);
    let mut acc: i128 = 0;
    let mut i: usize = first;
    while i < n
        invariant
            first <= i <= n,
            first < n,
            n == token@.len(),
            negative == (token@[0] == 45),
            first == (if token@[0] == 45 || token@[0] == 43 { 1int } else { 0int }),
            digits == token@.subrange(first as int, n as int),
            all_digits(digits.subrange(0, i - first)),
            negative ==> acc == -digits_value(digits.subrange(0, i - first)),
            !negative ==> acc == digits_value(digits.subrange(0, i - first)),
        decreases n - i,
    {
        let b: u8 = token[i];
        if !(48 <= b && b <= 57) {
            assert(!is_digit(digits[i - first]));
            assert(first == 0 ==> digits =~= token@);
            return None;
        }
        let ghost shorter = digits.subrange(0, i - first);
        let ghost longer = digits.subrange(0, i - first + 1);
        proof {
            assert(longer.drop_last() =~= shorter);
            assert(longer.last() == b);
            assert forall|j: int| 0 <= j < longer.len() implies is_digit(#[trigger] longer[j]) by {
                if j < shorter.len() {
                    assert(is_digit(shorter[j]));
                }
            }
            assert(first == 0 ==> digits =~= token@);
            if all_digits(digits) {
                digits_value_grows(digits, i - first + 1);
                digits_value_nonnegative(shorter);
            }
            assert(digits_value(longer) == digits_value(shorter) * 10 + (b - 48));
        }
        let d: i128 = (b - 48) as i128;
        let scaled: i128 = match acc.checked_mul(10) {
            Some(v) => v,
            None => {
                return None;
            },
        };
        let next: Option<i128> = if negative {
            scaled.checked_sub(d)
        } else {
            scaled.checked_add(d)
        };
        match next {
            Some(v) => {
                acc = v;
            },
            None => {
                return None;
            },
        }
        i += 1;
    }
    assert(digits.subrange(0, n - first) =~= digits);
    assert(first == 0 ==> digits =~= token@);
    Some(acc)
}

/// The number of type `U` that a token writes, if it writes one: the integer
/// it writes, where the type holds it. For a type without negative numbers
/// a token that begins with `-` writes no number, not even zero.
pub open spec fn number_value<U: Numerical>(token: Seq<u8>) -> Option<int> {
    match integer_value(token) {
        Some(v) => if representable::<U>(v) && (U::lowest() < 0 || token[0] != 45) {
            Some(v)
        } else {
            None
        },
        None => None,
    }
}

/// Reads a token as a number of type `U`.
pub fn parse_number<U: Numerical>(token: &[u8]) -> (number: Option<U>)
    ensures
        number is Some <==> number_value::<U>(token@) is Some,
        number matches Some(n) ==> number_value::<U>(token@) == Some(n.value()),
{
    proof {
        U::range_is_wide();
    }
    match parse_integer(token) {
        Some(wide) => if token[0] == 45 && !U::is_signed() {
            None
        } else {
            U::narrow(wide)
        },
        None => None,
    }
}

/// The ASCII lower-case form of a byte.
pub open spec fn lower(b: u8) -> u8 {
    if 65 <= b && b <= 90 {
        (b + 32) as u8
    } else {
        b
    }
}

/// The ASCII lower-case form of a token.
pub open spec fn lowercase(s: Seq<u8>) -> Seq<u8> {
    s.map_values(|b: u8| lower(b))
}

/// Whether a token, put in lower case, is the bytes of `name`.
pub open spec fn names(token: Seq<u8>, name: &str) -> bool {
    lowercase(token) == name.spec_bytes()
}

/// Whether a token, put in lower case, is the UTF-8 bytes of the text
/// `name`.
pub open spec fn names_text(token: Seq<u8>, name: Seq<char>) -> bool {
    lowercase(token) == vstd::utf8::encode_utf8(name)
}

/// Whether a token, put in lower case, is the bytes of `name`.
pub fn is_named(token: &[u8], name: &str) -> (same: bool)
    ensures
        same == names(token@, name),
{
    let wanted: &[u8] = name.as_bytes();
    if token.len() != wanted.len() {
        return false;
    }
    let mut i: usize = 0;
    while i < token.len()
        invariant
            i <= token@.len(),
            token@.len() == wanted@.len(),
            wanted@ == name.spec_bytes(),
            forall|j: int| 0 <= j < i ==> lower(token@[j]) == wanted@[j],
        decreases token@.len() - i,
    {
        let b: u8 = token[i];
        let low: u8 = if 65 <= b && b <= 90 {
            b + 32
        } else {
            b
        };
        if low != wanted[i] {
            assert(lowercase(token@)[i as int] != wanted@[i as int]);
            return false;
        }
        i += 1;
    }
    assert(lowercase(token@) =~= wanted@);
    true
}

/// What `String::from_utf8_lossy` makes of a run of bytes.
pub uninterp spec fn lossy_text(bytes: Seq<u8>) -> Seq<char>;

/// `String::from_utf8_lossy`, made an owned string: the text that the bytes
/// encode, each malformed sequence replaced by U+FFFD.
#[verifier::external_body]
pub(crate) fn text_of(bytes: &[u8]) -> (text: String)
    ensures
        text@ == lossy_text(bytes@),
{
    String::from_utf8_lossy(bytes).into_owned()
}


/// Where the first two tokens of a line start and end, as far as the line
/// has them.
pub fn leading_tokens(line: &[u8]) -> (spans: (Option<(usize, usize)>, Option<(usize, usize)>))
    ensures
        spans.0 is Some <==> tokens(line@).len() >= 1,
        spans.1 is Some <==> tokens(line@).len() >= 2,
        spans.0 matches Some((start, end)) ==> start <= end <= line@.len() && line@.subrange(
            start as int,
            end as int,
        ) == tokens(line@)[0],
        spans.1 matches Some((start, end)) ==> start <= end <= line@.len() && line@.subrange(
            start as int,
            end as int,
        ) == tokens(line@)[1],
{
    let (start, end) = next_token(line, 0);
    if start >= line.len() {
        return (None, None);
    }
    proof {
        skips_advance(line@, 0);
        skips_advance(line@, start as int);
        assert(tokens(line@) =~= seq![line@.subrange(start as int, end as int)] + tokens_from(
            line@,
            end as int,
        ));
    }
    let (second_start, second_end) = next_token(line, end);
    if second_start >= line.len() {
        return (Some((start, end)), None);
    }
    proof {
        skips_advance(line@, end as int);
        skips_advance(line@, second_start as int);
        assert(tokens_from(line@, end as int) =~= seq![
            line@.subrange(second_start as int, second_end as int),
        ] + tokens_from(line@, second_end as int));
    }
    (Some((start, end)), Some((second_start, second_end)))
}

} // verus!
