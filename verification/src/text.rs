//! The smallest pieces of the grammar, as functions on sequences of
//! characters, and the calls into `nom` and `str` that read them from a
//! string slice.
//!
//! Every reader takes the input that is left and hands back what follows the
//! piece it read. What each one accepts is a spec function of this module; the
//! grammar rules are stated and proved over these.

use vstd::prelude::*;

verus! {

/// A space or a tab: the whitespace that may stand inside a rule.
pub open spec fn is_blank(c: char) -> bool {
    c == ' ' || c == '\t'
}

/// `s` without the spaces and tabs that it begins with.
pub open spec fn skip_blanks(s: Seq<char>) -> Seq<char>
    decreases s.len(),
{
    if s.len() > 0 && is_blank(s[0]) {
        skip_blanks(s.skip(1))
    } else {
        s
    }
}

/// A character with the Unicode property `White_Space`.
pub open spec fn is_white_space(c: char) -> bool {
    ||| '\u{9}' <= c <= '\u{D}'
    ||| c == ' '
    ||| c == '\u{85}'
    ||| c == '\u{A0}'
    ||| c == '\u{1680}'
    ||| '\u{2000}' <= c <= '\u{200A}'
    ||| c == '\u{2028}'
    ||| c == '\u{2029}'
    ||| c == '\u{202F}'
    ||| c == '\u{205F}'
    ||| c == '\u{3000}'
}

/// `s` without the whitespace, line ends included, that it begins with.
pub open spec fn skip_white_space(s: Seq<char>) -> Seq<char>
    decreases s.len(),
{
    if s.len() > 0 && is_white_space(s[0]) {
        skip_white_space(s.skip(1))
    } else {
        s
    }
}

/// One of the ten decimal digits.
pub open spec fn is_digit(c: char) -> bool {
    '0' <= c <= '9'
}

/// How many decimal digits `s` begins with.
pub open spec fn digit_run(s: Seq<char>) -> nat
    decreases s.len(),
{
    if s.len() > 0 && is_digit(s[0]) {
        1 + digit_run(s.skip(1))
    } else {
        0
    }
}

/// The number that the decimal digits `s` write.
pub open spec fn digits_value(s: Seq<char>) -> int
    decreases s.len(),
{
    if s.len() == 0 {
        0
    } else {
        digits_value(s.drop_last()) * 10 + (s.last() as int - '0' as int)
    }
}

/// `s` begins with a sign, `-` or `+`.
pub open spec fn has_sign(s: Seq<char>) -> bool {
    s.len() > 0 && (s[0] == '-' || s[0] == '+')
}

/// The number that `s` begins with, and what follows it: an optional sign and
/// then as many decimal digits as there are, at least one. There is none where
/// the digits are missing or the number does not fit a signed 64-bit integer.
pub open spec fn number_at(s: Seq<char>) -> Option<(int, Seq<char>)> {
    let body = if has_sign(s) { s.skip(1) } else { s };
    let width = digit_run(body);
    let magnitude = digits_value(body.take(width as int));
    let number = if has_sign(s) && s[0] == '-' { -magnitude } else { magnitude };
    if width > 0 && i64::MIN <= number <= i64::MAX {
        Some((number, body.skip(width as int)))
    } else {
        None
    }
}

/// What follows `symbol` in `s`, where `s` begins with it, letter for letter.
pub open spec fn symbol_at(s: Seq<char>, symbol: Seq<char>) -> Option<Seq<char>> {
    if symbol.is_prefix_of(s) {
        Some(s.skip(symbol.len() as int))
    } else {
        None
    }
}

/// `c`, or its small letter where `c` is one of the capitals `A` to `Z`.
pub open spec fn lowered(c: char) -> char {
    if 'A' <= c <= 'Z' {
        ((c as u8 + 32) as u8) as char
    } else {
        c
    }
}

/// A word of small letters `a` to `z` without `k`. Only a letter of this range,
/// small or capital, is the same as one of these once case is left aside.
pub open spec fn is_plain_word(word: Seq<char>) -> bool {
    forall|i: int| 0 <= i < word.len() ==> 'a' <= #[trigger] word[i] <= 'z' && word[i] != 'k'
}

/// `s` begins with `word`, capitals and small letters taken for the same.
pub open spec fn begins_with_word(s: Seq<char>, word: Seq<char>) -> bool {
    &&& word.len() <= s.len()
    &&& forall|i: int| 0 <= i < word.len() ==> lowered(#[trigger] s[i]) == word[i]
}

/// What follows `word` in `s`, where `s` begins with it in any mix of case.
pub open spec fn word_at(s: Seq<char>, word: Seq<char>) -> Option<Seq<char>> {
    if begins_with_word(s, word) {
        Some(s.skip(word.len() as int))
    } else {
        None
    }
}

/// Skipping spaces and tabs never makes the input longer.
pub proof fn lemma_skip_blanks_shorter(s: Seq<char>)
    ensures
        skip_blanks(s).len() <= s.len(),
    decreases s.len(),
{
    if s.len() > 0 && is_blank(s[0]) {
        lemma_skip_blanks_shorter(s.skip(1));
    }
}

/// A run of digits is no longer than the text it is counted in.
pub proof fn lemma_digit_run_bounded(s: Seq<char>)
    ensures
        digit_run(s) <= s.len(),
    decreases s.len(),
{
    if s.len() > 0 && is_digit(s[0]) {
        lemma_digit_run_bounded(s.skip(1));
    }
}

/// What follows a number is shorter than the text that the number was read from.
pub proof fn lemma_number_consumes(s: Seq<char>)
    ensures
        number_at(s) matches Some((_, rest)) ==> rest.len() < s.len(),
{
    let body = if has_sign(s) { s.skip(1) } else { s };
    lemma_digit_run_bounded(body);
}

/// Reads the spaces and tabs at the start of `input` with
/// `nom::character::complete::space0`, which takes the longest run of them,
/// an empty one too, and never fails. The result is the input after that run.
#[verifier::external_body]
pub(crate) fn read_blanks<'a>(input: &'a str) -> (rest: &'a str)
    ensures
        rest@ == skip_blanks(input@),
{
    let read: nom::IResult<&'a str, &'a str> = nom::character::complete::space0(input);
    match read {
        Ok((rest, _)) => rest,
        Err(_) => input,
    }
}

/// Reads a signed 64-bit integer at the start of `input` with
/// `nom::character::complete::i64`. That function takes one `-` or `+` where
/// there is one, and then decimal digits for as long as they go on; it fails
/// where no digit follows or where the number leaves the range of the type.
/// The result is the input after the last digit, and the number.
#[verifier::external_body]
pub(crate) fn read_number<'a>(input: &'a str) -> (read: Option<(&'a str, i64)>)
    ensures
        match read {
            Some((rest, number)) => number_at(input@) == Some((number as int, rest@)),
            None => number_at(input@).is_none(),
        },
{
    let read: nom::IResult<&'a str, i64> = nom::character::complete::i64(input);
    read.ok()
}

/// Reads `symbol` at the start of `input` with `nom::bytes::complete::tag`,
/// which succeeds where the input begins with exactly the bytes of `symbol`.
/// The result is the input after them.
#[verifier::external_body]
pub(crate) fn read_symbol<'a>(input: &'a str, symbol: &str) -> (read: Option<&'a str>)
    ensures
        match read {
            Some(rest) => symbol_at(input@, symbol@) == Some(rest@),
            None => symbol_at(input@, symbol@).is_none(),
        },
{
    let read: nom::IResult<&'a str, &'a str> = nom::bytes::complete::tag(symbol)(input);
    match read {
        Ok((rest, _)) => Some(rest),
        Err(_) => None,
    }
}

/// Reads `word` at the start of `input` with `nom::bytes::complete::tag_no_case`.
/// That function compares the two character by character, each brought to lower
/// case, and then cuts the input after as many bytes as `word` has. For a word
/// of the letters that `is_plain_word` admits, a character of the input agrees
/// with a letter of the word only if it is that letter, small or capital, so
/// the cut falls right after the word. The result is the input after it.
#[verifier::external_body]
pub(crate) fn read_word<'a>(input: &'a str, word: &str) -> (read: Option<&'a str>)
    requires
        is_plain_word(word@),
    ensures
        match read {
            Some(rest) => word_at(input@, word@) == Some(rest@),
            None => word_at(input@, word@).is_none(),
        },
{
    let read: nom::IResult<&'a str, &'a str> = nom::bytes::complete::tag_no_case(word)(input);
    match read {
        Ok((rest, _)) => Some(rest),
        Err(_) => None,
    }
}

/// Drops the whitespace at the start of `input` with `str::trim_start`, which
/// goes by the Unicode property `White_Space`.
#[verifier::external_body]
pub(crate) fn trim_start<'a>(input: &'a str) -> (rest: &'a str)
    ensures
        rest@ == skip_white_space(input@),
{
    input.trim_start()
}

} // verus!
