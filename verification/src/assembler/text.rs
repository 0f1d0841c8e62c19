//! Runs of blanks, digits and letters at the head of a text, and the values
//! of decimal numerals.

use vstd::prelude::*;
use crate::assembler::ParseError;
use crate::strings::{ascii_bytes, ascii_code, lemma_same_code, split_ascii};

verus! {

/// A space, a tab, a carriage return or a line feed.
pub open spec fn is_blank(c: char) -> bool {
    c == ' ' || c == '\t' || c == '\r' || c == '\n'
}

/// One of the ten decimal digits.
pub open spec fn is_digit(c: char) -> bool {
    '0' <= c <= '9'
}

/// The number of blanks that a text begins with.
pub open spec fn blanks(text: Seq<char>) -> nat
    decreases text.len(),
{
    if text.len() > 0 && is_blank(text[0]) {
        1 + blanks(text.drop_first())
    } else {
        0
    }
}

/// The number of digits that a text begins with.
pub open spec fn digits(text: Seq<char>) -> nat
    decreases text.len(),
{
    if text.len() > 0 && is_digit(text[0]) {
        1 + digits(text.drop_first())
    } else {
        0
    }
}

/// The text behind its leading blanks.
pub open spec fn trimmed(text: Seq<char>) -> Seq<char> {
    text.skip(blanks(text) as int)
}

/// The value of a decimal digit.
pub open spec fn digit_value(c: char) -> nat
    recommends
        is_digit(c),
{
    (c as u32 - '0' as u32) as nat
}

/// The value of a decimal numeral; leading zeros count for nothing.
pub open spec fn decimal(numeral: Seq<char>) -> nat
    decreases numeral.len(),
{
    if numeral.len() == 0 {
        0
    } else {
        decimal(numeral.drop_last()) * 10 + digit_value(numeral.last())
    }
}

/// A numeral behind its sign, as operands are written: blanks may stand
/// before the sign and behind the digits, and the digits follow the sign at
/// once. Gives the text behind all of that, and the digits.
pub open spec fn parse_numeral(text: Seq<char>, sign: char) -> Result<
    (Seq<char>, Seq<char>),
    ParseError,
> {
    let at_sign = trimmed(text);
    if at_sign.len() == 0 || at_sign[0] != sign {
        Err(ParseError::Tag)
    } else {
        let at_digits = at_sign.skip(1);
        let count = digits(at_digits) as int;
        if count == 0 {
            Err(ParseError::Digit)
        } else {
            Ok((trimmed(at_digits.skip(count)), at_digits.take(count)))
        }
    }
}

/// `rest` is the end of `text`: what is left of it behind some of its
/// characters, or behind none.
pub open spec fn is_rest_of(rest: Seq<char>, text: Seq<char>) -> bool {
    rest.len() <= text.len() && rest == text.skip(text.len() - rest.len())
}

/// One of the letters of ASCII, small or capital.
pub open spec fn is_ascii_letter(c: char) -> bool {
    'a' <= c <= 'z' || 'A' <= c <= 'Z'
}

/// The number of letters of ASCII that a text begins with.
pub open spec fn ascii_letters(text: Seq<char>) -> nat
    decreases text.len(),
{
    if text.len() > 0 && is_ascii_letter(text[0]) {
        1 + ascii_letters(text.drop_first())
    } else {
        0
    }
}

/// The number of characters that `nom::alpha1` takes from the head of a text.
pub uninterp spec fn letters(text: Seq<char>) -> nat;

/// The number of letters that a text begins with. Where the letters of
/// ASCII at its head run up to its end or up to another character of ASCII,
/// it is their number. Where a character beyond ASCII follows them, Unicode
/// decides which characters are letters.
pub open spec fn word_len(text: Seq<char>) -> nat {
    let count = ascii_letters(text);
    if count < text.len() && text[count as int] > '\u{7f}' {
        letters(text)
    } else {
        count
    }
}

/// `nom::multispace` on complete input: splits the text behind its leading
/// blanks, and fails where it begins with none. Returns the rest and the
/// blanks.
#[verifier::external_body]
pub(crate) fn multispace<'a>(input: &'a str) -> (r: Option<(&'a str, &'a str)>)
    ensures
        match r {
            Some((rest, taken)) => {
                &&& taken@ + rest@ == input@
                &&& taken@.len() > 0
                &&& forall|i: int| 0 <= i < taken@.len() ==> is_blank(#[trigger] taken@[i])
                &&& rest@.len() > 0 ==> !is_blank(rest@[0])
            },
            None => input@.len() == 0 || !is_blank(input@[0]),
        },
{
    match nom::multispace(nom::types::CompleteStr(input)) {
        Ok((rest, taken)) => Some((rest.0, taken.0)),
        Err(_) => None,
    }
}

/// `nom::digit` on complete input: splits the text behind its leading
/// decimal digits, and fails where it begins with none. Returns the rest and
/// the digits.
#[verifier::external_body]
pub(crate) fn digit<'a>(input: &'a str) -> (r: Option<(&'a str, &'a str)>)
    ensures
        match r {
            Some((rest, taken)) => {
                &&& taken@ + rest@ == input@
                &&& taken@.len() > 0
                &&& forall|i: int| 0 <= i < taken@.len() ==> is_digit(#[trigger] taken@[i])
                &&& rest@.len() > 0 ==> !is_digit(rest@[0])
            },
            None => input@.len() == 0 || !is_digit(input@[0]),
        },
{
    match nom::digit(nom::types::CompleteStr(input)) {
        Ok((rest, taken)) => Some((rest.0, taken.0)),
        Err(_) => None,
    }
}

/// `nom::alpha1` on complete input: splits the text behind its leading
/// letters, and fails where it begins with none. Which characters are letters
/// is Unicode's matter, so the place of the split has only a name. Of ASCII
/// the letters are `a` to `z` and `A` to `Z`: a character of ASCII that is
/// taken is one of these, and the rest begins with none of these. Returns the
/// rest and the letters.
#[verifier::external_body]
pub(crate) fn alpha1<'a>(input: &'a str) -> (r: Option<(&'a str, &'a str)>)
    ensures
        match r {
            Some((rest, taken)) => {
                &&& taken@ + rest@ == input@
                &&& taken@.len() == letters(input@)
                &&& taken@.len() > 0
                &&& forall|i: int|
                    0 <= i < taken@.len() && #[trigger] taken@[i] <= '\u{7f}' ==> is_ascii_letter(
                        taken@[i],
                    )
                &&& rest@.len() > 0 ==> !is_ascii_letter(rest@[0])
            },
            None => letters(input@) == 0 && (input@.len() > 0 ==> !is_ascii_letter(input@[0])),
        },
{
    match nom::alpha1(nom::types::CompleteStr(input)) {
        Ok((rest, taken)) => Some((rest.0, taken.0)),
        Err(_) => None,
    }
}

/// The text behind its leading blanks.
pub(crate) fn skip_blanks<'a>(input: &'a str) -> (rest: &'a str)
    ensures
        rest@ == trimmed(input@),
{
    match multispace(input) {
        Some((rest, taken)) => {
            proof {
                lemma_blanks_split(input@, taken@, rest@);
                assert(rest@ =~= input@.skip(taken@.len() as int));
            }
            rest
        },
        None => {
            assert(input@.skip(0) =~= input@);
            input
        },
    }
}

/// The text behind its first character, where that is `sign`.
pub(crate) fn strip<'a>(input: &'a str, sign: char) -> (r: Option<&'a str>)
    requires
        sign <= '\u{7f}',
    ensures
        match r {
            Some(rest) => input@.len() > 0 && input@[0] == sign && rest@ == input@.skip(1),
            None => input@.len() == 0 || input@[0] != sign,
        },
{
    match split_ascii(input, 1) {
        Some((head, rest)) => {
            let bytes = ascii_bytes(head);
            if bytes[0] == ascii_code(sign) {
                proof {
                    lemma_same_code(head@[0], sign);
                }
                Some(rest)
            } else {
                None
            }
        },
        None => None,
    }
}

/// The leading digits of a text and the text behind them; `None` where the
/// text begins with no digit.
pub(crate) fn leading_digits<'a>(input: &'a str) -> (r: Option<(&'a str, &'a str)>)
    ensures
        digits(input@) <= input@.len(),
        match r {
            Some((rest, numeral)) => {
                &&& digits(input@) > 0
                &&& numeral@ == input@.take(digits(input@) as int)
                &&& rest@ == input@.skip(digits(input@) as int)
                &&& forall|i: int| 0 <= i < numeral@.len() ==> is_digit(#[trigger] numeral@[i])
            },
            None => digits(input@) == 0,
        },
{
    proof {
        lemma_digits_within(input@);
    }
    match digit(input) {
        Some((rest, taken)) => {
            proof {
                lemma_digits_split(input@, taken@, rest@);
                assert(rest@ =~= input@.skip(taken@.len() as int));
                assert(taken@ =~= input@.take(taken@.len() as int));
            }
            Some((rest, taken))
        },
        None => None,
    }
}

/// The leading letters of a text and the text behind them; `None` where
/// the text begins with no letter.
pub(crate) fn leading_letters<'a>(input: &'a str) -> (r: Option<(&'a str, &'a str)>)
    ensures
        match r {
            Some((rest, word)) => {
                &&& 0 < word_len(input@) <= input@.len()
                &&& word@ == input@.take(word_len(input@) as int)
                &&& rest@ == input@.skip(word_len(input@) as int)
            },
            None => word_len(input@) == 0,
        },
{
    proof {
        lemma_ascii_letters(input@);
    }
    match alpha1(input) {
        Some((rest, taken)) => {
            proof {
                let count = ascii_letters(input@) as int;
                let n = taken@.len() as int;
                if !(count < input@.len() && input@[count] > '\u{7f}') {
                    if n < count {
                        assert(rest@[0] == input@[n]);
                        assert(is_ascii_letter(input@[n]));
                    }
                    if n > count {
                        assert(taken@[count] == input@[count]);
                        assert(!is_ascii_letter(input@[count]));
                    }
                    assert(n == count);
                }
                assert(rest@ =~= input@.skip(n));
                assert(taken@ =~= input@.take(n));
            }
            Some((rest, taken))
        },
        None => None,
    }
}

/// The value of a numeral, where it is at most `limit`.
pub(crate) fn decimal_within(numeral: &str, limit: u32) -> (r: Option<u32>)
    requires
        forall|i: int| 0 <= i < numeral@.len() ==> is_digit(#[trigger] numeral@[i]),
    ensures
        match r {
            Some(value) => value == decimal(numeral@) && value <= limit,
            None => decimal(numeral@) > limit,
        },
{
    proof {
        assert forall|i: int| 0 <= i < numeral@.len() implies #[trigger] numeral@[i]
            <= '\u{7f}' by {
            assert(is_digit(numeral@[i]));
        }
    }
    let bytes = ascii_bytes(numeral);
    let mut value: u32 = 0;
    let mut i: usize = 0;
    assert(numeral@.take(0) =~= Seq::<char>::empty());
    while i < bytes.len()
        invariant
            i <= bytes@.len(),
            bytes@.len() == numeral@.len(),
            forall|k: int| 0 <= k < numeral@.len() ==> is_digit(#[trigger] numeral@[k]),
            forall|k: int| 0 <= k < numeral@.len() ==> numeral@[k] as u8 == #[trigger] bytes@[k],
            value == decimal(numeral@.take(i as int)),
            value <= limit,
        decreases bytes@.len() - i,
    {
        let d = (bytes[i] - 48) as u64;
        proof {
            assert(is_digit(numeral@[i as int]));
            assert(d == digit_value(numeral@[i as int]));
            assert(numeral@.take(i + 1).drop_last() =~= numeral@.take(i as int));
            assert(numeral@.take(i + 1).last() == numeral@[i as int]);
            lemma_decimal_grows(numeral@, i + 1);
        }
        let next = value as u64 * 10 + d;
        if next > limit as u64 {
            return None;
        }
        value = next as u32;
        i += 1;
    }
    assert(numeral@.take(i as int) =~= numeral@);
    Some(value)
}

/// Parses a numeral behind its sign.
pub(crate) fn numeral<'a>(input: &'a str, sign: char) -> (r: Result<(&'a str, &'a str), ParseError>)
    requires
        sign <= '\u{7f}',
    ensures
        match r {
            Ok((rest, numeral)) => {
                &&& parse_numeral(input@, sign) == Ok::<_, ParseError>((rest@, numeral@))
                &&& forall|i: int| 0 <= i < numeral@.len() ==> is_digit(#[trigger] numeral@[i])
            },
            Err(e) => parse_numeral(input@, sign) == Err::<(Seq<char>, Seq<char>), _>(e),
        },
{
    let at_sign = skip_blanks(input);
    match strip(at_sign, sign) {
        None => Err(ParseError::Tag),
        Some(at_digits) => {
            match leading_digits(at_digits) {
                None => Err(ParseError::Digit),
                Some((rest, numeral)) => Ok((skip_blanks(rest), numeral)),
            }
        },
    }
}

/// A text that splits into blanks and a rest that begins with none begins
/// with exactly that many blanks.
proof fn lemma_blanks_split(text: Seq<char>, taken: Seq<char>, rest: Seq<char>)
    requires
        taken + rest == text,
        forall|i: int| 0 <= i < taken.len() ==> is_blank(#[trigger] taken[i]),
        rest.len() > 0 ==> !is_blank(rest[0]),
    ensures
        blanks(text) == taken.len(),
    decreases taken.len(),
{
    if taken.len() > 0 {
        assert(text[0] == taken[0]);
        assert(taken.drop_first() + rest =~= text.drop_first());
        lemma_blanks_split(text.drop_first(), taken.drop_first(), rest);
    } else {
        assert(rest =~= text);
    }
}

/// A text that splits into digits and a rest that begins with none begins
/// with exactly that many digits.
proof fn lemma_digits_split(text: Seq<char>, taken: Seq<char>, rest: Seq<char>)
    requires
        taken + rest == text,
        forall|i: int| 0 <= i < taken.len() ==> is_digit(#[trigger] taken[i]),
        rest.len() > 0 ==> !is_digit(rest[0]),
    ensures
        digits(text) == taken.len(),
    decreases taken.len(),
{
    if taken.len() > 0 {
        assert(text[0] == taken[0]);
        assert(taken.drop_first() + rest =~= text.drop_first());
        lemma_digits_split(text.drop_first(), taken.drop_first(), rest);
    } else {
        assert(rest =~= text);
    }
}

/// A text begins with no more blanks than it has characters.
pub proof fn lemma_blanks_within(text: Seq<char>)
    ensures
        blanks(text) <= text.len(),
    decreases text.len(),
{
    if text.len() > 0 && is_blank(text[0]) {
        lemma_blanks_within(text.drop_first());
    }
}

/// A text begins with no more digits than it has characters.
pub proof fn lemma_digits_within(text: Seq<char>)
    ensures
        digits(text) <= text.len(),
    decreases text.len(),
{
    if text.len() > 0 && is_digit(text[0]) {
        lemma_digits_within(text.drop_first());
    }
}

/// The letters of ASCII at the head of a text are letters, and what
/// follows them is no letter of ASCII.
pub proof fn lemma_ascii_letters(text: Seq<char>)
    ensures
        ascii_letters(text) <= text.len(),
        forall|i: int| 0 <= i < ascii_letters(text) ==> is_ascii_letter(#[trigger] text[i]),
        ascii_letters(text) < text.len() ==> !is_ascii_letter(text[ascii_letters(text) as int]),
    decreases text.len(),
{
    if text.len() > 0 && is_ascii_letter(text[0]) {
        let rest = text.drop_first();
        lemma_ascii_letters(rest);
        assert forall|i: int| 0 <= i < ascii_letters(text) implies is_ascii_letter(
            #[trigger] text[i],
        ) by {
            if i > 0 {
                assert(text[i] == rest[i - 1]);
            }
        }
        if ascii_letters(text) < text.len() {
            assert(text[ascii_letters(text) as int] == rest[ascii_letters(rest) as int]);
        }
    }
}

/// The value of a numeral only grows as digits are added behind it.
proof fn lemma_decimal_grows(numeral: Seq<char>, shorter: int)
    requires
        0 <= shorter <= numeral.len(),
    ensures
        decimal(numeral.take(shorter)) <= decimal(numeral),
    decreases numeral.len() - shorter,
{
    if shorter < numeral.len() {
        lemma_decimal_grows(numeral, shorter + 1);
        assert(numeral.take(shorter + 1).drop_last() =~= numeral.take(shorter));
    } else {
        assert(numeral.take(shorter) =~= numeral);
    }
}

/// The end of the end of a text is an end of the text.
pub proof fn lemma_rest_of_rest(rest: Seq<char>, middle: Seq<char>, text: Seq<char>)
    requires
        is_rest_of(rest, middle),
        is_rest_of(middle, text),
    ensures
        is_rest_of(rest, text),
{
    assert(rest =~= text.skip(text.len() - rest.len()));
}

/// What is left behind the first characters of a text is an end of it.
pub proof fn lemma_skip_is_rest(text: Seq<char>, count: int)
    requires
        0 <= count <= text.len(),
    ensures
        is_rest_of(text.skip(count), text),
{
}

/// What is left behind the leading blanks of a text is an end of it.
pub proof fn lemma_trimmed_is_rest(text: Seq<char>)
    ensures
        is_rest_of(trimmed(text), text),
{
    lemma_blanks_within(text);
}

/// A numeral that was parsed is not empty, and what is left behind it is an
/// end of the text and shorter than the text.
pub proof fn lemma_numeral_rest(text: Seq<char>, sign: char)
    ensures
        match parse_numeral(text, sign) {
            Ok((rest, numeral)) => {
                &&& is_rest_of(rest, text)
                &&& rest.len() < text.len()
                &&& numeral.len() > 0
            },
            Err(_) => true,
        },
{
    let at_sign = trimmed(text);
    lemma_trimmed_is_rest(text);
    if !(at_sign.len() == 0 || at_sign[0] != sign) {
        let at_digits = at_sign.skip(1);
        lemma_skip_is_rest(at_sign, 1);
        lemma_rest_of_rest(at_digits, at_sign, text);
        lemma_digits_within(at_digits);
        let behind_digits = at_digits.skip(digits(at_digits) as int);
        lemma_skip_is_rest(at_digits, digits(at_digits) as int);
        lemma_rest_of_rest(behind_digits, at_digits, text);
        lemma_trimmed_is_rest(behind_digits);
        lemma_rest_of_rest(trimmed(behind_digits), behind_digits, text);
    }
}

} // verus!
