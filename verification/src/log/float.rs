//! The decimal text of a floating-point number.

use vstd::prelude::*;
use vstd::string::StrSliceExecFns;
use crate::text::single_line;

verus! {

/// Whether `c` is one of the ten decimal digits.
pub open spec fn is_digit(c: char) -> bool {
    '0' <= c <= '9'
}

/// Whether `text` is one digit or more and nothing else.
pub open spec fn all_digits(text: Seq<char>) -> bool {
    text.len() > 0 && forall|i: int| 0 <= i < text.len() ==> is_digit(#[trigger] text[i])
}

/// Whether `text` has a point at place `dot`, with digits, and nothing
/// else, on both sides of it.
pub open spec fn splits_at(text: Seq<char>, dot: int) -> bool {
    &&& 0 < dot < text.len() - 1
    &&& text[dot] == '.'
    &&& all_digits(text.subrange(0, dot))
    &&& all_digits(text.subrange(dot + 1, text.len() as int))
}

/// Whether `text` is a number in base 10 without a sign: digits, or digits,
/// a point, digits.
pub open spec fn is_unsigned_decimal(text: Seq<char>) -> bool {
    all_digits(text) || exists|dot: int| splits_at(text, dot)
}

/// Whether `text` is the size of a number: `inf`, or a number in base 10
/// without a sign.
pub open spec fn is_magnitude(text: Seq<char>) -> bool {
    text == "inf"@ || is_unsigned_decimal(text)
}

/// Whether `text` is the decimal text of a floating-point number: `NaN`, or
/// a size with or without a minus sign before it. There is no exponent, no
/// plus sign, no space and no separator of thousands.
pub open spec fn is_float_text(text: Seq<char>) -> bool {
    ||| text == "NaN"@
    ||| is_magnitude(text)
    ||| text.len() > 0 && text[0] == '-' && is_magnitude(text.subrange(1, text.len() as int))
}

/// A number in base 10 without a sign holds digits and points only.
proof fn lemma_unsigned_decimal_chars(text: Seq<char>)
    requires
        is_unsigned_decimal(text),
    ensures
        text.len() > 0,
        forall|i: int| 0 <= i < text.len() ==> is_digit(#[trigger] text[i]) || text[i] == '.',
{
    if !all_digits(text) {
        let dot = choose|dot: int| splits_at(text, dot);
        let front = text.subrange(0, dot);
        let back = text.subrange(dot + 1, text.len() as int);
        assert forall|i: int| 0 <= i < text.len() implies is_digit(#[trigger] text[i]) || text[i]
            == '.' by {
            if i < dot {
                assert(front[i] == text[i]);
            } else if i > dot {
                assert(back[i - dot - 1] == text[i]);
            }
        }
    }
}

/// The decimal text of a floating-point number is plain: it is not empty,
/// stays within one line, and holds no space and no double quote.
pub proof fn lemma_float_text_is_plain(text: Seq<char>)
    requires
        is_float_text(text),
    ensures
        text.len() > 0,
        single_line(text),
        forall|i: int| 0 <= i < text.len() ==> #[trigger] text[i] != ' ' && text[i] != '"',
{
    reveal_strlit("NaN");
    reveal_strlit("inf");
    if text == "NaN"@ {
    } else if text == "inf"@ {
    } else if is_unsigned_decimal(text) {
        lemma_unsigned_decimal_chars(text);
    } else {
        let rest = text.subrange(1, text.len() as int);
        if rest != "inf"@ {
            lemma_unsigned_decimal_chars(rest);
        }
        assert forall|i: int| 0 <= i < text.len() implies #[trigger] text[i] != ' ' && text[i]
            != '"' && text[i] != '\n' by {
            if i > 0 {
                assert(rest[i - 1] == text[i]);
            }
        }
    }
}

/// Whether `c` is one of the ten decimal digits.
fn digit_char(c: char) -> (yes: bool)
    ensures
        yes == is_digit(c),
{
    '0' <= c && c <= '9'
}

/// The first place at or after `from` where `text` holds no digit, or the
/// length of `text` where digits go on to the end.
fn digits_end(text: &str, len: usize, from: usize) -> (end: usize)
    requires
        len == text@.len(),
        from <= len,
    ensures
        from <= end <= len,
        forall|i: int| from <= i < end ==> is_digit(#[trigger] text@[i]),
        end < len ==> !is_digit(text@[end as int]),
{
    let mut end = from;
    while end < len
        invariant
            len == text@.len(),
            from <= end <= len,
            forall|i: int| from <= i < end ==> is_digit(#[trigger] text@[i]),
        decreases len - end,
    {
        if !digit_char(text.get_char(end)) {
            return end;
        }
        end += 1;
    }
    end
}

/// Whether `text` is a number in base 10 without a sign.
fn unsigned_decimal(text: &str) -> (yes: bool)
    ensures
        yes == is_unsigned_decimal(text@),
{
    let len = text.unicode_len();
    let whole = digits_end(text, len, 0);
    if whole == 0 {
        proof {
            assert forall|dot: int| !splits_at(text@, dot) by {
                if splits_at(text@, dot) {
                    assert(text@.subrange(0, dot)[0] == text@[0]);
                }
            }
        }
        return false;
    }
    if whole == len {
        return true;
    }
    proof {
        // The point of a split can only stand where the digits first stop.
        assert forall|dot: int| splits_at(text@, dot) implies dot == whole by {
            if dot < whole {
                assert(is_digit(text@[dot]));
            } else if dot > whole {
                assert(text@.subrange(0, dot)[whole as int] == text@[whole as int]);
            }
        }
    }
    if text.get_char(whole) != '.' {
        return false;
    }
    let end = digits_end(text, len, whole + 1);
    let back = Ghost(text@.subrange(whole + 1, len as int));
    proof {
        assert forall|i: int| 0 <= i < end - whole - 1 implies is_digit(#[trigger] back@[i]) by {
            assert(back@[i] == text@[whole + 1 + i]);
        }
        if end < len {
            assert(back@[end - whole - 1] == text@[end as int]);
        }
    }
    if end == len && end > whole + 1 {
        proof {
            assert(text@.subrange(0, whole as int).len() == whole);
            assert forall|i: int| 0 <= i < whole implies is_digit(
                #[trigger] text@.subrange(0, whole as int)[i],
            ) by {
                assert(text@.subrange(0, whole as int)[i] == text@[i]);
            }
            assert(splits_at(text@, whole as int));
        }
        true
    } else {
        false
    }
}

/// Whether `text` is the size of a number.
fn magnitude(text: &str) -> (yes: bool)
    ensures
        yes == is_magnitude(text@),
{
    let owned: String = text.to_owned();
    let inf: String = "inf".to_owned();
    if owned == inf {
        true
    } else {
        unsigned_decimal(text)
    }
}

/// The decimal text of one floating-point number, as it is written into a
/// line. The library does no floating-point arithmetic: whoever has the
/// number writes it out, and this type holds what was written once it has
/// been checked for its form.
#[derive(Debug, PartialEq, Eq)]
pub struct FloatText {
    text: String,
}

impl View for FloatText {
    type V = Seq<char>;

    closed spec fn view(&self) -> Seq<char> {
        self.text@
    }
}

impl FloatText {
    #[verifier::type_invariant]
    spec fn well_formed(&self) -> bool {
        is_float_text(self@)
    }

    /// Whether `text` is the decimal text of a floating-point number.
    pub fn accepts(text: &str) -> (yes: bool)
        ensures
            yes == is_float_text(text@),
    {
        let owned: String = text.to_owned();
        let nan: String = "NaN".to_owned();
        if owned == nan {
            return true;
        }
        let len = text.unicode_len();
        if len > 0 && text.get_char(0) == '-' {
            proof {
                reveal_strlit("inf");
                assert forall|dot: int| !splits_at(text@, dot) by {
                    if splits_at(text@, dot) {
                        assert(text@.subrange(0, dot)[0] == text@[0]);
                    }
                }
            }
            magnitude(text.substring_char(1, len))
        } else {
            magnitude(text)
        }
    }

    /// The text as a float's text, where it has the form of one.
    pub fn parse(text: String) -> (parsed: Option<FloatText>)
        ensures
            match parsed {
                Some(float) => is_float_text(text@) && float@ == text@,
                None => !is_float_text(text@),
            },
    {
        if FloatText::accepts(text.as_str()) {
            Some(FloatText { text })
        } else {
            None
        }
    }

    /// The text.
    pub fn as_str(&self) -> (text: &str)
        ensures
            text@ == self@,
            is_float_text(self@),
    {
        proof {
            use_type_invariant(self);
        }
        self.text.as_str()
    }
}

} // verus!
