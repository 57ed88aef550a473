//! Field values and their text form.

use vstd::prelude::*;
use vstd::string::StringExecFns;
use crate::log::float::{is_float_text, lemma_float_text_is_plain, FloatText};
use crate::text::{
    append_decimal, append_signed_decimal, decimal, lemma_decimal_is_digits,
    lemma_signed_decimal_is_plain, lemma_signed_decimal_single_line, signed_decimal, single_line,
};

verus! {

/// One captured field value. Exactly one kind is held, and no kind is
/// converted into another on capture.
///
/// A floating-point value is held as its decimal text: this library does no
/// floating-point arithmetic, so the caller that has the number writes it
/// out, and the text is checked for its form before it is taken.
#[derive(Debug, PartialEq, Eq)]
pub enum LogValue {
    F64(FloatText),
    I64(i64),
    U64(u64),
    I128(i128),
    U128(u128),
    Bool(bool),
    Text(String),
}

/// What a [`LogValue`] holds, as mathematics.
pub enum ValueView {
    F64(Seq<char>),
    I64(i64),
    U64(u64),
    I128(i128),
    U128(u128),
    Bool(bool),
    Text(Seq<char>),
}

impl ValueView {
    /// Whether the value is one that a [`LogValue`] can hold: the text of a
    /// floating-point value has the form of one.
    pub open spec fn well_formed(self) -> bool {
        self matches ValueView::F64(text) ==> is_float_text(text)
    }

    /// The text form of a value: text between double quotes, every other
    /// kind in its natural form (integers in base 10, booleans as `true` or
    /// `false`, a floating-point value as the decimal text it was captured
    /// with).
    pub open spec fn rendered(self) -> Seq<char> {
        match self {
            ValueView::F64(text) => text,
            ValueView::I64(v) => signed_decimal(v as int),
            ValueView::U64(v) => decimal(v as nat),
            ValueView::I128(v) => signed_decimal(v as int),
            ValueView::U128(v) => decimal(v as nat),
            ValueView::Bool(v) => if v {
                "true"@
            } else {
                "false"@
            },
            ValueView::Text(text) => seq!['"'] + text + seq!['"'],
        }
    }
}

impl View for LogValue {
    type V = ValueView;

    open spec fn view(&self) -> ValueView {
        match self {
            LogValue::F64(text) => ValueView::F64(text@),
            LogValue::I64(v) => ValueView::I64(*v),
            LogValue::U64(v) => ValueView::U64(*v),
            LogValue::I128(v) => ValueView::I128(*v),
            LogValue::U128(v) => ValueView::U128(*v),
            LogValue::Bool(v) => ValueView::Bool(*v),
            LogValue::Text(text) => ValueView::Text(text@),
        }
    }
}

impl LogValue {
    /// Appends the text form of the value to `out`.
    pub fn append_to(&self, out: &mut String)
        ensures
            final(out)@ == old(out)@ + self@.rendered(),
            self@.well_formed(),
    {
        match self {
            LogValue::F64(text) => {
                out.append(text.as_str());
            },
            LogValue::I64(v) => {
                append_signed_decimal(out, *v as i128);
            },
            LogValue::U64(v) => {
                append_decimal(out, *v as u128);
            },
            LogValue::I128(v) => {
                append_signed_decimal(out, *v);
            },
            LogValue::U128(v) => {
                append_decimal(out, *v);
            },
            LogValue::Bool(v) => {
                if *v {
                    out.append("true");
                } else {
                    out.append("false");
                }
            },
            LogValue::Text(text) => {
                out.append("\"");
                out.append(text.as_str());
                out.append("\"");
                proof {
                    reveal_strlit("\"");
                    assert("\""@ =~= seq!['"']);
                    assert(final(out)@ =~= old(out)@ + (seq!['"'] + text@ + seq!['"']));
                }
            },
        }
    }

    /// The text form of the value.
    pub fn render(&self) -> (text: String)
        ensures
            text@ == self@.rendered(),
            self@.well_formed(),
    {
        let mut text = String::new();
        self.append_to(&mut text);
        assert(text@ =~= self@.rendered());
        text
    }
}

/// Text is always written between double quotes, and so never as the bare
/// text: the text form is two characters longer than the text, begins and
/// ends with a double quote, and holds the text unchanged between them.
pub proof fn lemma_text_is_quoted(text: Seq<char>)
    ensures
        ValueView::Text(text).rendered().len() == text.len() + 2,
        ValueView::Text(text).rendered().first() == '"',
        ValueView::Text(text).rendered().last() == '"',
        ValueView::Text(text).rendered().subrange(1, text.len() as int + 1) == text,
        ValueView::Text(text).rendered() != text,
{
    let rendered = ValueView::Text(text).rendered();
    assert(rendered.subrange(1, text.len() as int + 1) =~= text);
}

impl ValueView {
    /// Whether the value brings no line feed of its own: every number and
    /// boolean, and text that holds none.
    pub open spec fn single_line(self) -> bool {
        match self {
            ValueView::F64(text) => single_line(text),
            ValueView::Text(text) => single_line(text),
            _ => true,
        }
    }

    /// Whether the text form of the value can be told from its neighbours
    /// in a line: the value is a number or a boolean, whose text form holds
    /// no space, double quote or line feed.
    pub open spec fn is_plain(self) -> bool {
        self.well_formed() && !(self is Text)
    }
}

/// The text form of a value stays within one line if the value does.
pub proof fn lemma_rendered_single_line(value: ValueView)
    requires
        value.single_line(),
    ensures
        single_line(value.rendered()),
{
    match value {
        ValueView::F64(_) => {},
        ValueView::I64(v) => {
            lemma_signed_decimal_single_line(v as int);
        },
        ValueView::U64(v) => {
            lemma_decimal_is_digits(v as nat);
        },
        ValueView::I128(v) => {
            lemma_signed_decimal_single_line(v as int);
        },
        ValueView::U128(v) => {
            lemma_decimal_is_digits(v as nat);
        },
        ValueView::Bool(_) => {
            reveal_strlit("true");
            reveal_strlit("false");
        },
        ValueView::Text(_) => {},
    }
}

/// The text form of a number or a boolean holds no space, no double quote
/// and no line feed, so it ends where the next space of the line stands.
pub proof fn lemma_rendered_is_plain(value: ValueView)
    requires
        value.is_plain(),
    ensures
        value.rendered().len() > 0,
        forall|i: int|
            0 <= i < value.rendered().len() ==> #[trigger] value.rendered()[i] != ' '
                && value.rendered()[i] != '"' && value.rendered()[i] != '\n',
{
    match value {
        ValueView::F64(text) => {
            lemma_float_text_is_plain(text);
        },
        ValueView::I64(v) => {
            lemma_signed_decimal_is_plain(v as int);
        },
        ValueView::U64(v) => {
            lemma_decimal_is_digits(v as nat);
        },
        ValueView::I128(v) => {
            lemma_signed_decimal_is_plain(v as int);
        },
        ValueView::U128(v) => {
            lemma_decimal_is_digits(v as nat);
        },
        ValueView::Bool(_) => {
            reveal_strlit("true");
            reveal_strlit("false");
        },
        ValueView::Text(_) => {},
    }
}

} // verus!
