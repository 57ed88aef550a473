//! Capture of typed field values into a field map.

use vstd::prelude::*;
use vstd::string::StringExecFns;
use crate::log::fields::{inserted, FieldMap, FieldView};
use crate::log::float::{is_float_text, FloatText};
use crate::log::value::{LogValue, ValueView};

verus! {

/// Collects the fields of one event. There is one entry point per kind of
/// value, and each stores the value under its own kind. What has no kind
/// of its own is stored as text: an error as the messages of its chain, any
/// other value as its debug form. The caller that holds such a value writes
/// the text out when it captures the value, and hands the text over.
#[derive(Debug)]
pub struct PrintLnVisitor {
    fields: FieldMap,
}

impl View for PrintLnVisitor {
    type V = Seq<FieldView>;

    closed spec fn view(&self) -> Seq<FieldView> {
        self.fields@
    }
}

/// The messages of an error and of the errors behind it, as one text: the
/// messages in their order, with a colon and a space between neighbours.
pub open spec fn chain_text(messages: Seq<Seq<char>>) -> Seq<char>
    decreases messages.len(),
{
    if messages.len() == 0 {
        Seq::empty()
    } else if messages.len() == 1 {
        messages[0]
    } else {
        chain_text(messages.drop_last()) + seq![':', ' '] + messages.last()
    }
}

/// The texts that the strings hold.
pub open spec fn texts(strings: Seq<String>) -> Seq<Seq<char>> {
    strings.map_values(|s: String| s@)
}

/// The text of a chain begins with the first message: the error's own.
pub proof fn lemma_chain_text_begins_with_first(messages: Seq<Seq<char>>)
    requires
        messages.len() > 0,
    ensures
        messages[0].len() <= chain_text(messages).len(),
        chain_text(messages).subrange(0, messages[0].len() as int) == messages[0],
    decreases messages.len(),
{
    if messages.len() == 1 {
        assert(chain_text(messages).subrange(0, messages[0].len() as int) =~= messages[0]);
    } else {
        let front = messages.drop_last();
        lemma_chain_text_begins_with_first(front);
        assert(front[0] == messages[0]);
        assert(chain_text(messages).subrange(0, messages[0].len() as int) =~= chain_text(
            front,
        ).subrange(0, messages[0].len() as int));
    }
}

/// Where message `i` starts within the text of a chain: after the messages
/// before it and a colon and a space for each of them.
pub open spec fn message_start(messages: Seq<Seq<char>>, i: int) -> int
    decreases i,
{
    if i <= 0 {
        0
    } else {
        message_start(messages, i - 1) + messages[i - 1].len() + 2
    }
}

/// Where a message starts depends on the messages before it alone.
proof fn lemma_message_start_of_prefix(messages: Seq<Seq<char>>, i: int)
    requires
        0 <= i < messages.len(),
    ensures
        message_start(messages.drop_last(), i) == message_start(messages, i),
        0 <= message_start(messages, i),
    decreases i,
{
    if i > 0 {
        lemma_message_start_of_prefix(messages, i - 1);
        assert(messages.drop_last()[i - 1] == messages[i - 1]);
    }
}

/// The text of a chain ends where a further message's separator would
/// stand.
proof fn lemma_chain_text_len(messages: Seq<Seq<char>>)
    requires
        messages.len() > 0,
    ensures
        chain_text(messages).len() + 2 == message_start(messages, messages.len() as int),
    decreases messages.len(),
{
    if messages.len() > 1 {
        lemma_chain_text_len(messages.drop_last());
        lemma_message_start_of_prefix(messages, messages.len() - 1);
    } else {
        reveal_with_fuel(message_start, 2);
    }
}

/// The text of a chain holds the message of every error of the chain,
/// whole, in the order of the chain.
pub proof fn lemma_chain_text_holds_each_message(messages: Seq<Seq<char>>, i: int)
    requires
        0 <= i < messages.len(),
    ensures
        0 <= message_start(messages, i),
        message_start(messages, i) + messages[i].len() <= chain_text(messages).len(),
        chain_text(messages).subrange(
            message_start(messages, i),
            message_start(messages, i) + messages[i].len(),
        ) == messages[i],
    decreases messages.len(),
{
    lemma_message_start_of_prefix(messages, i);
    if messages.len() == 1 {
        assert(chain_text(messages).subrange(0, messages[0].len() as int) =~= messages[0]);
    } else {
        let front = messages.drop_last();
        let all = chain_text(messages);
        lemma_chain_text_len(front);
        let from = message_start(messages, i);
        let to = from + messages[i].len();
        if i < messages.len() - 1 {
            lemma_chain_text_holds_each_message(front, i);
            assert(front[i] == messages[i]);
            assert(all.subrange(from, to) =~= chain_text(front).subrange(from, to));
        } else {
            assert(from == chain_text(front).len() + 2);
            assert(all.subrange(from, to) =~= messages[i]);
        }
    }
}

/// The messages as one text, with a colon and a space between neighbours.
pub fn render_chain(messages: &Vec<String>) -> (text: String)
    ensures
        text@ == chain_text(texts(messages@)),
{
    let mut text = String::new();
    let mut i: usize = 0;
    assert(texts(messages@).take(0) =~= Seq::<Seq<char>>::empty());
    while i < messages.len()
        invariant
            i <= messages.len(),
            text@ == chain_text(texts(messages@).take(i as int)),
        decreases messages.len() - i,
    {
        let ghost so_far = text@;
        if i > 0 {
            text.append(": ");
        }
        text.append(messages[i].as_str());
        proof {
            reveal_strlit(": ");
            assert(": "@ =~= seq![':', ' ']);
            let next = texts(messages@).take(i as int + 1);
            assert(next.drop_last() =~= texts(messages@).take(i as int));
            assert(next.last() == messages@[i as int]@);
            if i > 0 {
                assert(text@ =~= so_far + seq![':', ' '] + messages@[i as int]@);
            } else {
                assert(text@ =~= so_far + messages@[i as int]@);
            }
        }
        i += 1;
    }
    assert(texts(messages@).take(i as int) =~= texts(messages@));
    text
}

impl PrintLnVisitor {
    /// A visitor that has recorded nothing.
    pub fn new() -> (visitor: PrintLnVisitor)
        ensures
            visitor@ == Seq::<FieldView>::empty(),
    {
        PrintLnVisitor { fields: FieldMap::new() }
    }

    /// Records a floating-point value, given as its decimal text.
    pub fn record_f64(&mut self, field: &str, text: String)
        requires
            is_float_text(text@),
        ensures
            final(self)@ == inserted(old(self)@, field@, ValueView::F64(text@)),
    {
        let float = FloatText::parse(text).unwrap();
        self.fields.insert(field, LogValue::F64(float));
    }

    /// Records a signed 64-bit integer.
    pub fn record_i64(&mut self, field: &str, value: i64)
        ensures
            final(self)@ == inserted(old(self)@, field@, ValueView::I64(value)),
    {
        self.fields.insert(field, LogValue::I64(value));
    }

    /// Records an unsigned 64-bit integer.
    pub fn record_u64(&mut self, field: &str, value: u64)
        ensures
            final(self)@ == inserted(old(self)@, field@, ValueView::U64(value)),
    {
        self.fields.insert(field, LogValue::U64(value));
    }

    /// Records a signed 128-bit integer.
    pub fn record_i128(&mut self, field: &str, value: i128)
        ensures
            final(self)@ == inserted(old(self)@, field@, ValueView::I128(value)),
    {
        self.fields.insert(field, LogValue::I128(value));
    }

    /// Records an unsigned 128-bit integer.
    pub fn record_u128(&mut self, field: &str, value: u128)
        ensures
            final(self)@ == inserted(old(self)@, field@, ValueView::U128(value)),
    {
        self.fields.insert(field, LogValue::U128(value));
    }

    /// Records a boolean.
    pub fn record_bool(&mut self, field: &str, value: bool)
        ensures
            final(self)@ == inserted(old(self)@, field@, ValueView::Bool(value)),
    {
        self.fields.insert(field, LogValue::Bool(value));
    }

    /// Records text.
    pub fn record_str(&mut self, field: &str, value: &str)
        ensures
            final(self)@ == inserted(old(self)@, field@, ValueView::Text(value@)),
    {
        self.fields.insert(field, LogValue::Text(value.to_owned()));
    }

    /// Records an error as text: the messages of the error and of the errors
    /// behind it, the error's own first, as one text.
    pub fn record_error(&mut self, field: &str, messages: &Vec<String>)
        ensures
            final(self)@ == inserted(
                old(self)@,
                field@,
                ValueView::Text(chain_text(texts(messages@))),
            ),
    {
        let text = render_chain(messages);
        self.fields.insert(field, LogValue::Text(text));
    }

    /// Records any other value as text, given as the text that its debug
    /// form writes.
    pub fn record_debug(&mut self, field: &str, rendered: &str)
        ensures
            final(self)@ == inserted(old(self)@, field@, ValueView::Text(rendered@)),
    {
        self.fields.insert(field, LogValue::Text(rendered.to_owned()));
    }

    /// The number of fields recorded so far.
    pub fn len(&self) -> (n: usize)
        ensures
            n == self@.len(),
    {
        self.fields.len()
    }

    /// The fields recorded.
    pub fn into_fields(self) -> (fields: FieldMap)
        ensures
            fields@ == self@,
    {
        self.fields
    }
}

} // verus!
