//! The field map of an event: names to values, each name once.

use vstd::prelude::*;
use vstd::string::StringExecFns;
use crate::log::value::{lemma_rendered_single_line, LogValue, ValueView};
use crate::text::single_line;

verus! {

/// One named field of an event.
#[derive(Debug, PartialEq, Eq)]
pub struct Field {
    pub name: String,
    pub value: LogValue,
}

/// What a [`Field`] holds, as mathematics.
pub struct FieldView {
    pub name: Seq<char>,
    pub value: ValueView,
}

impl View for Field {
    type V = FieldView;

    open spec fn view(&self) -> FieldView {
        FieldView { name: self.name@, value: self.value@ }
    }
}

/// No two entries carry the same name.
pub open spec fn names_distinct(entries: Seq<FieldView>) -> bool {
    forall|i: int, j: int|
        0 <= i < j < entries.len() ==> (#[trigger] entries[i]).name != (#[trigger] entries[j]).name
}

/// Whether some entry is named `name`.
pub open spec fn has_name(entries: Seq<FieldView>, name: Seq<char>) -> bool {
    exists|i: int| 0 <= i < entries.len() && (#[trigger] entries[i]).name == name
}

/// The value written under `name`, if any.
pub open spec fn lookup(entries: Seq<FieldView>, name: Seq<char>) -> Option<ValueView>
    decreases entries.len(),
{
    if entries.len() == 0 {
        None
    } else if entries[0].name == name {
        Some(entries[0].value)
    } else {
        lookup(entries.drop_first(), name)
    }
}

/// The entries after writing `value` under `name`: the entry of that name
/// takes the new value where it stands, and a new name goes to the end.
pub open spec fn inserted(entries: Seq<FieldView>, name: Seq<char>, value: ValueView) -> Seq<
    FieldView,
>
    decreases entries.len(),
{
    if entries.len() == 0 {
        seq![FieldView { name, value }]
    } else if entries[0].name == name {
        entries.update(0, FieldView { name, value })
    } else {
        seq![entries[0]] + inserted(entries.drop_first(), name, value)
    }
}

/// Writing under a name that the first `at` entries do not carry and entry
/// `at` does replaces entry `at`.
proof fn lemma_inserted_replaces(
    entries: Seq<FieldView>,
    name: Seq<char>,
    value: ValueView,
    at: int,
)
    requires
        0 <= at < entries.len(),
        entries[at].name == name,
        forall|j: int| 0 <= j < at ==> (#[trigger] entries[j]).name != name,
    ensures
        inserted(entries, name, value) == entries.update(at, FieldView { name, value }),
    decreases at,
{
    if at > 0 {
        let rest = entries.drop_first();
        assert forall|j: int| 0 <= j < at - 1 implies (#[trigger] rest[j]).name != name by {
            assert(rest[j] == entries[j + 1]);
        }
        lemma_inserted_replaces(rest, name, value, at - 1);
        assert(seq![entries[0]] + rest.update(at - 1, FieldView { name, value })
            =~= entries.update(at, FieldView { name, value }));
    }
}

/// Writing under a name that no entry carries adds an entry at the end.
proof fn lemma_inserted_appends(entries: Seq<FieldView>, name: Seq<char>, value: ValueView)
    requires
        !has_name(entries, name),
    ensures
        inserted(entries, name, value) == entries.push(FieldView { name, value }),
    decreases entries.len(),
{
    if entries.len() == 0 {
        assert(seq![FieldView { name, value }] =~= entries.push(FieldView { name, value }));
    } else {
        let rest = entries.drop_first();
        assert(entries[0].name != name);
        assert forall|j: int| 0 <= j < rest.len() implies (#[trigger] rest[j]).name != name by {
            assert(rest[j] == entries[j + 1]);
        }
        lemma_inserted_appends(rest, name, value);
        assert(seq![entries[0]] + rest.push(FieldView { name, value }) =~= entries.push(
            FieldView { name, value },
        ));
    }
}

/// A name has a value exactly when some entry carries it.
pub proof fn lemma_lookup_is_some(entries: Seq<FieldView>, name: Seq<char>)
    ensures
        lookup(entries, name) is Some <==> has_name(entries, name),
    decreases entries.len(),
{
    if entries.len() > 0 {
        let rest = entries.drop_first();
        lemma_lookup_is_some(rest, name);
        if entries[0].name != name {
            if has_name(rest, name) {
                let j = choose|j: int| 0 <= j < rest.len() && (#[trigger] rest[j]).name == name;
                assert(entries[j + 1].name == name);
            }
            if has_name(entries, name) {
                let i = choose|i: int|
                    0 <= i < entries.len() && (#[trigger] entries[i]).name == name;
                assert(rest[i - 1].name == name);
            }
        }
    }
}

/// The first entry of a name gives the value of that name.
proof fn lemma_lookup_first(entries: Seq<FieldView>, name: Seq<char>, at: int)
    requires
        0 <= at < entries.len(),
        entries[at].name == name,
        forall|j: int| 0 <= j < at ==> (#[trigger] entries[j]).name != name,
    ensures
        lookup(entries, name) == Some(entries[at].value),
    decreases at,
{
    if at > 0 {
        let rest = entries.drop_first();
        assert forall|j: int| 0 <= j < at - 1 implies (#[trigger] rest[j]).name != name by {
            assert(rest[j] == entries[j + 1]);
        }
        lemma_lookup_first(rest, name, at - 1);
    }
}

/// Last writer wins: after a write the name reads back the value written,
/// and every other name reads as before.
pub proof fn lemma_lookup_inserted(
    entries: Seq<FieldView>,
    name: Seq<char>,
    value: ValueView,
    other: Seq<char>,
)
    ensures
        lookup(inserted(entries, name, value), other) == if other == name {
            Some(value)
        } else {
            lookup(entries, other)
        },
    decreases entries.len(),
{
    if entries.len() == 0 {
        reveal_with_fuel(lookup, 2);
        let one = seq![FieldView { name, value }];
        assert(one.drop_first().len() == 0);
    } else if entries[0].name == name {
        let after = entries.update(0, FieldView { name, value });
        assert(after.drop_first() =~= entries.drop_first());
    } else {
        let rest = entries.drop_first();
        let after = seq![entries[0]] + inserted(rest, name, value);
        lemma_lookup_inserted(rest, name, value, other);
        assert(after[0] == entries[0]);
        assert(after.drop_first() =~= inserted(rest, name, value));
    }
}

/// A write changes the number of entries by one for a new name and not at
/// all for a name already there.
pub proof fn lemma_inserted_len(entries: Seq<FieldView>, name: Seq<char>, value: ValueView)
    ensures
        inserted(entries, name, value).len() == if has_name(entries, name) {
            entries.len()
        } else {
            entries.len() + 1
        },
{
    if has_name(entries, name) {
        lemma_first_position(entries, name);
        let at = first_position(entries, name);
        lemma_inserted_replaces(entries, name, value, at);
    } else {
        lemma_inserted_appends(entries, name, value);
    }
}

/// Writes keep names unique.
pub proof fn lemma_inserted_keeps_names_distinct(
    entries: Seq<FieldView>,
    name: Seq<char>,
    value: ValueView,
)
    requires
        names_distinct(entries),
    ensures
        names_distinct(inserted(entries, name, value)),
{
    let after = inserted(entries, name, value);
    if has_name(entries, name) {
        lemma_first_position(entries, name);
        let at = first_position(entries, name);
        lemma_inserted_replaces(entries, name, value, at);
        assert forall|i: int, j: int| 0 <= i < j < after.len() implies (#[trigger] after[i]).name
            != (#[trigger] after[j]).name by {
            assert(after[i].name == entries[i].name);
            assert(after[j].name == entries[j].name);
        }
    } else {
        lemma_inserted_appends(entries, name, value);
        assert forall|i: int, j: int| 0 <= i < j < after.len() implies (#[trigger] after[i]).name
            != (#[trigger] after[j]).name by {
            if j < entries.len() {
                assert(after[i] == entries[i]);
                assert(after[j] == entries[j]);
            } else {
                assert(after[i] == entries[i]);
            }
        }
    }
}

/// A second write under the same name leaves only the second value, where
/// the first one stood.
pub proof fn lemma_inserted_twice(
    entries: Seq<FieldView>,
    name: Seq<char>,
    first: ValueView,
    second: ValueView,
)
    ensures
        inserted(inserted(entries, name, first), name, second) == inserted(entries, name, second),
    decreases entries.len(),
{
    if entries.len() == 0 {
        let one = seq![FieldView { name, value: first }];
        assert(one.update(0, FieldView { name, value: second }) =~= seq![
            FieldView { name, value: second },
        ]);
    } else if entries[0].name == name {
        let after = entries.update(0, FieldView { name, value: first });
        assert(after.update(0, FieldView { name, value: second }) =~= entries.update(
            0,
            FieldView { name, value: second },
        ));
    } else {
        let rest = entries.drop_first();
        let after = seq![entries[0]] + inserted(rest, name, first);
        lemma_inserted_twice(rest, name, first, second);
        assert(after[0] == entries[0]);
        assert(after.drop_first() =~= inserted(rest, name, first));
    }
}

/// The least index of an entry named `name`, or the number of entries where
/// there is none.
spec fn first_position(entries: Seq<FieldView>, name: Seq<char>) -> int
    decreases entries.len(),
{
    if entries.len() == 0 {
        0
    } else if entries[0].name == name {
        0
    } else {
        1 + first_position(entries.drop_first(), name)
    }
}

/// Where some entry carries the name, `first_position` is the first such.
proof fn lemma_first_position(entries: Seq<FieldView>, name: Seq<char>)
    requires
        has_name(entries, name),
    ensures
        0 <= first_position(entries, name) < entries.len(),
        entries[first_position(entries, name)].name == name,
        forall|j: int|
            0 <= j < first_position(entries, name) ==> (#[trigger] entries[j]).name != name,
    decreases entries.len(),
{
    if entries.len() > 0 && entries[0].name != name {
        let rest = entries.drop_first();
        let i = choose|i: int| 0 <= i < entries.len() && (#[trigger] entries[i]).name == name;
        assert(rest[i - 1].name == name);
        lemma_first_position(rest, name);
        let at = first_position(rest, name);
        assert(entries[at + 1] == rest[at]);
        assert forall|j: int| 0 <= j < at + 1 implies (#[trigger] entries[j]).name != name by {
            if j > 0 {
                assert(entries[j] == rest[j - 1]);
            }
        }
    }
}

/// One field as it stands in a line: the name, `=`, the value's text form.
pub open spec fn token(field: FieldView) -> Seq<char> {
    field.name + seq!['='] + field.value.rendered()
}

/// The tokens of the fields in order, with one space between neighbours;
/// empty where there is no field.
pub open spec fn joined(fields: Seq<FieldView>) -> Seq<char>
    decreases fields.len(),
{
    if fields.len() == 0 {
        Seq::empty()
    } else if fields.len() == 1 {
        token(fields[0])
    } else {
        joined(fields.drop_last()) + seq![' '] + token(fields.last())
    }
}

/// Where the token of field `i` starts within the joined fields: after the
/// tokens before it and one space for each of them.
pub open spec fn token_start(fields: Seq<FieldView>, i: int) -> int
    decreases i,
{
    if i <= 0 {
        0
    } else {
        token_start(fields, i - 1) + token(fields[i - 1]).len() + 1
    }
}

/// A token starts at or after the beginning, and after it if it is not the
/// first.
proof fn lemma_token_start_bounds(fields: Seq<FieldView>, i: int)
    ensures
        0 <= token_start(fields, i),
        i > 0 ==> 1 <= token_start(fields, i),
    decreases i,
{
    if i > 0 {
        lemma_token_start_bounds(fields, i - 1);
    }
}

/// Where a token starts depends on the fields before it alone.
proof fn lemma_token_start_of_prefix(fields: Seq<FieldView>, i: int)
    requires
        0 <= i < fields.len(),
    ensures
        token_start(fields.drop_last(), i) == token_start(fields, i),
    decreases i,
{
    if i > 0 {
        lemma_token_start_of_prefix(fields, i - 1);
        assert(fields.drop_last()[i - 1] == fields[i - 1]);
    }
}

/// The joined fields end where a further token's separator would stand.
proof fn lemma_joined_len(fields: Seq<FieldView>)
    requires
        fields.len() > 0,
    ensures
        joined(fields).len() + 1 == token_start(fields, fields.len() as int),
    decreases fields.len(),
{
    if fields.len() > 1 {
        let front = fields.drop_last();
        lemma_joined_len(front);
        lemma_token_start_of_prefix(fields, fields.len() - 1);
    } else {
        reveal_with_fuel(token_start, 2);
    }
}

/// The joined fields hold the token of every field, whole, at its place;
/// a space stands before every token but the first.
pub proof fn lemma_joined_holds_each_token(fields: Seq<FieldView>, i: int)
    requires
        0 <= i < fields.len(),
    ensures
        0 <= token_start(fields, i),
        token_start(fields, i) + token(fields[i]).len() <= joined(fields).len(),
        joined(fields).subrange(
            token_start(fields, i),
            token_start(fields, i) + token(fields[i]).len(),
        ) == token(fields[i]),
        i > 0 ==> joined(fields)[token_start(fields, i) - 1] == ' ',
    decreases fields.len(),
{
    if fields.len() == 1 {
        assert(joined(fields).subrange(0, token(fields[0]).len() as int) =~= token(fields[0]));
    } else {
        let front = fields.drop_last();
        let all = joined(fields);
        assert(all == joined(front) + seq![' '] + token(fields.last()));
        lemma_joined_len(front);
        if i < fields.len() - 1 {
            lemma_joined_holds_each_token(front, i);
            lemma_token_start_of_prefix(fields, i);
            assert(front[i] == fields[i]);
            let from = token_start(fields, i);
            let to = from + token(fields[i]).len();
            assert(all.subrange(from, to) =~= joined(front).subrange(from, to));
            if i > 0 {
                lemma_token_start_bounds(fields, i);
                assert(all[from - 1] == joined(front)[from - 1]);
            }
        } else {
            lemma_token_start_of_prefix(fields, i);
            let from = token_start(fields, i);
            assert(from == joined(front).len() + 1);
            assert(all.subrange(from, from + token(fields[i]).len()) =~= token(fields[i]));
            assert(all[from - 1] == ' ');
        }
    }
}

/// Whether no field brings a line feed, in its name or in its value.
pub open spec fn fields_single_line(fields: Seq<FieldView>) -> bool {
    forall|i: int|
        0 <= i < fields.len() ==> single_line((#[trigger] fields[i]).name)
            && fields[i].value.single_line()
}

/// The joined fields stay within one line if every field does.
pub proof fn lemma_joined_single_line(fields: Seq<FieldView>)
    requires
        fields_single_line(fields),
    ensures
        single_line(joined(fields)),
    decreases fields.len(),
{
    if fields.len() > 0 {
        let last = fields.last();
        assert(last == fields[fields.len() - 1]);
        lemma_rendered_single_line(last.value);
        if fields.len() > 1 {
            let front = fields.drop_last();
            assert forall|i: int| 0 <= i < front.len() implies single_line(
                (#[trigger] front[i]).name,
            ) && front[i].value.single_line() by {
                assert(front[i] == fields[i]);
            }
            lemma_joined_single_line(front);
        }
    }
}

/// The fields of one event, by name. A name occurs at most once; a later
/// write under a name replaces the earlier value; the entries keep the order
/// in which their names were first written. That names are distinct holds of
/// every map; `len` and `insert` say so to their callers.
#[derive(Debug, PartialEq, Eq)]
pub struct FieldMap {
    entries: Vec<Field>,
}

impl View for FieldMap {
    type V = Seq<FieldView>;

    closed spec fn view(&self) -> Seq<FieldView> {
        self.entries@.map_values(|f: Field| f@)
    }
}

impl FieldMap {
    #[verifier::type_invariant]
    spec fn well_formed(&self) -> bool {
        names_distinct(self@)
    }

    /// A map without fields.
    pub fn new() -> (map: FieldMap)
        ensures
            map@ == Seq::<FieldView>::empty(),
    {
        let map = FieldMap { entries: Vec::new() };
        assert(map@ =~= Seq::<FieldView>::empty());
        map
    }

    /// The number of fields.
    pub fn len(&self) -> (n: usize)
        ensures
            n == self@.len(),
            names_distinct(self@),
    {
        proof {
            use_type_invariant(self);
        }
        self.entries.len()
    }

    /// The index of the entry named `name`, or the number of entries where
    /// no entry has that name.
    fn position(&self, name: &String) -> (at: usize)
        ensures
            at <= self@.len(),
            at < self@.len() ==> self@[at as int].name == name@,
            forall|j: int| 0 <= j < at ==> (#[trigger] self@[j]).name != name@,
    {
        let mut i: usize = 0;
        while i < self.entries.len()
            invariant
                i <= self.entries.len(),
                forall|j: int| 0 <= j < i ==> (#[trigger] self@[j]).name != name@,
            decreases self.entries.len() - i,
        {
            if self.entries[i].name == *name {
                return i;
            }
            i += 1;
        }
        i
    }

    /// Writes `value` under `name`, in place of the value that the name had.
    pub fn insert(&mut self, name: &str, value: LogValue)
        ensures
            final(self)@ == inserted(old(self)@, name@, value@),
            names_distinct(final(self)@),
    {
        let owned: String = name.to_owned();
        let at = self.position(&owned);
        // The entries are taken out for the update and put back after it, so
        // that the map is well formed wherever the update may stop.
        let mut entries: Vec<Field> = Vec::new();
        proof {
            use_type_invariant(&*self);
            lemma_inserted_keeps_names_distinct(self@, name@, value@);
            assert(entries@.map_values(|f: Field| f@) =~= Seq::<FieldView>::empty());
        }
        core::mem::swap(&mut self.entries, &mut entries);
        let field = Field { name: owned, value };
        if at < entries.len() {
            proof {
                lemma_inserted_replaces(old(self)@, name@, value@, at as int);
                assert(entries@.update(at as int, field).map_values(|f: Field| f@) =~= old(
                    self,
                )@.update(at as int, field@));
            }
            entries.set(at, field);
        } else {
            proof {
                assert(!has_name(old(self)@, name@));
                lemma_inserted_appends(old(self)@, name@, value@);
                assert(entries@.push(field).map_values(|f: Field| f@) =~= old(self)@.push(field@));
            }
            entries.push(field);
        }
        core::mem::swap(&mut self.entries, &mut entries);
    }

    /// The value written under `name`, if any.
    pub fn get(&self, name: &str) -> (found: Option<&LogValue>)
        ensures
            match found {
                Some(value) => lookup(self@, name@) == Some(value@),
                None => lookup(self@, name@) is None,
            },
    {
        let owned: String = name.to_owned();
        let at = self.position(&owned);
        if at < self.entries.len() {
            proof {
                lemma_lookup_first(self@, name@, at as int);
            }
            Some(&self.entries[at].value)
        } else {
            proof {
                assert(!has_name(self@, name@));
                lemma_lookup_is_some(self@, name@);
            }
            None
        }
    }

    /// The field at place `i`, counting from zero in the order in which the
    /// names were first written.
    pub fn entry(&self, i: usize) -> (field: &Field)
        requires
            i < self@.len(),
        ensures
            field@ == self@[i as int],
    {
        &self.entries[i]
    }

    /// Appends the fields to `out`, each as `name=value`, with one space
    /// between neighbours.
    pub fn append_joined(&self, out: &mut String)
        ensures
            final(out)@ == old(out)@ + joined(self@),
    {
        let ghost before = out@;
        let mut i: usize = 0;
        assert(self@.take(0) =~= Seq::<FieldView>::empty());
        assert(out@ =~= before + joined(self@.take(0)));
        while i < self.entries.len()
            invariant
                i <= self.entries.len(),
                out@ == before + joined(self@.take(i as int)),
            decreases self.entries.len() - i,
        {
            let ghost so_far = out@;
            if i > 0 {
                out.append(" ");
            }
            out.append(self.entries[i].name.as_str());
            out.append("=");
            self.entries[i].value.append_to(out);
            proof {
                reveal_strlit(" ");
                reveal_strlit("=");
                let next = self@.take(i as int + 1);
                assert(next.drop_last() =~= self@.take(i as int));
                assert(next.last() == self@[i as int]);
                assert("="@ =~= seq!['=']);
                assert(" "@ =~= seq![' ']);
                if i > 0 {
                    assert(out@ =~= so_far + seq![' '] + token(self@[i as int]));
                } else {
                    assert(out@ =~= so_far + token(self@[i as int]));
                }
                assert(out@ =~= before + joined(next));
            }
            i += 1;
        }
        assert(self@.take(i as int) =~= self@);
    }
}

} // verus!
