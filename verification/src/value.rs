//! The canonical value model: one tagged tree that every source of test
//! data is brought into before tests are generated.

use crate::text::{lemma_text_lt_asymmetric, lemma_text_lt_irreflexive, lemma_text_lt_total, lemma_text_lt_transitive, precedes, text_lt};
use vstd::prelude::*;

verus! {

/// A canonical number: an integer, or a finite float held as its decimal text.
#[derive(Clone, Debug, PartialEq, Eq)]
pub enum Number {
    /// An integer that fits in 64 signed bits.
    Int(i64),
    /// An integer above the signed range.
    UInt(u64),
    /// A finite float, as its shortest decimal text.
    Float(String),
}

/// The mathematical content of a [`Number`].
pub enum NumberView {
    Int(int),
    Float(Seq<char>),
}

impl View for Number {
    type V = NumberView;

    open spec fn view(&self) -> NumberView {
        match self {
            Number::Int(i) => NumberView::Int(*i as int),
            Number::UInt(u) => NumberView::Int(*u as int),
            Number::Float(t) => NumberView::Float(t@),
        }
    }
}

/// A canonical value. An `Object` is a field map; with a single key it also
/// stands for a named variant, the key being the variant's name.
#[derive(Debug, PartialEq, Eq)]
pub enum CanonicalValue {
    Null,
    Bool(bool),
    Number(Number),
    String(String),
    Array(Vec<CanonicalValue>),
    Object(Vec<(String, CanonicalValue)>),
}

/// The mathematical content of a [`CanonicalValue`].
pub enum ValueView {
    Null,
    Bool(bool),
    Number(NumberView),
    String(Seq<char>),
    Array(Seq<ValueView>),
    Object(Seq<(Seq<char>, ValueView)>),
}

/// The fields of an object, as mathematical content.
pub type FieldsView = Seq<(Seq<char>, ValueView)>;

/// The content of a value: the same tree, with mathematical strings and sequences.
pub open spec fn content(v: CanonicalValue) -> ValueView
    decreases v,
{
    match v {
        CanonicalValue::Null => ValueView::Null,
        CanonicalValue::Bool(b) => ValueView::Bool(b),
        CanonicalValue::Number(n) => ValueView::Number(n@),
        CanonicalValue::String(s) => ValueView::String(s@),
        CanonicalValue::Array(items) => ValueView::Array(
            Seq::new(
                items.len() as nat,
                |i: int|
                    if 0 <= i < items.len() {
                        content(items[i])
                    } else {
                        ValueView::Null
                    },
            ),
        ),
        CanonicalValue::Object(fields) => ValueView::Object(
            Seq::new(
                fields.len() as nat,
                |i: int|
                    if 0 <= i < fields.len() {
                        (fields[i].0@, content(fields[i].1))
                    } else {
                        (Seq::empty(), ValueView::Null)
                    },
            ),
        ),
    }
}

impl View for CanonicalValue {
    type V = ValueView;

    open spec fn view(&self) -> ValueView {
        content(*self)
    }
}

/// The content of each value of a list.
pub open spec fn views(items: Seq<CanonicalValue>) -> Seq<ValueView> {
    Seq::new(items.len(), |i: int| items[i]@)
}

/// The content of each field of a list.
pub open spec fn field_views(fields: Seq<(String, CanonicalValue)>) -> FieldsView {
    Seq::new(fields.len(), |i: int| (fields[i].0@, fields[i].1@))
}

/// An array's content is the content of its items.
pub proof fn lemma_array_view(items: Vec<CanonicalValue>)
    ensures
        CanonicalValue::Array(items)@ == ValueView::Array(views(items@)),
{
    assert(CanonicalValue::Array(items)@->Array_0 =~= views(items@));
}

/// An object's content is the content of its fields.
pub proof fn lemma_object_view(fields: Vec<(String, CanonicalValue)>)
    ensures
        CanonicalValue::Object(fields)@ == ValueView::Object(field_views(fields@)),
{
    assert(CanonicalValue::Object(fields)@->Object_0 =~= field_views(fields@));
}

/// Whether the keys stand in strictly ascending order, so that none occurs twice.
pub open spec fn sorted_keys(fields: FieldsView) -> bool {
    forall|i: int, j: int| 0 <= i < j < fields.len() ==> text_lt(#[trigger] fields[i].0, #[trigger] fields[j].0)
}

/// Whether every key comes after `bound`.
pub open spec fn keys_above(fields: FieldsView, bound: Seq<char>) -> bool {
    forall|i: int| 0 <= i < fields.len() ==> text_lt(bound, #[trigger] fields[i].0)
}

/// The value stored under `key`, if any.
pub open spec fn lookup(fields: FieldsView, key: Seq<char>) -> Option<ValueView>
    decreases fields.len(),
{
    if fields.len() == 0 {
        None
    } else if fields[0].0 == key {
        Some(fields[0].1)
    } else {
        lookup(fields.drop_first(), key)
    }
}

/// The fields after `key` is set to `value`: an entry with that key is
/// replaced, a new key goes to its place in the order.
pub open spec fn insert_field(fields: FieldsView, key: Seq<char>, value: ValueView) -> FieldsView
    decreases fields.len(),
{
    if fields.len() == 0 {
        seq![(key, value)]
    } else if fields[0].0 == key {
        fields.update(0, (key, value))
    } else if text_lt(key, fields[0].0) {
        seq![(key, value)] + fields
    } else {
        seq![fields[0]] + insert_field(fields.drop_first(), key, value)
    }
}

/// The fields that result from setting the pairs one after another, starting from none.
pub open spec fn object_fields(pairs: FieldsView) -> FieldsView
    decreases pairs.len(),
{
    if pairs.len() == 0 {
        Seq::empty()
    } else {
        insert_field(object_fields(pairs.drop_last()), pairs.last().0, pairs.last().1)
    }
}

impl ValueView {
    /// Whether the value holds no float.
    pub open spec fn float_free(self) -> bool
        decreases self,
    {
        match self {
            ValueView::Number(NumberView::Float(_)) => false,
            ValueView::Array(items) => forall|i: int|
                0 <= i < items.len() ==> (#[trigger] items[i]).float_free(),
            ValueView::Object(fields) => forall|i: int|
                0 <= i < fields.len() ==> (#[trigger] fields[i]).1.float_free(),
            _ => true,
        }
    }

    /// Whether every object in the value keeps its keys in ascending order.
    pub open spec fn well_formed(self) -> bool
        decreases self,
    {
        match self {
            ValueView::Array(items) => forall|i: int|
                0 <= i < items.len() ==> (#[trigger] items[i]).well_formed(),
            ValueView::Object(fields) => sorted_keys(fields) && forall|i: int|
                0 <= i < fields.len() ==> (#[trigger] fields[i]).1.well_formed(),
            _ => true,
        }
    }
}

/// Setting a key above a bound keeps every key above that bound.
pub proof fn lemma_insert_field_above(
    fields: FieldsView,
    key: Seq<char>,
    value: ValueView,
    bound: Seq<char>,
)
    requires
        keys_above(fields, bound),
        text_lt(bound, key),
    ensures
        keys_above(insert_field(fields, key, value), bound),
    decreases fields.len(),
{
    if fields.len() > 0 && fields[0].0 != key && !text_lt(key, fields[0].0) {
        let rest = fields.drop_first();
        assert forall|i: int| 0 <= i < rest.len() implies text_lt(bound, #[trigger] rest[i].0) by {
            assert(rest[i] == fields[i + 1]);
        }
        lemma_insert_field_above(rest, key, value, bound);
        let tail = insert_field(rest, key, value);
        let r = insert_field(fields, key, value);
        assert forall|i: int| 0 <= i < r.len() implies text_lt(bound, #[trigger] r[i].0) by {
            if i > 0 {
                assert(r[i] == tail[i - 1]);
            }
        }
    }
}

/// Setting a key keeps ascending keys ascending.
pub proof fn lemma_insert_field_sorted(fields: FieldsView, key: Seq<char>, value: ValueView)
    requires
        sorted_keys(fields),
    ensures
        sorted_keys(insert_field(fields, key, value)),
    decreases fields.len(),
{
    let r = insert_field(fields, key, value);
    if fields.len() == 0 {
    } else if fields[0].0 == key {
        assert forall|i: int, j: int| 0 <= i < j < r.len() implies text_lt(
            #[trigger] r[i].0,
            #[trigger] r[j].0,
        ) by {
            assert(r[i].0 == fields[i].0);
            assert(r[j].0 == fields[j].0);
        }
    } else if text_lt(key, fields[0].0) {
        assert forall|i: int, j: int| 0 <= i < j < r.len() implies text_lt(
            #[trigger] r[i].0,
            #[trigger] r[j].0,
        ) by {
            if i == 0 {
                if j > 1 {
                    assert(r[j] == fields[j - 1]);
                    lemma_text_lt_transitive(key, fields[0].0, fields[j - 1].0);
                }
            } else {
                assert(r[i] == fields[i - 1]);
                assert(r[j] == fields[j - 1]);
            }
        }
    } else {
        let rest = fields.drop_first();
        lemma_text_lt_total(fields[0].0, key);
        assert forall|i: int, j: int| 0 <= i < j < rest.len() implies text_lt(
            #[trigger] rest[i].0,
            #[trigger] rest[j].0,
        ) by {
            assert(rest[i] == fields[i + 1]);
            assert(rest[j] == fields[j + 1]);
        }
        assert forall|i: int| 0 <= i < rest.len() implies text_lt(
            fields[0].0,
            #[trigger] rest[i].0,
        ) by {
            assert(rest[i] == fields[i + 1]);
        }
        lemma_insert_field_sorted(rest, key, value);
        lemma_insert_field_above(rest, key, value, fields[0].0);
        let tail = insert_field(rest, key, value);
        assert forall|i: int, j: int| 0 <= i < j < r.len() implies text_lt(
            #[trigger] r[i].0,
            #[trigger] r[j].0,
        ) by {
            assert(r[j] == tail[j - 1]);
            if i > 0 {
                assert(r[i] == tail[i - 1]);
            }
        }
    }
}

/// Whether every value of the fields is well formed.
pub open spec fn values_well_formed(fields: FieldsView) -> bool {
    forall|i: int| 0 <= i < fields.len() ==> (#[trigger] fields[i]).1.well_formed()
}

/// Setting a key to a well-formed value keeps the values well formed.
pub proof fn lemma_insert_field_values(fields: FieldsView, key: Seq<char>, value: ValueView)
    requires
        values_well_formed(fields),
        value.well_formed(),
    ensures
        values_well_formed(insert_field(fields, key, value)),
    decreases fields.len(),
{
    let r = insert_field(fields, key, value);
    if fields.len() == 0 {
    } else if fields[0].0 == key {
        assert forall|i: int| 0 <= i < r.len() implies (#[trigger] r[i]).1.well_formed() by {
            if i > 0 {
                assert(r[i] == fields[i]);
            }
        }
    } else if text_lt(key, fields[0].0) {
        assert forall|i: int| 0 <= i < r.len() implies (#[trigger] r[i]).1.well_formed() by {
            if i > 0 {
                assert(r[i] == fields[i - 1]);
            }
        }
    } else {
        let rest = fields.drop_first();
        assert forall|i: int| 0 <= i < rest.len() implies (#[trigger] rest[i]).1.well_formed() by {
            assert(rest[i] == fields[i + 1]);
        }
        lemma_insert_field_values(rest, key, value);
        let tail = insert_field(rest, key, value);
        assert forall|i: int| 0 <= i < r.len() implies (#[trigger] r[i]).1.well_formed() by {
            if i > 0 {
                assert(r[i] == tail[i - 1]);
            } else {
                assert(r[0] == fields[0]);
            }
        }
    }
}

/// Setting a key to a well-formed value in a well-formed object gives a well-formed object.
pub proof fn lemma_insert_field_well_formed(fields: FieldsView, key: Seq<char>, value: ValueView)
    requires
        ValueView::Object(fields).well_formed(),
        value.well_formed(),
    ensures
        ValueView::Object(insert_field(fields, key, value)).well_formed(),
{
    lemma_insert_field_sorted(fields, key, value);
    lemma_insert_field_values(fields, key, value);
}

/// After a key is set, it holds the new value and every other key holds what it held.
pub proof fn lemma_insert_field_lookup(
    fields: FieldsView,
    key: Seq<char>,
    value: ValueView,
    other: Seq<char>,
)
    ensures
        lookup(insert_field(fields, key, value), key) == Some(value),
        other != key ==> lookup(insert_field(fields, key, value), other) == lookup(fields, other),
    decreases fields.len(),
{
    let r = insert_field(fields, key, value);
    if fields.len() == 0 {
        assert(r[0] == (key, value));
        assert(r.drop_first() =~= fields);
    } else if fields[0].0 == key {
        assert(r[0] == (key, value));
        assert(r.drop_first() =~= fields.drop_first());
    } else if text_lt(key, fields[0].0) {
        assert(r[0] == (key, value));
        assert(r.drop_first() =~= fields);
    } else {
        let rest = fields.drop_first();
        lemma_insert_field_lookup(rest, key, value, other);
        assert(r[0] == fields[0]);
        assert(r.drop_first() =~= insert_field(rest, key, value));
    }
}

/// Where all keys before position `i` come before `key`, setting `key`
/// leaves those entries alone and works on the rest.
proof fn lemma_insert_field_skips(fields: FieldsView, key: Seq<char>, value: ValueView, i: int)
    requires
        0 <= i <= fields.len(),
        forall|j: int| 0 <= j < i ==> text_lt(#[trigger] fields[j].0, key),
    ensures
        insert_field(fields, key, value) == fields.take(i) + insert_field(
            fields.skip(i),
            key,
            value,
        ),
    decreases i,
{
    if i == 0 {
        assert(fields.skip(0) =~= fields);
        assert(fields.take(0) + insert_field(fields, key, value) =~= insert_field(
            fields,
            key,
            value,
        ));
    } else {
        assert(text_lt(fields[0].0, key));
        lemma_text_lt_asymmetric(fields[0].0, key);
        lemma_text_lt_irreflexive(key);
        let rest = fields.drop_first();
        assert forall|j: int| 0 <= j < i - 1 implies text_lt(#[trigger] rest[j].0, key) by {
            assert(rest[j] == fields[j + 1]);
        }
        lemma_insert_field_skips(rest, key, value, i - 1);
        assert(rest.skip(i - 1) =~= fields.skip(i));
        assert(seq![fields[0]] + (rest.take(i - 1) + insert_field(fields.skip(i), key, value))
            =~= fields.take(i) + insert_field(fields.skip(i), key, value));
    }
}

/// Sets `key` to `value` in a list of fields.
pub fn set_field(fields: &mut Vec<(String, CanonicalValue)>, key: String, value: CanonicalValue)
    ensures
        field_views(final(fields)@) == insert_field(field_views(old(fields)@), key@, value@),
{
    let ghost before = field_views(fields@);
    let mut i: usize = 0;
    while i < fields.len() && precedes(fields[i].0.as_str(), key.as_str())
        invariant
            i <= fields.len(),
            fields@ == old(fields)@,
            before == field_views(fields@),
            forall|j: int| 0 <= j < i ==> text_lt(#[trigger] before[j].0, key@),
        decreases fields.len() - i,
    {
        i = i + 1;
    }
    proof {
        lemma_insert_field_skips(before, key@, value@, i as int);
    }
    let ghost rest = before.skip(i as int);
    if i < fields.len() && fields[i].0 == key {
        fields[i] = (key, value);
        assert(field_views(fields@) =~= before.take(i as int) + rest.update(0, (key@, value@)));
    } else {
        proof {
            if i < fields.len() {
                assert(rest[0] == before[i as int]);
                lemma_text_lt_total(key@, rest[0].0);
            }
        }
        fields.insert(i, (key, value));
        assert(field_views(fields@) =~= before.take(i as int) + (seq![(key@, value@)] + rest));
    }
}

/// Setting well-formed values one after another from none gives a well-formed object.
pub proof fn lemma_object_fields_well_formed(pairs: FieldsView)
    requires
        values_well_formed(pairs),
    ensures
        ValueView::Object(object_fields(pairs)).well_formed(),
    decreases pairs.len(),
{
    if pairs.len() > 0 {
        let rest = pairs.drop_last();
        assert forall|i: int| 0 <= i < rest.len() implies (#[trigger] rest[i]).1.well_formed() by {
            assert(rest[i] == pairs[i]);
        }
        lemma_object_fields_well_formed(rest);
        lemma_insert_field_well_formed(object_fields(rest), pairs.last().0, pairs.last().1);
    }
}

} // verus!
