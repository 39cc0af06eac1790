//! The naming deriver: a deterministic slug from a canonical value, and
//! the name of a generated test.

use crate::text::{alphanumeric, chars_of, decimal_text, is_alphanumeric, joined, lowercase, push_char, push_decimal, push_signed_decimal, signed_decimal_text, to_lowercase};
use crate::value::{CanonicalValue, Number, NumberView, ValueView};
use vstd::prelude::*;
use vstd::string::*;

verus! {

/// The first character of the lowercase of a character, or the character
/// itself where its lowercase is empty.
pub open spec fn lowered(c: char) -> char {
    if lowercase(c).len() > 0 {
        lowercase(c)[0]
    } else {
        c
    }
}

/// What stands in a slug for one character of a string: the lowercase of
/// an alphanumeric character, `_` for any other.
pub open spec fn slug_char(c: char) -> char {
    if alphanumeric(c) {
        lowered(c)
    } else {
        '_'
    }
}

/// The slug of a string, character by character.
pub open spec fn slug(s: Seq<char>) -> Seq<char> {
    Seq::new(s.len(), |i: int| slug_char(s[i]))
}

/// A number's text with `_` in place of each `.` and `-`.
pub open spec fn underscored(t: Seq<char>) -> Seq<char> {
    Seq::new(
        t.len(),
        |i: int|
            if t[i] == '.' || t[i] == '-' {
                '_'
            } else {
                t[i]
            },
    )
}

/// The decimal text of a number.
pub open spec fn number_text(n: NumberView) -> Seq<char> {
    match n {
        NumberView::Int(i) => signed_decimal_text(i),
        NumberView::Float(t) => t,
    }
}

/// The suffixes of the parts of an array or of an object, in order; an
/// object gives those of its values, not of its keys.
pub open spec fn part_suffixes(v: ValueView) -> Seq<Seq<char>>
    decreases v, 0nat,
{
    match v {
        ValueView::Array(items) => Seq::new(
            items.len(),
            |i: int|
                if 0 <= i < items.len() {
                    suffix(items[i])
                } else {
                    Seq::empty()
                },
        ),
        ValueView::Object(fields) => Seq::new(
            fields.len(),
            |i: int|
                if 0 <= i < fields.len() {
                    suffix(fields[i].1)
                } else {
                    Seq::empty()
                },
        ),
        _ => Seq::empty(),
    }
}

/// The naming suffix of a value.
pub open spec fn suffix(v: ValueView) -> Seq<char>
    decreases v, 1nat,
{
    match v {
        ValueView::Null => "null"@,
        ValueView::Bool(b) => if b {
            "true"@
        } else {
            "false"@
        },
        ValueView::Number(n) => underscored(number_text(n)),
        ValueView::String(s) => slug(s),
        ValueView::Array(_) => joined(part_suffixes(v), seq!['_']),
        ValueView::Object(_) => joined(part_suffixes(v), seq!['_']),
    }
}

/// The name of a generated test: the template's name with `__` and the
/// suffix; with an empty suffix, the template's name with `_` and the
/// case's index, or unchanged where there is no index.
pub open spec fn test_name(template: Seq<char>, suffix: Seq<char>, index: Option<nat>) -> Seq<char> {
    if suffix.len() > 0 {
        template + seq!['_', '_'] + suffix
    } else {
        match index {
            Some(i) => template + seq!['_'] + decimal_text(i),
            None => template,
        }
    }
}

/// Equal values have the same suffix.
pub proof fn lemma_suffix_pure(a: CanonicalValue, b: CanonicalValue)
    requires
        a@ == b@,
    ensures
        suffix(a@) == suffix(b@),
{
}

/// With an empty suffix, a case without an index keeps the template's name
/// and a case with index `i` gets `_` and the decimal text of `i`.
pub proof fn lemma_empty_suffix_names(template: Seq<char>, i: nat)
    ensures
        test_name(template, Seq::empty(), None) == template,
        test_name(template, Seq::empty(), Some(i)) == template + seq!['_'] + decimal_text(i),
{
}

fn slug_of(s: &str) -> (r: String)
    ensures
        r@ == slug(s@),
{
    let mut r = String::new();
    for c in it: s.chars()
        invariant
            it.seq() == s@,
            r@ == slug(s@.take(it.index() as int)),
    {
        let mapped = if is_alphanumeric(c) {
            let lower = to_lowercase(c);
            if lower.len() > 0 {
                lower[0]
            } else {
                c
            }
        } else {
            '_'
        };
        push_char(&mut r, mapped);
        assert(r@ =~= slug(s@.take(it.index() + 1)));
    }
    assert(s@.take(s@.len() as int) =~= s@);
    r
}

fn underscored_of(t: &str) -> (r: String)
    ensures
        r@ == underscored(t@),
{
    let mut r = String::new();
    for c in it: t.chars()
        invariant
            it.seq() == t@,
            r@ == underscored(t@.take(it.index() as int)),
    {
        let mapped = if c == '.' || c == '-' {
            '_'
        } else {
            c
        };
        push_char(&mut r, mapped);
        assert(r@ =~= underscored(t@.take(it.index() + 1)));
    }
    assert(t@.take(t@.len() as int) =~= t@);
    r
}

/// The naming suffix of a canonical value.
pub fn value_to_suffix(value: &CanonicalValue) -> (r: String)
    ensures
        r@ == suffix(value@),
    decreases value,
{
    match value {
        CanonicalValue::Null => "null".to_owned(),
        CanonicalValue::Bool(b) => if *b {
            "true".to_owned()
        } else {
            "false".to_owned()
        },
        CanonicalValue::Number(n) => {
            let text = match n {
                Number::Int(i) => {
                    let mut t = String::new();
                    push_signed_decimal(&mut t, *i);
                    assert(t@ =~= signed_decimal_text(*i as int));
                    t
                },
                Number::UInt(u) => {
                    let mut t = String::new();
                    push_decimal(&mut t, *u);
                    assert(t@ =~= signed_decimal_text(*u as int));
                    t
                },
                Number::Float(t) => t.clone(),
            };
            underscored_of(text.as_str())
        },
        CanonicalValue::String(s) => slug_of(s.as_str()),
        CanonicalValue::Array(items) => {
            let ghost parts = part_suffixes(value@);
            let mut r = String::new();
            let mut i: usize = 0;
            while i < items.len()
                invariant
                    i <= items.len(),
                    value is Array,
                    *items == value->Array_0,
                    parts == part_suffixes(value@),
                    parts.len() == items.len(),
                    r@ == joined(parts.take(i as int), seq!['_']),
                decreases items.len() - i,
            {
                if i > 0 {
                    push_char(&mut r, '_');
                }
                let part = value_to_suffix(&items[i]);
                r.append(part.as_str());
                proof {
                    assert(parts[i as int] == suffix(items[i as int]@));
                    assert(parts.take(i + 1).drop_last() =~= parts.take(i as int));
                    assert(parts.take(i + 1).last() == parts[i as int]);
                    if i == 0 {
                        assert(r@ =~= parts[0]);
                    } else {
                        assert(r@ =~= joined(parts.take(i as int), seq!['_']) + seq!['_']
                            + parts[i as int]);
                    }
                }
                i = i + 1;
            }
            assert(parts.take(items.len() as int) =~= parts);
            r
        },
        CanonicalValue::Object(fields) => {
            let ghost parts = part_suffixes(value@);
            let mut r = String::new();
            let mut i: usize = 0;
            while i < fields.len()
                invariant
                    i <= fields.len(),
                    value is Object,
                    *fields == value->Object_0,
                    parts == part_suffixes(value@),
                    parts.len() == fields.len(),
                    r@ == joined(parts.take(i as int), seq!['_']),
                decreases fields.len() - i,
            {
                if i > 0 {
                    push_char(&mut r, '_');
                }
                let part = value_to_suffix(&fields[i].1);
                r.append(part.as_str());
                proof {
                    assert(parts[i as int] == suffix(fields[i as int].1@));
                    assert(parts.take(i + 1).drop_last() =~= parts.take(i as int));
                    assert(parts.take(i + 1).last() == parts[i as int]);
                    if i == 0 {
                        assert(r@ =~= parts[0]);
                    } else {
                        assert(r@ =~= joined(parts.take(i as int), seq!['_']) + seq!['_']
                            + parts[i as int]);
                    }
                }
                i = i + 1;
            }
            assert(parts.take(fields.len() as int) =~= parts);
            r
        },
    }
}

} // verus!
