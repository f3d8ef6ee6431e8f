//! The values that programs exchange with the network library, their
//! mathematical form, and dictionaries kept in the order of their keys.

use vstd::prelude::*;
use crate::text::{chars_of, str_eq};

verus! {

/// A value that programs get from, and hand to, the network library: what
/// JSON text holds, and the dictionaries that describe HTTP responses.
#[derive(Debug, PartialEq)]
pub enum Value {
    Null,
    Boolean(bool),
    Int(i64),
    /// A number with a fraction or an exponent, as the text of its literal.
    Float(String),
    Str(String),
    /// A single character; written as a one-character string.
    Char(char),
    Array(Vec<Value>),
    /// Key/value pairs, in the order in which they are written.
    Object(Vec<(Value, Value)>),
}

/// The mathematical form of a `Value`.
pub enum ValueModel {
    Null,
    Boolean(bool),
    Int(int),
    Float(Seq<char>),
    Str(Seq<char>),
    Char(char),
    Array(Seq<ValueModel>),
    Object(Seq<(ValueModel, ValueModel)>),
}

/// The mathematical form of a value.
pub open spec fn model(v: Value) -> ValueModel
    decreases v,
{
    match v {
        Value::Null => ValueModel::Null,
        Value::Boolean(b) => ValueModel::Boolean(b),
        Value::Int(n) => ValueModel::Int(n as int),
        Value::Float(t) => ValueModel::Float(t@),
        Value::Str(t) => ValueModel::Str(t@),
        Value::Char(c) => ValueModel::Char(c),
        Value::Array(items) => ValueModel::Array(models(items@)),
        Value::Object(entries) => ValueModel::Object(entry_models(entries@)),
    }
}

/// The mathematical forms of a sequence of values.
pub open spec fn models(s: Seq<Value>) -> Seq<ValueModel>
    decreases s,
{
    if s.len() == 0 {
        Seq::empty()
    } else {
        models(s.drop_last()).push(model(s.last()))
    }
}

/// The mathematical forms of a sequence of key/value pairs.
pub open spec fn entry_models(s: Seq<(Value, Value)>) -> Seq<(ValueModel, ValueModel)>
    decreases s,
{
    if s.len() == 0 {
        Seq::empty()
    } else {
        entry_models(s.drop_last()).push((model(s.last().0), model(s.last().1)))
    }
}

pub proof fn lemma_models(s: Seq<Value>)
    ensures
        models(s).len() == s.len(),
        forall|k: int| 0 <= k < s.len() ==> #[trigger] models(s)[k] == model(s[k]),
    decreases s.len(),
{
    if s.len() > 0 {
        lemma_models(s.drop_last());
    }
}

pub proof fn lemma_entry_models(s: Seq<(Value, Value)>)
    ensures
        entry_models(s).len() == s.len(),
        forall|k: int|
            0 <= k < s.len() ==> #[trigger] entry_models(s)[k] == (model(s[k].0), model(s[k].1)),
    decreases s.len(),
{
    if s.len() > 0 {
        lemma_entry_models(s.drop_last());
    }
}

/// Whether the key `a` sorts before the key `b`: strings compare
/// character by character by code point, a prefix first.
pub open spec fn text_less(a: Seq<char>, b: Seq<char>) -> bool
    decreases a.len(),
{
    if a.len() == 0 {
        b.len() > 0
    } else if b.len() == 0 {
        false
    } else if a[0] != b[0] {
        (a[0] as u32) < (b[0] as u32)
    } else {
        text_less(a.drop_first(), b.drop_first())
    }
}

pub open spec fn key_less(a: ValueModel, b: ValueModel) -> bool {
    match (a, b) {
        (ValueModel::Str(x), ValueModel::Str(y)) => text_less(x, y),
        _ => false,
    }
}

/// The pairs, kept in the order of their keys, after setting `key` to `v`:
/// the value of an equal key is replaced, else the pair goes in before the
/// first greater key.
pub open spec fn object_insert(acc: Seq<(ValueModel, ValueModel)>, key: ValueModel, v: ValueModel) -> Seq<(ValueModel, ValueModel)>
    decreases acc.len(),
{
    if acc.len() == 0 {
        seq![(key, v)]
    } else if acc[0].0 == key {
        seq![(acc[0].0, v)] + acc.drop_first()
    } else if key_less(key, acc[0].0) {
        seq![(key, v)] + acc
    } else {
        seq![acc[0]] + object_insert(acc.drop_first(), key, v)
    }
}

fn key_before(a: &Vec<char>, b: &Vec<char>) -> (r: bool)
    ensures
        r == text_less(a@, b@),
{
    let mut i: usize = 0;
    proof {
        assert(a@.skip(0) =~= a@);
        assert(b@.skip(0) =~= b@);
    }
    loop
        invariant
            i <= a.len(),
            i <= b.len(),
            text_less(a@.skip(i as int), b@.skip(i as int)) == text_less(a@, b@),
        decreases a.len() - i,
    {
        if i == a.len() {
            return i < b.len();
        }
        if i == b.len() {
            return false;
        }
        if a[i] != b[i] {
            return (a[i] as u32) < (b[i] as u32);
        }
        proof {
            assert(a@.skip(i as int).drop_first() =~= a@.skip(i + 1));
            assert(b@.skip(i as int).drop_first() =~= b@.skip(i + 1));
        }
        i = i + 1;
    }
}

/// Whether every key of the pairs is a string.
pub open spec fn string_keys(s: Seq<(Value, Value)>) -> bool {
    forall|k: int| 0 <= k < s.len() ==> (#[trigger] s[k]).0 is Str
}

proof fn lemma_object_insert_step(m: Seq<(ValueModel, ValueModel)>, p: int, key: ValueModel, v: ValueModel)
    requires
        0 <= p < m.len(),
        m[p].0 != key,
        !key_less(key, m[p].0),
    ensures
        object_insert(m.skip(p), key, v) == seq![m[p]] + object_insert(m.skip(p + 1), key, v),
{
    assert(m.skip(p).drop_first() =~= m.skip(p + 1));
}

/// Sets `key` to `v` among the pairs, keeping them ordered by key.
pub fn insert_entry(entries: &mut Vec<(Value, Value)>, key: String, v: Value)
    requires
        string_keys(old(entries)@),
    ensures
        string_keys(final(entries)@),
        entry_models(final(entries)@) == object_insert(
            entry_models(old(entries)@),
            ValueModel::Str(key@),
            model(v),
        ),
{
    let ghost m = entry_models(entries@);
    let ghost kj = ValueModel::Str(key@);
    let ghost vj = model(v);
    proof {
        lemma_entry_models(entries@);
        assert(m.skip(0) =~= m);
    }
    let kc = chars_of(key.as_str());
    let mut p: usize = 0;
    while p < entries.len()
        invariant
            p <= entries.len(),
            entries@ == old(entries)@,
            string_keys(entries@),
            m == entry_models(entries@),
            m.len() == entries@.len(),
            forall|q: int|
                0 <= q < entries@.len() ==> #[trigger] m[q] == (
                model(entries@[q].0),
                model(entries@[q].1),
            ),
            kc@ == key@,
            kj == ValueModel::Str(key@),
            vj == model(v),
            object_insert(m, kj, vj) == m.take(p as int) + object_insert(m.skip(p as int), kj, vj),
        decreases entries.len() - p,
    {
        let (equal, less) = match &entries[p].0 {
            Value::Str(t) => {
                let tc = chars_of(t.as_str());
                (str_eq(t.as_str(), key.as_str()), key_before(&kc, &tc))
            },
            _ => (false, false),
        };
        proof {
            assert(entries@[p as int].0 is Str);
            assert(m[p as int].0 == model(entries@[p as int].0));
        }
        if equal {
            let ghost old_m = m;
            entries.set(p, (Value::Str(key), v));
            proof {
                lemma_entry_models(entries@);
                assert(m.skip(p as int).drop_first() =~= m.skip(p + 1));
                assert(object_insert(m.skip(p as int), kj, vj) == seq![(m[p as int].0, vj)] + m.skip(p + 1));
                assert(entry_models(entries@) =~= object_insert(m, kj, vj));
            }
            return;
        }
        if less {
            entries.insert(p, (Value::Str(key), v));
            proof {
                lemma_entry_models(entries@);
                assert(object_insert(m.skip(p as int), kj, vj) == seq![(kj, vj)] + m.skip(p as int));
                assert(entry_models(entries@) =~= object_insert(m, kj, vj));
            }
            return;
        }
        proof {
            lemma_object_insert_step(m, p as int, kj, vj);
            assert(m.take(p as int) + seq![m[p as int]] =~= m.take(p + 1));
        }
        p = p + 1;
    }
    entries.push((Value::Str(key), v));
    proof {
        lemma_entry_models(entries@);
        assert(m.skip(p as int) =~= Seq::<(ValueModel, ValueModel)>::empty());
        assert(m.take(p as int) =~= m);
        assert(entry_models(entries@) =~= object_insert(m, kj, vj));
    }
}

/// The value of the first pair whose key is the string `key`.
pub open spec fn lookup(entries: Seq<(ValueModel, ValueModel)>, key: Seq<char>) -> Option<ValueModel>
    decreases entries.len(),
{
    if entries.len() == 0 {
        None
    } else if entries[0].0 == ValueModel::Str(key) {
        Some(entries[0].1)
    } else {
        lookup(entries.drop_first(), key)
    }
}

impl Value {
    /// For an object, the value of the pair whose key is the string `key`;
    /// `None` for a missing key or a value that is no object.
    pub fn get(&self, key: &str) -> (r: Option<&Value>)
        ensures
            match model(*self) {
                ValueModel::Object(es) => match lookup(es, key@) {
                    Some(m) => r matches Some(x) && model(*x) == m,
                    None => r is None,
                },
                _ => r is None,
            },
    {
        match self {
            Value::Object(entries) => {
                let ghost es = entry_models(entries@);
                proof {
                    lemma_entry_models(entries@);
                    assert(es.skip(0) =~= es);
                }
                let mut i: usize = 0;
                while i < entries.len()
                    invariant
                        i <= entries.len(),
                        *self == Value::Object(*entries),
                        es == entry_models(entries@),
                        es.len() == entries@.len(),
                        forall|q: int|
                            0 <= q < entries@.len() ==> #[trigger] es[q] == (
                            model(entries@[q].0),
                            model(entries@[q].1),
                        ),
                        lookup(es, key@) == lookup(es.skip(i as int), key@),
                    decreases entries.len() - i,
                {
                    proof {
                        assert(es.skip(i as int).drop_first() =~= es.skip(i + 1));
                        assert(es.skip(i as int)[0] == es[i as int]);
                    }
                    if let Value::Str(t) = &entries[i].0 {
                        if str_eq(t.as_str(), key) {
                            return Some(&entries[i].1);
                        }
                    }
                    i = i + 1;
                }
                proof {
                    assert(es.skip(i as int).len() == 0);
                }
                None
            },
            _ => None,
        }
    }
}

/// A copy of a value, part for part.
pub fn copy_value(v: &Value) -> (r: Value)
    ensures
        model(r) == model(*v),
    decreases v,
{
    match v {
        Value::Null => Value::Null,
        Value::Boolean(b) => Value::Boolean(*b),
        Value::Int(n) => Value::Int(*n),
        Value::Float(t) => Value::Float(t.clone()),
        Value::Str(t) => Value::Str(t.clone()),
        Value::Char(c) => Value::Char(*c),
        Value::Array(items) => {
            let mut out: Vec<Value> = Vec::new();
            let mut i: usize = 0;
            while i < items.len()
                invariant
                    i <= items.len(),
                    *v == Value::Array(*items),
                    out.len() == i,
                    forall|q: int| 0 <= q < i ==> model(#[trigger] out@[q]) == model(items@[q]),
                decreases items.len() - i,
            {
                proof {
                    assert(decreases_to!(*v => (*v)->Array_0));
                    assert(decreases_to!(*items => items@));
                    assert(decreases_to!(items@ => items@[i as int]));
                }
                let c = copy_value(&items[i]);
                out.push(c);
                i = i + 1;
            }
            proof {
                lemma_models(out@);
                lemma_models(items@);
                assert(models(out@) =~= models(items@));
            }
            Value::Array(out)
        },
        Value::Object(entries) => {
            let mut out: Vec<(Value, Value)> = Vec::new();
            let mut i: usize = 0;
            while i < entries.len()
                invariant
                    i <= entries.len(),
                    *v == Value::Object(*entries),
                    out.len() == i,
                    forall|q: int|
                        0 <= q < i ==> model((#[trigger] out@[q]).0) == model(entries@[q].0)
                            && model(out@[q].1) == model(entries@[q].1),
                decreases entries.len() - i,
            {
                proof {
                    assert(decreases_to!(*v => (*v)->Object_0));
                    assert(decreases_to!(*entries => entries@));
                    assert(decreases_to!(entries@ => entries@[i as int]));
                    assert(decreases_to!(entries@[i as int] => entries@[i as int].0));
                    assert(decreases_to!(entries@[i as int] => entries@[i as int].1));
                }
                let k = copy_value(&entries[i].0);
                let x = copy_value(&entries[i].1);
                out.push((k, x));
                i = i + 1;
            }
            proof {
                lemma_entry_models(out@);
                lemma_entry_models(entries@);
                assert(entry_models(out@) =~= entry_models(entries@));
            }
            Value::Object(out)
        },
    }
}

/// The text of argument `index` when it is a string.
pub open spec fn arg_text(args: Seq<Value>, index: int) -> Option<Seq<char>> {
    if 0 <= index < args.len() {
        match args[index] {
            Value::Str(t) => Some(t@),
            _ => None,
        }
    } else {
        None
    }
}


/// Reading a dictionary after a write: the key just set gives the value set,
/// and every other key gives what it gave before.
pub proof fn lemma_object_insert_lookup(
    m: Seq<(ValueModel, ValueModel)>,
    k: Seq<char>,
    v: ValueModel,
    other: Seq<char>,
)
    ensures
        lookup(object_insert(m, ValueModel::Str(k), v), k) == Some(v),
        other != k ==> lookup(object_insert(m, ValueModel::Str(k), v), other) == lookup(m, other),
    decreases m.len(),
{
    let key = ValueModel::Str(k);
    let r = object_insert(m, key, v);
    if other != k {
        assert(ValueModel::Str(other) != key);
    }
    if m.len() == 0 {
        assert(r == seq![(key, v)]);
        assert(r.drop_first() =~= Seq::<(ValueModel, ValueModel)>::empty());
        assert(lookup(r.drop_first(), other) == None::<ValueModel>);
    } else if m[0].0 == key {
        assert(r[0] == (m[0].0, v));
        assert(r.drop_first() =~= m.drop_first());
    } else if key_less(key, m[0].0) {
        assert(r[0] == (key, v));
        assert(r.drop_first() =~= m);
    } else {
        lemma_object_insert_lookup(m.drop_first(), k, v, other);
        assert(r[0] == m[0]);
        assert(r.drop_first() =~= object_insert(m.drop_first(), key, v));
    }
}

} // verus!
