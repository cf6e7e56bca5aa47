//! The executable tree value type and its leaf-level operations.

use vstd::prelude::*;
use crate::model::{classify_model, dec_digits, digit_char, lookup_entries, lookup_from, model_eq, types_agree, InnerType, ValueModel};

verus! {

/// A dynamically typed tree value: null, boolean, integer number, text,
/// ordered array, or object given as ordered key-value entries.
#[derive(Debug)]
pub enum Value {
    Null,
    Boolean(bool),
    Number(i64),
    Text(String),
    Array(Vec<Value>),
    Object(Vec<(String, Value)>),
}

impl Value {
    /// The mathematical model of this value: the same tree with sequences in
    /// place of vectors and strings. The out-of-range closure branches are
    /// never reached, since `Seq::new` applies its function to indices below
    /// the given length only; they keep the recursion well founded.
    pub open spec fn deep(self) -> ValueModel
        decreases self,
    {
        match self {
            Value::Null => ValueModel::Null,
            Value::Boolean(b) => ValueModel::Boolean(b),
            Value::Number(n) => ValueModel::Number(n as int),
            Value::Text(s) => ValueModel::Text(s@),
            Value::Array(xs) => ValueModel::Array(
                Seq::new(
                    xs@.len(),
                    |i: int|
                        if 0 <= i < xs@.len() {
                            xs@[i].deep()
                        } else {
                            ValueModel::Null
                        },
                ),
            ),
            Value::Object(es) => ValueModel::Object(
                Seq::new(
                    es@.len(),
                    |i: int|
                        if 0 <= i < es@.len() {
                            (es@[i].0@, es@[i].1.deep())
                        } else {
                            (Seq::empty(), ValueModel::Null)
                        },
                ),
            ),
        }
    }
}

/// Model of a sequence of key-value entries, as `deep` sees an object's
/// contents.
pub open spec fn entries_deep(es: Seq<(String, Value)>) -> Seq<(Seq<char>, ValueModel)> {
    Seq::new(es.len(), |i: int| (es[i].0@, es[i].1.deep()))
}

/// Model of a sequence of elements, as `deep` sees an array's contents.
pub open spec fn elems_deep(xs: Seq<Value>) -> Seq<ValueModel> {
    Seq::new(xs.len(), |i: int| xs[i].deep())
}

/// The object arm of `deep` agrees with `entries_deep`, and the array arm
/// with `elems_deep`, entry by entry.
pub broadcast proof fn lemma_deep_containers(v: Value)
    ensures
        v is Object ==> #[trigger] v.deep() == ValueModel::Object(entries_deep(v->Object_0@)),
        v is Array ==> v.deep() == ValueModel::Array(elems_deep(v->Array_0@)),
{
    if v is Object {
        assert(v.deep()->Object_0 =~= entries_deep(v->Object_0@));
    }
    if v is Array {
        assert(v.deep()->Array_0 =~= elems_deep(v->Array_0@));
    }
}

/// Classifies a value as object, array, or plain leaf value.
pub fn get_inner_object_type(value: &Value) -> (t: InnerType)
    ensures
        t == classify_model(value.deep()),
{
    match value {
        Value::Object(_) => InnerType::InnerObject,
        Value::Array(_) => InnerType::InnerArray,
        _ => InnerType::InnerValue,
    }
}

/// Reports whether the two values have the same fine-grained kind: both
/// null, both booleans, both numbers, both texts, both arrays, or both
/// objects.
pub fn compare_types(value: &Value, comparing_value: &Value) -> (r: bool)
    ensures
        r == types_agree(value.deep(), comparing_value.deep()),
{
    match (value, comparing_value) {
        (Value::Null, Value::Null) => true,
        (Value::Boolean(_), Value::Boolean(_)) => true,
        (Value::Number(_), Value::Number(_)) => true,
        (Value::Text(_), Value::Text(_)) => true,
        (Value::Array(_), Value::Array(_)) => true,
        (Value::Object(_), Value::Object(_)) => true,
        _ => false,
    }
}

/// Position of the first entry of `entries` whose key equals `k`; `None`
/// when no entry has that key.
#[verifier::loop_isolation(false)]
pub fn find_key(entries: &Vec<(String, Value)>, k: &String) -> (r: Option<usize>)
    ensures
        match r {
            Option::Some(idx) => idx < entries@.len() && entries@[idx as int].0@ == k@
                && lookup_entries(entries_deep(entries@), k@) == Option::Some(
                entries@[idx as int].1.deep(),
            ),
            Option::None => lookup_entries(entries_deep(entries@), k@) is None,
        },
{
    let ghost es = entries_deep(entries@);
    let mut i: usize = 0;
    while i < entries.len()
        invariant
            i <= entries@.len(),
            es == entries_deep(entries@),
            lookup_from(es, k@, 0) == lookup_from(es, k@, i as int),
        decreases entries@.len() - i,
    {
        if entries[i].0 == *k {
            return Option::Some(i);
        }
        proof {
            assert(es[i as int].0 == entries@[i as int].0@);
        }
        i += 1;
    }
    Option::None
}

/// Structural equality of two values: leaves compare by value, arrays
/// element by element in order, and objects as mappings, so the order of
/// object entries is irrelevant.
#[verifier::loop_isolation(false)]
pub fn value_eq(value: &Value, comparing_value: &Value) -> (r: bool)
    ensures
        r == model_eq(value.deep(), comparing_value.deep()),
    decreases value,
{
    proof {
        lemma_deep_containers(*value);
        lemma_deep_containers(*comparing_value);
    }
    match (value, comparing_value) {
        (Value::Null, Value::Null) => true,
        (Value::Boolean(x), Value::Boolean(y)) => *x == *y,
        (Value::Number(x), Value::Number(y)) => *x == *y,
        (Value::Text(x), Value::Text(y)) => *x == *y,
        (Value::Array(xs), Value::Array(ys)) => {
            if xs.len() != ys.len() {
                return false;
            }
            let ghost am = elems_deep(xs@);
            let ghost bm = elems_deep(ys@);
            let mut i: usize = 0;
            while i < xs.len()
                invariant
                    i <= xs@.len(),
                    xs@.len() == ys@.len(),
                    am == elems_deep(xs@),
                    bm == elems_deep(ys@),
                    forall|j: int| 0 <= j < i ==> model_eq(#[trigger] am[j], bm[j]),
                decreases xs@.len() - i,
            {
                if !value_eq(&xs[i], &ys[i]) {
                    proof {
                        assert(am[i as int] == xs@[i as int].deep());
                        assert(!model_eq(am[i as int], bm[i as int]));
                    }
                    return false;
                }
                i += 1;
            }
            true
        },
        (Value::Object(aes), Value::Object(bes)) => {
            if aes.len() != bes.len() {
                return false;
            }
            let ghost am = entries_deep(aes@);
            let ghost bm = entries_deep(bes@);
            let mut i: usize = 0;
            while i < aes.len()
                invariant
                    i <= aes@.len(),
                    aes@.len() == bes@.len(),
                    am == entries_deep(aes@),
                    bm == entries_deep(bes@),
                    forall|j: int|
                        0 <= j < i ==> match lookup_entries(bm, (#[trigger] am[j]).0) {
                            Option::Some(bv) => model_eq(am[j].1, bv),
                            Option::None => false,
                        },
                decreases aes@.len() - i,
            {
                proof {
                    assert(am[i as int] == (aes@[i as int].0@, aes@[i as int].1.deep()));
                }
                match find_key(bes, &aes[i].0) {
                    Option::None => {
                        return false;
                    },
                    Option::Some(idx) => {
                        if !value_eq(&aes[i].1, &bes[idx].1) {
                            return false;
                        }
                    },
                }
                i += 1;
            }
            true
        },
        _ => false,
    }
}

/// A fresh value with the same model as `v`.
#[verifier::loop_isolation(false)]
pub fn deep_clone(v: &Value) -> (r: Value)
    ensures
        r.deep() == v.deep(),
    decreases v,
{
    proof {
        lemma_deep_containers(*v);
    }
    match v {
        Value::Null => Value::Null,
        Value::Boolean(b) => Value::Boolean(*b),
        Value::Number(n) => Value::Number(*n),
        Value::Text(s) => Value::Text(s.clone()),
        Value::Array(xs) => {
            let mut out: Vec<Value> = Vec::new();
            let mut i: usize = 0;
            while i < xs.len()
                invariant
                    i <= xs@.len(),
                    out@.len() == i,
                    forall|j: int| 0 <= j < i ==> (#[trigger] out@[j]).deep() == xs@[j].deep(),
                decreases xs@.len() - i,
            {
                out.push(deep_clone(&xs[i]));
                i += 1;
            }
            let r = Value::Array(out);
            proof {
                lemma_deep_containers(r);
                assert(elems_deep(out@) =~= elems_deep(xs@));
            }
            r
        },
        Value::Object(es) => {
            let mut out: Vec<(String, Value)> = Vec::new();
            let mut i: usize = 0;
            while i < es.len()
                invariant
                    i <= es@.len(),
                    out@.len() == i,
                    forall|j: int|
                        0 <= j < i ==> (#[trigger] out@[j]).0@ == es@[j].0@ && out@[j].1.deep()
                            == es@[j].1.deep(),
                decreases es@.len() - i,
            {
                let key = es[i].0.clone();
                let child = deep_clone(&es[i].1);
                out.push((key, child));
                i += 1;
            }
            let r = Value::Object(out);
            proof {
                lemma_deep_containers(r);
                assert(entries_deep(out@) =~= entries_deep(es@));
            }
            r
        },
    }
}

/// A one-character string for a single decimal digit.
fn digit_str(d: usize) -> (r: &'static str)
    requires
        d < 10,
    ensures
        r@ == seq![digit_char(d as nat)],
{
    proof {
        reveal_strlit("0");
        reveal_strlit("1");
        reveal_strlit("2");
        reveal_strlit("3");
        reveal_strlit("4");
        reveal_strlit("5");
        reveal_strlit("6");
        reveal_strlit("7");
        reveal_strlit("8");
        reveal_strlit("9");
    }
    let r = if d == 0 {
        "0"
    } else if d == 1 {
        "1"
    } else if d == 2 {
        "2"
    } else if d == 3 {
        "3"
    } else if d == 4 {
        "4"
    } else if d == 5 {
        "5"
    } else if d == 6 {
        "6"
    } else if d == 7 {
        "7"
    } else if d == 8 {
        "8"
    } else {
        "9"
    };
    proof {
        assert(r@ =~= seq![digit_char(d as nat)]);
    }
    r
}

/// Appends the decimal digits of `n`, most significant first, to `out`.
fn push_digits(n: usize, out: &mut String)
    ensures
        final(out)@ == old(out)@ + dec_digits(n as nat),
    decreases n,
{
    if n >= 10 {
        push_digits(n / 10, out);
    }
    out.append(digit_str(n % 10));
    proof {
        if n >= 10 {
            assert(dec_digits(n as nat) == dec_digits(n as nat / 10).push(
                digit_char(n as nat % 10),
            ));
        }
        assert(final(out)@ =~= old(out)@ + dec_digits(n as nat));
    }
}

/// Decimal rendering of an array index, used as the key under which that
/// index's difference is recorded.
pub fn index_key(i: usize) -> (r: String)
    ensures
        r@ == dec_digits(i as nat),
{
    let mut out = String::new();
    push_digits(i, &mut out);
    proof {
        assert(out@ =~= dec_digits(i as nat));
    }
    out
}

} // verus!
