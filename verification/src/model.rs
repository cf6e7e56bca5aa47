//! Mathematical model of tree values and of the comparison they undergo.
//!
//! Everything in this module is specification-level: `ValueModel` mirrors the
//! executable `Value` type with `Seq`-based contents, and the `*_diff`
//! functions define, entry by entry, what the executable comparers must
//! produce.

use vstd::prelude::*;

verus! {

/// Coarse classification of a tree value: the two container kinds are told
/// apart, and every leaf kind collapses to `InnerValue`.
#[derive(Clone, Copy, Debug, PartialEq, Eq, Structural)]
pub enum InnerType {
    InnerObject,
    InnerArray,
    InnerValue,
}

/// Specification-level picture of a dynamically typed tree value: leaves are
/// null, booleans, integers and character sequences; containers are ordered
/// element sequences and ordered key-value entry sequences.
pub enum ValueModel {
    Null,
    Boolean(bool),
    Number(int),
    Text(Seq<char>),
    Array(Seq<ValueModel>),
    Object(Seq<(Seq<char>, ValueModel)>),
}

/// Classification of a model value into object, array, or leaf.
pub open spec fn classify_model(m: ValueModel) -> InnerType {
    match m {
        ValueModel::Object(_) => InnerType::InnerObject,
        ValueModel::Array(_) => InnerType::InnerArray,
        _ => InnerType::InnerValue,
    }
}

/// Whether two model values have the same fine-grained kind: both null, both
/// booleans, both numbers, both texts, both arrays, or both objects.
pub open spec fn types_agree(a: ValueModel, b: ValueModel) -> bool {
    match (a, b) {
        (ValueModel::Null, ValueModel::Null) => true,
        (ValueModel::Boolean(_), ValueModel::Boolean(_)) => true,
        (ValueModel::Number(_), ValueModel::Number(_)) => true,
        (ValueModel::Text(_), ValueModel::Text(_)) => true,
        (ValueModel::Array(_), ValueModel::Array(_)) => true,
        (ValueModel::Object(_), ValueModel::Object(_)) => true,
        _ => false,
    }
}

/// First entry of `es`, at position `i` or later, whose key is `k`; `None`
/// when no entry from position `i` on has that key.
pub open spec fn lookup_from(
    es: Seq<(Seq<char>, ValueModel)>,
    k: Seq<char>,
    i: int,
) -> Option<ValueModel>
    decreases es.len() - i,
{
    if i < 0 || i >= es.len() {
        Option::None
    } else if es[i].0 == k {
        Option::Some(es[i].1)
    } else {
        lookup_from(es, k, i + 1)
    }
}

/// Value under key `k` in the entry sequence `es`: the first matching entry
/// wins.
pub open spec fn lookup_entries(es: Seq<(Seq<char>, ValueModel)>, k: Seq<char>) -> Option<
    ValueModel,
> {
    lookup_from(es, k, 0)
}

/// Structural equality of two model values. Leaves compare by value, arrays
/// element by element in order, and objects as mappings: same number of
/// entries, and every key of `a` present in `b` with an equal value, so the
/// order in which object entries were inserted is irrelevant.
pub open spec fn model_eq(a: ValueModel, b: ValueModel) -> bool
    decreases a,
{
    match (a, b) {
        (ValueModel::Null, ValueModel::Null) => true,
        (ValueModel::Boolean(x), ValueModel::Boolean(y)) => x == y,
        (ValueModel::Number(x), ValueModel::Number(y)) => x == y,
        (ValueModel::Text(x), ValueModel::Text(y)) => x == y,
        (ValueModel::Array(xs), ValueModel::Array(ys)) => {
            &&& xs.len() == ys.len()
            &&& forall|i: int| 0 <= i < xs.len() ==> model_eq(#[trigger] xs[i], ys[i])
        },
        (ValueModel::Object(xs), ValueModel::Object(ys)) => {
            &&& xs.len() == ys.len()
            &&& forall|i: int|
                0 <= i < xs.len() ==> match lookup_entries(ys, (#[trigger] xs[i]).0) {
                    Option::Some(bv) => model_eq(xs[i].1, bv),
                    Option::None => false,
                }
        },
        _ => false,
    }
}

/// Key under which a difference node records the original side.
pub open spec fn key_original_value() -> Seq<char> {
    "original_value"@
}

/// Key under which a scalar-inequality node records the comparison side.
pub open spec fn key_comparing_value() -> Seq<char> {
    "comparing_value"@
}

/// Key under which a type-mismatch node records the comparison side.
pub open spec fn key_comparing_value_with_different_type() -> Seq<char> {
    "comparing_value_with_different_type"@
}

/// Key naming, in a removed-key node, the key that the comparison object
/// lacks.
pub open spec fn key_item_key_removed() -> Seq<char> {
    "item_key_removed"@
}

/// Key under which a removed-key node records the parent original object.
pub open spec fn key_original_value_key_does_not_exist() -> Seq<char> {
    "original_value_key_does_not_exist"@
}

/// Key under which an array comparison wraps its index-keyed entries.
pub open spec fn key_array_values() -> Seq<char> {
    "array_values"@
}

/// Scalar-inequality node: both sides attached under their keys.
pub open spec fn inequality_node(a: ValueModel, b: ValueModel) -> ValueModel {
    ValueModel::Object(seq![(key_original_value(), a), (key_comparing_value(), b)])
}

/// Type-mismatch node: the two values whose classifications differ.
pub open spec fn mismatch_node(a: ValueModel, b: ValueModel) -> ValueModel {
    ValueModel::Object(
        seq![(key_original_value(), a), (key_comparing_value_with_different_type(), b)],
    )
}

/// Removed-key node: the missing key's name, and the parent original object
/// in which the key was found.
pub open spec fn removed_node(k: Seq<char>, orig: ValueModel) -> ValueModel {
    ValueModel::Object(
        seq![
            (key_item_key_removed(), ValueModel::Text(k)),
            (key_original_value_key_does_not_exist(), orig),
        ],
    )
}

/// Decimal digit characters of `n`, most significant first.
pub open spec fn dec_digits(n: nat) -> Seq<char>
    decreases n,
{
    if n < 10 {
        seq![digit_char(n)]
    } else {
        dec_digits(n / 10).push(digit_char(n % 10))
    }
}

/// Character for a single decimal digit.
pub open spec fn digit_char(d: nat) -> char {
    if d == 0 {
        '0'
    } else if d == 1 {
        '1'
    } else if d == 2 {
        '2'
    } else if d == 3 {
        '3'
    } else if d == 4 {
        '4'
    } else if d == 5 {
        '5'
    } else if d == 6 {
        '6'
    } else if d == 7 {
        '7'
    } else if d == 8 {
        '8'
    } else {
        '9'
    }
}

/// Comparison of two leaves, or of any pair the caller chose not to recurse
/// into: no node when the values are structurally equal, otherwise a
/// scalar-inequality node holding both sides.
pub open spec fn scalar_diff(a: ValueModel, b: ValueModel) -> Option<ValueModel> {
    if model_eq(a, b) {
        Option::None
    } else {
        Option::Some(inequality_node(a, b))
    }
}

/// Difference between two model values, routed by the classification of `a`
/// alone: objects and arrays always yield a document, leaves yield one only
/// when unequal.
pub open spec fn model_diff(a: ValueModel, b: ValueModel) -> Option<ValueModel>
    decreases a, 2int, 0int,
{
    match a {
        ValueModel::Object(_) => Option::Some(ValueModel::Object(object_diff(a, b, 0))),
        ValueModel::Array(_) => Option::Some(
            ValueModel::Object(
                seq![(key_array_values(), ValueModel::Object(array_diff(a, b, 0)))],
            ),
        ),
        _ => scalar_diff(a, b),
    }
}

/// Entries of the difference document for two objects, covering the keys of
/// `a` from position `i` on. Only `a`'s keys are visited: a key missing from
/// `b` yields a removed-key node, a key whose two values classify differently
/// yields a type-mismatch node, two leaves yield a scalar-inequality node
/// when unequal, and two same-kind containers recurse. Empty when either side
/// is not an object.
pub open spec fn object_diff(a: ValueModel, b: ValueModel, i: int) -> Seq<
    (Seq<char>, ValueModel),
>
    decreases a, 1int, obj_len(a) - i,
{
    if !(a is Object) || !(b is Object) || i < 0 || i >= a->Object_0.len() {
        Seq::empty()
    } else {
        let k = a->Object_0[i].0;
        let av = a->Object_0[i].1;
        let rest = object_diff(a, b, i + 1);
        match lookup_entries(b->Object_0, k) {
            Option::None => seq![(k, removed_node(k, a))] + rest,
            Option::Some(bv) => {
                if classify_model(av) != classify_model(bv) {
                    seq![(k, mismatch_node(av, bv))] + rest
                } else if classify_model(av) == InnerType::InnerValue {
                    match scalar_diff(av, bv) {
                        Option::Some(d) => seq![(k, d)] + rest,
                        Option::None => rest,
                    }
                } else {
                    match model_diff(av, bv) {
                        Option::Some(d) => seq![(k, d)] + rest,
                        Option::None => rest,
                    }
                }
            },
        }
    }
}

/// Index-keyed entries of the difference document for two arrays, covering
/// the indices of `a` from `i` on. Indices at or beyond the end of `b`, or
/// every index when `b` is not an array, are skipped without a report; a pair
/// that classifies differently, or a pair of leaves, yields the scalar
/// comparison's node when unequal, and two same-kind containers recurse. The
/// entry key is the decimal rendering of the index.
pub open spec fn array_diff(a: ValueModel, b: ValueModel, i: int) -> Seq<(Seq<char>, ValueModel)>
    decreases a, 1int, arr_len(a) - i,
{
    if !(a is Array) || i < 0 || i >= a->Array_0.len() {
        Seq::empty()
    } else if !(b is Array) || i >= b->Array_0.len() {
        Seq::empty()
    } else {
        let av = a->Array_0[i];
        let bv = b->Array_0[i];
        let rest = array_diff(a, b, i + 1);
        if classify_model(av) != classify_model(bv) {
            match scalar_diff(av, bv) {
                Option::Some(d) => seq![(dec_digits(i as nat), d)] + rest,
                Option::None => rest,
            }
        } else if classify_model(av) == InnerType::InnerValue {
            match scalar_diff(av, bv) {
                Option::Some(d) => seq![(dec_digits(i as nat), d)] + rest,
                Option::None => rest,
            }
        } else {
            match model_diff(av, bv) {
                Option::Some(d) => seq![(dec_digits(i as nat), d)] + rest,
                Option::None => rest,
            }
        }
    }
}

/// Number of entries of an object model; zero for anything else. Serves as a
/// termination measure component.
pub open spec fn obj_len(m: ValueModel) -> int {
    match m {
        ValueModel::Object(es) => es.len() as int,
        _ => 0,
    }
}

/// Number of elements of an array model; zero for anything else. Serves as a
/// termination measure component.
pub open spec fn arr_len(m: ValueModel) -> int {
    match m {
        ValueModel::Array(xs) => xs.len() as int,
        _ => 0,
    }
}

/// A difference document with no content: an object all of whose entries, at
/// every depth, hold further content-free objects. Comparing a container to
/// an equal container yields such a document rather than no document at all.
pub open spec fn empty_doc(d: ValueModel) -> bool
    decreases d,
{
    match d {
        ValueModel::Object(es) => forall|i: int|
            0 <= i < es.len() ==> empty_doc((#[trigger] es[i]).1),
        _ => false,
    }
}

/// Validity of a model value: object keys are unique at every level. This is
/// what makes an object entry sequence a mapping.
pub open spec fn model_wf(m: ValueModel) -> bool
    decreases m,
{
    match m {
        ValueModel::Array(xs) => forall|i: int|
            0 <= i < xs.len() ==> model_wf(#[trigger] xs[i]),
        ValueModel::Object(es) => {
            &&& forall|i: int, j: int|
                0 <= i < j < es.len() ==> (#[trigger] es[i]).0 != (#[trigger] es[j]).0
            &&& forall|i: int| 0 <= i < es.len() ==> model_wf((#[trigger] es[i]).1)
        },
        _ => true,
    }
}

} // verus!
