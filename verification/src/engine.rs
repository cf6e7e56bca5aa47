//! The comparison engine: scalar, object and array comparers, and the
//! dispatching entry point `evaluate`.

use vstd::prelude::*;
use crate::model::{
    array_diff, dec_digits, inequality_node, key_array_values, key_comparing_value,
    key_comparing_value_with_different_type, key_item_key_removed, key_original_value,
    key_original_value_key_does_not_exist, lookup_entries, mismatch_node, model_diff, object_diff,
    removed_node, scalar_diff, InnerType, ValueModel,
};
use crate::value::{
    deep_clone, entries_deep, find_key, get_inner_object_type, index_key, lemma_deep_containers,
    value_eq, Value,
};

verus! {

/// Model of an optional difference document.
pub open spec fn opt_deep(r: Option<Value>) -> Option<ValueModel> {
    match r {
        Option::None => Option::None,
        Option::Some(v) => Option::Some(v.deep()),
    }
}

/// Builds a scalar-inequality node from clones of the two sides.
fn new_inequality_node(a: &Value, b: &Value) -> (r: Value)
    ensures
        r.deep() == inequality_node(a.deep(), b.deep()),
{
    let mut entries: Vec<(String, Value)> = Vec::new();
    entries.push((String::from_str("original_value"), deep_clone(a)));
    entries.push((String::from_str("comparing_value"), deep_clone(b)));
    let r = Value::Object(entries);
    proof {
        lemma_deep_containers(r);
        assert(entries_deep(entries@) =~= seq![
            (key_original_value(), a.deep()),
            (key_comparing_value(), b.deep()),
        ]);
    }
    r
}

/// Builds a type-mismatch node from clones of the two sides.
fn new_mismatch_node(a: &Value, b: &Value) -> (r: Value)
    ensures
        r.deep() == mismatch_node(a.deep(), b.deep()),
{
    let mut entries: Vec<(String, Value)> = Vec::new();
    entries.push((String::from_str("original_value"), deep_clone(a)));
    entries.push((String::from_str("comparing_value_with_different_type"), deep_clone(b)));
    let r = Value::Object(entries);
    proof {
        lemma_deep_containers(r);
        assert(entries_deep(entries@) =~= seq![
            (key_original_value(), a.deep()),
            (key_comparing_value_with_different_type(), b.deep()),
        ]);
    }
    r
}

/// Builds a removed-key node from the missing key and a clone of the parent
/// original object.
fn new_removed_node(k: &String, orig: &Value) -> (r: Value)
    ensures
        r.deep() == removed_node(k@, orig.deep()),
{
    let mut entries: Vec<(String, Value)> = Vec::new();
    entries.push((String::from_str("item_key_removed"), Value::Text(k.clone())));
    entries.push((String::from_str("original_value_key_does_not_exist"), deep_clone(orig)));
    let r = Value::Object(entries);
    proof {
        lemma_deep_containers(r);
        assert(entries_deep(entries@) =~= seq![
            (key_item_key_removed(), ValueModel::Text(k@)),
            (key_original_value_key_does_not_exist(), orig.deep()),
        ]);
    }
    r
}

/// Error for an input document that the comparison's caller rejects before
/// comparing.
#[derive(Clone, Copy, Debug, PartialEq, Eq, Structural)]
pub enum ParseError {
    /// The document is null at the top level.
    NullDocument,
}

/// Accepts a parsed document for comparison: a top-level null document is
/// rejected as invalid input, anything else is accepted.
pub fn validate_document(v: &Value) -> (r: Result<(), ParseError>)
    ensures
        r is Ok <==> !(v.deep() is Null),
        r is Err ==> r->Err_0 == ParseError::NullDocument,
{
    match v {
        Value::Null => Result::Err(ParseError::NullDocument),
        _ => Result::Ok(()),
    }
}

/// Compares two leaves, or any pair whose classifications the caller chose
/// not to recurse into: `None` when the values are structurally equal,
/// otherwise a scalar-inequality node holding both sides.
pub fn compare_values(value: &Value, comparing_value: &Value) -> (r: Option<Value>)
    ensures
        opt_deep(r) == scalar_diff(value.deep(), comparing_value.deep()),
{
    if value_eq(value, comparing_value) {
        Option::None
    } else {
        Option::Some(new_inequality_node(value, comparing_value))
    }
}

/// Compares two objects key by key, visiting the keys of `value` only: a key
/// missing from `comparing_value` yields a removed-key entry, a key whose two
/// values classify differently yields a type-mismatch entry, two leaves yield
/// a scalar-inequality entry when unequal, and two same-kind containers
/// recurse through `evaluate`. Keys with no difference are absent from the
/// result; when either side is not an object the result is empty.
#[verifier::loop_isolation(false)]
pub fn compare_objects(value: &Value, comparing_value: &Value) -> (r: Vec<(String, Value)>)
    ensures
        entries_deep(r@) == object_diff(value.deep(), comparing_value.deep(), 0),
    decreases value, 1int,
{
    let ghost am = value.deep();
    let ghost bm = comparing_value.deep();
    proof {
        lemma_deep_containers(*value);
        lemma_deep_containers(*comparing_value);
    }
    let aes = match value {
        Value::Object(aes) => aes,
        _ => {
            let r: Vec<(String, Value)> = Vec::new();
            proof {
                assert(entries_deep(r@) =~= object_diff(am, bm, 0));
            }
            return r;
        },
    };
    let bes = match comparing_value {
        Value::Object(bes) => bes,
        _ => {
            let r: Vec<(String, Value)> = Vec::new();
            proof {
                assert(entries_deep(r@) =~= object_diff(am, bm, 0));
            }
            return r;
        },
    };
    let mut out: Vec<(String, Value)> = Vec::new();
    let mut i: usize = 0;
    while i < aes.len()
        invariant
            i <= aes@.len(),
            entries_deep(out@) + object_diff(am, bm, i as int) == object_diff(am, bm, 0),
        decreases aes@.len() - i,
    {
        let ghost out0 = out@;
        let ghost i0 = i as int;
        proof {
            assert(am->Object_0[i0] == (aes@[i0].0@, aes@[i0].1.deep()));
        }
        let k = &aes[i].0;
        let av = &aes[i].1;
        match find_key(bes, k) {
            Option::None => {
                out.push((k.clone(), new_removed_node(k, value)));
                proof {
                    assert(object_diff(am, bm, i0) == seq![(k@, removed_node(k@, am))]
                        + object_diff(am, bm, i0 + 1));
                }
            },
            Option::Some(idx) => {
                let bv = &bes[idx].1;
                let ta = get_inner_object_type(av);
                let tb = get_inner_object_type(bv);
                proof {
                    assert(lookup_entries(bm->Object_0, k@) == Option::Some(bv.deep()));
                }
                if ta != tb {
                    out.push((k.clone(), new_mismatch_node(av, bv)));
                    proof {
                        assert(object_diff(am, bm, i0) == seq![
                            (k@, mismatch_node(av.deep(), bv.deep())),
                        ] + object_diff(am, bm, i0 + 1));
                    }
                } else if ta == InnerType::InnerValue {
                    match compare_values(av, bv) {
                        Option::Some(d) => {
                            out.push((k.clone(), d));
                            proof {
                                assert(object_diff(am, bm, i0) == seq![(k@, d.deep())]
                                    + object_diff(am, bm, i0 + 1));
                            }
                        },
                        Option::None => {
                            proof {
                                assert(object_diff(am, bm, i0) == object_diff(am, bm, i0 + 1));
                            }
                        },
                    }
                } else {
                    match evaluate(av, bv) {
                        Option::Some(d) => {
                            out.push((k.clone(), d));
                            proof {
                                assert(object_diff(am, bm, i0) == seq![(k@, d.deep())]
                                    + object_diff(am, bm, i0 + 1));
                            }
                        },
                        Option::None => {
                            proof {
                                assert(object_diff(am, bm, i0) == object_diff(am, bm, i0 + 1));
                            }
                        },
                    }
                }
            },
        }
        proof {
            if out@.len() > out0.len() {
                let e = out@[out@.len() - 1];
                assert(entries_deep(out@) =~= entries_deep(out0) + seq![(e.0@, e.1.deep())]);
                assert((entries_deep(out0) + seq![(e.0@, e.1.deep())]) + object_diff(
                    am,
                    bm,
                    i0 + 1,
                ) =~= entries_deep(out0) + (seq![(e.0@, e.1.deep())] + object_diff(
                    am,
                    bm,
                    i0 + 1,
                )));
            }
        }
        i += 1;
    }
    proof {
        assert(object_diff(am, bm, aes@.len() as int) =~= Seq::<(Seq<char>, ValueModel)>::empty());
        assert(entries_deep(out@) + object_diff(am, bm, aes@.len() as int) =~= entries_deep(out@));
    }
    out
}

/// Compares two arrays index by index over the indices of `value`, wrapping
/// the index-keyed entries, possibly none, under the `array_values` key.
/// Indices at or beyond the end of `comparing_value`, or every index when
/// `comparing_value` is not an array, are skipped without a report; a pair
/// that classifies differently, or a pair of leaves, yields the scalar
/// comparison's node when unequal, and two same-kind containers recurse
/// through `evaluate`.
#[verifier::loop_isolation(false)]
pub fn compare_arrays(value: &Value, comparing_value: &Value) -> (r: Vec<(String, Value)>)
    ensures
        entries_deep(r@) == seq![
            (
                key_array_values(),
                ValueModel::Object(array_diff(value.deep(), comparing_value.deep(), 0)),
            ),
        ],
    decreases value, 1int,
{
    let ghost am = value.deep();
    let ghost bm = comparing_value.deep();
    proof {
        lemma_deep_containers(*value);
        lemma_deep_containers(*comparing_value);
    }
    let mut out: Vec<(String, Value)> = Vec::new();
    if let Value::Array(xs) = value {
        if let Value::Array(ys) = comparing_value {
            let mut i: usize = 0;
            while i < xs.len()
                invariant
                    i <= xs@.len(),
                    entries_deep(out@) + array_diff(am, bm, i as int) == array_diff(am, bm, 0),
                decreases xs@.len() - i,
            {
                let ghost out0 = out@;
                let ghost i0 = i as int;
                proof {
                    assert(am->Array_0[i0] == xs@[i0].deep());
                    assert(bm->Array_0.len() == ys@.len());
                }
                if i < ys.len() {
                    let av = &xs[i];
                    let bv = &ys[i];
                    proof {
                        assert(bm->Array_0[i0] == ys@[i0].deep());
                    }
                    let ta = get_inner_object_type(av);
                    let tb = get_inner_object_type(bv);
                    let d = if ta != tb {
                        compare_values(av, bv)
                    } else if ta == InnerType::InnerValue {
                        compare_values(av, bv)
                    } else {
                        evaluate(av, bv)
                    };
                    match d {
                        Option::Some(d) => {
                            out.push((index_key(i), d));
                            proof {
                                assert(array_diff(am, bm, i0) == seq![
                                    (dec_digits(i0 as nat), d.deep()),
                                ] + array_diff(am, bm, i0 + 1));
                                let e = out@[out@.len() - 1];
                                assert(entries_deep(out@) =~= entries_deep(out0) + seq![
                                    (e.0@, e.1.deep()),
                                ]);
                                assert((entries_deep(out0) + seq![(e.0@, e.1.deep())])
                                    + array_diff(am, bm, i0 + 1) =~= entries_deep(out0) + (seq![
                                    (e.0@, e.1.deep()),
                                ] + array_diff(am, bm, i0 + 1)));
                            }
                        },
                        Option::None => {
                            proof {
                                assert(array_diff(am, bm, i0) == array_diff(am, bm, i0 + 1));
                            }
                        },
                    }
                } else {
                    proof {
                        assert(array_diff(am, bm, i0) =~= Seq::<
                            (Seq<char>, ValueModel),
                        >::empty());
                        assert(array_diff(am, bm, i0 + 1) =~= Seq::<
                            (Seq<char>, ValueModel),
                        >::empty());
                    }
                }
                i += 1;
            }
            proof {
                assert(array_diff(am, bm, xs@.len() as int) =~= Seq::<
                    (Seq<char>, ValueModel),
                >::empty());
                assert(entries_deep(out@) + array_diff(am, bm, xs@.len() as int) =~= entries_deep(
                    out@,
                ));
            }
        } else {
            proof {
                assert(array_diff(am, bm, 0) =~= Seq::<(Seq<char>, ValueModel)>::empty());
                assert(entries_deep(out@) =~= array_diff(am, bm, 0));
            }
        }
    } else {
        proof {
            assert(array_diff(am, bm, 0) =~= Seq::<(Seq<char>, ValueModel)>::empty());
            assert(entries_deep(out@) =~= array_diff(am, bm, 0));
        }
    }
    let inner = Value::Object(out);
    let mut wrapper: Vec<(String, Value)> = Vec::new();
    wrapper.push((String::from_str("array_values"), inner));
    proof {
        lemma_deep_containers(inner);
        assert(entries_deep(wrapper@) =~= seq![
            (key_array_values(), ValueModel::Object(array_diff(am, bm, 0))),
        ]);
    }
    wrapper
}

/// Compares two values, routed by the classification of `value` alone:
/// objects and arrays always yield a document, even one with no content, and
/// leaves yield a document exactly when the two values are unequal.
pub fn evaluate(object: &Value, comparing_object: &Value) -> (r: Option<Value>)
    ensures
        opt_deep(r) == model_diff(object.deep(), comparing_object.deep()),
    decreases object, 2int,
{
    match get_inner_object_type(object) {
        InnerType::InnerObject => {
            let m = compare_objects(object, comparing_object);
            let r = Value::Object(m);
            proof {
                lemma_deep_containers(r);
            }
            Option::Some(r)
        },
        InnerType::InnerArray => {
            let m = compare_arrays(object, comparing_object);
            let r = Value::Object(m);
            proof {
                lemma_deep_containers(r);
            }
            Option::Some(r)
        },
        InnerType::InnerValue => compare_values(object, comparing_object),
    }
}

} // verus!
