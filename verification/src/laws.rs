//! Proved laws of the comparison engine.

use vstd::prelude::*;
use crate::model::{
    arr_len, array_diff, classify_model, dec_digits, empty_doc, key_array_values, lookup_entries,
    lookup_from, model_diff, model_eq, model_wf, obj_len, object_diff, InnerType, ValueModel,
};

verus! {

/// In an entry sequence with pairwise distinct keys, looking up the key of
/// entry `i`, starting at any position `j` at or before `i`, finds entry `i`.
proof fn lemma_lookup_in_unique(es: Seq<(Seq<char>, ValueModel)>, i: int, j: int)
    requires
        0 <= j <= i < es.len(),
        forall|p: int, q: int| 0 <= p < q < es.len() ==> (#[trigger] es[p]).0 != (#[trigger] es[q]).0,
    ensures
        lookup_from(es, es[i].0, j) == Option::Some(es[i].1),
    decreases i - j,
{
    if j < i {
        assert(es[j].0 != es[i].0);
        lemma_lookup_in_unique(es, i, j + 1);
    }
}

/// Law of reflexivity: comparing a well-formed value to itself reports no
/// difference. For a leaf the dispatcher yields no document at all; for a
/// container it yields a document with no content at any depth.
pub proof fn lemma_evaluate_reflexive(m: ValueModel)
    requires
        model_wf(m),
    ensures
        classify_model(m) == InnerType::InnerValue ==> model_diff(m, m) is None,
        model_diff(m, m) matches Option::Some(d) ==> empty_doc(d),
    decreases m, 2int, 0int,
{
    match m {
        ValueModel::Object(es) => {
            lemma_object_diff_reflexive(m, 0);
            assert(empty_doc(ValueModel::Object(object_diff(m, m, 0))));
        },
        ValueModel::Array(xs) => {
            lemma_array_diff_reflexive(m, 0);
            let inner = ValueModel::Object(array_diff(m, m, 0));
            assert(empty_doc(inner));
            let doc = ValueModel::Object(seq![(key_array_values(), inner)]);
            assert(doc->Object_0[0].1 == inner);
            assert(empty_doc(doc));
            assert(model_diff(m, m) == Option::Some(doc));
        },
        _ => {
            assert(model_eq(m, m));
        },
    }
}

/// Every entry that comparing a well-formed object to itself emits, from
/// position `i` on, holds a content-free document.
proof fn lemma_object_diff_reflexive(m: ValueModel, i: int)
    requires
        m is Object,
        model_wf(m),
    ensures
        forall|j: int|
            0 <= j < object_diff(m, m, i).len() ==> empty_doc(
                (#[trigger] object_diff(m, m, i)[j]).1,
            ),
    decreases m, 1int, obj_len(m) - i,
{
    let es = m->Object_0;
    if 0 <= i < es.len() {
        lemma_lookup_in_unique(es, i, 0);
        assert(lookup_entries(es, es[i].0) == Option::Some(es[i].1));
        let av = es[i].1;
        assert(model_wf(av));
        lemma_object_diff_reflexive(m, i + 1);
        if classify_model(av) == InnerType::InnerValue {
            assert(model_eq(av, av));
            assert(object_diff(m, m, i) == object_diff(m, m, i + 1));
        } else {
            lemma_evaluate_reflexive(av);
            let d = model_diff(av, av)->Some_0;
            assert(object_diff(m, m, i) == seq![(es[i].0, d)] + object_diff(m, m, i + 1));
        }
    }
}

/// Every entry that comparing a well-formed array to itself emits, from
/// position `i` on, holds a content-free document; in fact a leaf element
/// emits nothing, so only containers contribute entries.
proof fn lemma_array_diff_reflexive(m: ValueModel, i: int)
    requires
        m is Array,
        model_wf(m),
    ensures
        forall|j: int|
            0 <= j < array_diff(m, m, i).len() ==> empty_doc((#[trigger] array_diff(m, m, i)[j]).1),
    decreases m, 1int, arr_len(m) - i,
{
    let xs = m->Array_0;
    if 0 <= i < xs.len() {
        let av = xs[i];
        assert(model_wf(av));
        lemma_array_diff_reflexive(m, i + 1);
        if classify_model(av) == InnerType::InnerValue {
            assert(model_eq(av, av));
            assert(array_diff(m, m, i) == array_diff(m, m, i + 1));
        } else {
            lemma_evaluate_reflexive(av);
            let d = model_diff(av, av)->Some_0;
            assert(array_diff(m, m, i) == seq![(dec_digits(i as nat), d)]
                + array_diff(m, m, i + 1));
        }
    }
}

} // verus!
