//! The materializer: a JSON node turned back into a value, total and
//! non-failing, every produced node stamped with the caller's position.

use vstd::prelude::*;

use crate::engine::{
    float_bits_of_int, sj_arr_get, sj_arr_len, sj_as_bool, sj_as_str, sj_kind, sj_model,
    sj_num_bits, sj_num_i64, sj_obj_entry, sj_obj_len, JsonKind,
};
use crate::json::JsonModel;
use crate::value::{Span, TypedValue, ValueModel};

verus! {

/// The value a JSON document materializes to: integer-valued numbers within
/// the 64-bit signed range become integers, every other number becomes a
/// float; composites recurse in order; every node carries `p`.
pub open spec fn mat(j: JsonModel, p: Span) -> ValueModel
    decreases j, 1int,
{
    match j {
        JsonModel::Null => ValueModel::Nothing(p),
        JsonModel::Bool(b) => ValueModel::Bool(b, p),
        JsonModel::Int(i) => if i64::MIN <= i <= i64::MAX {
            ValueModel::Int(i as i64, p)
        } else {
            ValueModel::Float(float_bits_of_int(i), p)
        },
        JsonModel::Float(bits) => ValueModel::Float(bits, p),
        JsonModel::Str(s) => ValueModel::Str(s, p),
        JsonModel::Arr(es) => ValueModel::List(mat_seq(es, 0, p), p),
        JsonModel::Obj(es) => ValueModel::Record(mat_entries(es, 0, p), p),
    }
}

/// Materialize the elements `es[i..]` in order.
pub open spec fn mat_seq(es: Seq<JsonModel>, i: int, p: Span) -> Seq<ValueModel>
    decreases es, es.len() - i, 0int,
{
    if i < 0 || i >= es.len() {
        Seq::empty()
    } else {
        seq![mat(es[i], p)] + mat_seq(es, i + 1, p)
    }
}

/// Materialize the entry values of `es[i..]` in order, keeping the keys and
/// their order.
pub open spec fn mat_entries(es: Seq<(Seq<char>, JsonModel)>, i: int, p: Span) -> Seq<
    (Seq<char>, ValueModel),
>
    decreases es, es.len() - i, 0int,
{
    if i < 0 || i >= es.len() {
        Seq::empty()
    } else {
        seq![(es[i].0, mat(es[i].1, p))] + mat_entries(es, i + 1, p)
    }
}

pub proof fn lemma_mat_seq_from(es: Seq<JsonModel>, i: int, p: Span)
    requires
        0 <= i <= es.len(),
    ensures
        mat_seq(es, i, p).len() == es.len() - i,
        forall|m: int| 0 <= m < es.len() - i ==> #[trigger] mat_seq(es, i, p)[m] == mat(es[i + m], p),
    decreases es.len() - i,
{
    if i < es.len() {
        lemma_mat_seq_from(es, i + 1, p);
        assert forall|m: int| 0 <= m < es.len() - i implies #[trigger] mat_seq(es, i, p)[m] == mat(
            es[i + m],
            p,
        ) by {
            if m > 0 {
                assert(mat_seq(es, i + 1, p)[m - 1] == mat(es[i + 1 + (m - 1)], p));
                assert(mat_seq(es, i, p)[m] == mat_seq(es, i + 1, p)[m - 1]);
            }
        }
    }
}

pub proof fn lemma_mat_entries_from(es: Seq<(Seq<char>, JsonModel)>, i: int, p: Span)
    requires
        0 <= i <= es.len(),
    ensures
        mat_entries(es, i, p).len() == es.len() - i,
        forall|m: int|
            0 <= m < es.len() - i ==> #[trigger] mat_entries(es, i, p)[m] == (
                es[i + m].0,
                mat(es[i + m].1, p),
            ),
    decreases es.len() - i,
{
    if i < es.len() {
        lemma_mat_entries_from(es, i + 1, p);
        assert forall|m: int| 0 <= m < es.len() - i implies #[trigger] mat_entries(es, i, p)[m]
            == (es[i + m].0, mat(es[i + m].1, p)) by {
            if m > 0 {
                assert(mat_entries(es, i + 1, p)[m - 1] == (
                    es[i + 1 + (m - 1)].0,
                    mat(es[i + 1 + (m - 1)].1, p),
                ));
                assert(mat_entries(es, i, p)[m] == mat_entries(es, i + 1, p)[m - 1]);
            }
        }
    }
}

/// Materialize an engine-side JSON node into a value stamped with `span`.
/// Total: every node kind yields a value, exactly as `mat` states.
pub fn convert_sjson_to_value(value: &serde_json::Value, span: Span) -> (r: TypedValue)
    ensures
        r@ == mat(sj_model(*value), span),
    decreases sj_model(*value), 1int,
{
    match sj_kind(value) {
        JsonKind::Null => TypedValue::Nothing(span),
        JsonKind::Bool => TypedValue::Bool(sj_as_bool(value), span),
        JsonKind::Num => match sj_num_i64(value) {
            Some(i) => TypedValue::Int(i, span),
            None => TypedValue::Float(sj_num_bits(value), span),
        },
        JsonKind::Str => TypedValue::Str(sj_as_str(value), span),
        JsonKind::Arr => {
            let ghost elems = sj_model(*value)->Arr_0;
            let n = sj_arr_len(value);
            let mut out: Vec<TypedValue> = Vec::new();
            let mut i: usize = 0;
            while i < n
                invariant
                    sj_model(*value) is Arr,
                    elems == sj_model(*value)->Arr_0,
                    n as int == elems.len(),
                    i <= n,
                    out@.len() == i as int,
                    forall|j: int|
                        0 <= j < i as int ==> (#[trigger] out@[j])@ == mat(elems[j], span),
                decreases n - i,
            {
                let child = sj_arr_get(value, i);
                proof {
                    assert(decreases_to!(sj_model(*value) => elems));
                    assert(decreases_to!(elems => elems[i as int]));
                }
                let cv = convert_sjson_to_value(child, span);
                out.push(cv);
                i = i + 1;
            }
            proof {
                crate::convert::lemma_typed_value_models(out);
                lemma_mat_seq_from(elems, 0, span);
                assert(crate::value::value_models(out, 0) =~= mat_seq(elems, 0, span));
            }
            TypedValue::List(out, span)
        },
        JsonKind::Obj => {
            let ghost entries = sj_model(*value)->Obj_0;
            let n = sj_obj_len(value);
            let mut out: Vec<(String, TypedValue)> = Vec::new();
            let mut i: usize = 0;
            while i < n
                invariant
                    sj_model(*value) is Obj,
                    entries == sj_model(*value)->Obj_0,
                    n as int == entries.len(),
                    i <= n,
                    out@.len() == i as int,
                    forall|j: int|
                        0 <= j < i as int ==> (#[trigger] out@[j]).0@ == entries[j].0 && out@[j].1@
                            == mat(entries[j].1, span),
                decreases n - i,
            {
                let entry = sj_obj_entry(value, i);
                proof {
                    assert(decreases_to!(sj_model(*value) => entries));
                    assert(decreases_to!(entries => entries[i as int]));
                    assert(decreases_to!(entries[i as int] => entries[i as int].1));
                }
                let cv = convert_sjson_to_value(entry.1, span);
                out.push((entry.0, cv));
                i = i + 1;
            }
            proof {
                crate::convert::lemma_typed_entry_models(out);
                lemma_mat_entries_from(entries, 0, span);
                assert(crate::value::entry_models(out, 0) =~= mat_entries(entries, 0, span));
            }
            TypedValue::Record(out, span)
        },
    }
}

} // verus!
