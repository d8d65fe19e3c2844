//! The conversions' laws: the round trip between the value model and
//! canonical JSON, exact float handling, and order preservation in both
//! directions.

use vstd::prelude::*;

use crate::convert::{
    canon, canon_entries, canon_seq, lemma_canon_entries_elements, lemma_canon_seq_elements,
};
use crate::json::{spec_finite, ConvErrorModel, JsonModel};
use crate::materialize::{
    lemma_mat_entries_from, lemma_mat_seq_from, mat, mat_entries, mat_seq,
};
use crate::value::{Span, ValueModel};

verus! {

/// A value whose conversion to JSON is lossless and inverted by the
/// materializer: null, booleans, integers, finite floats, text, and lists and
/// records of such values. Binary and cell-path values convert, but come back
/// as lists of integers and strings; dates, durations and file sizes come
/// back as text and integers; they are all excluded here, as are the variants
/// that fail or lose their payload.
pub open spec fn jsonable(v: ValueModel) -> bool
    decreases v, 1int,
{
    match v {
        ValueModel::Nothing(_) => true,
        ValueModel::Bool(_, _) => true,
        ValueModel::Int(_, _) => true,
        ValueModel::Float(bits, _) => spec_finite(bits),
        ValueModel::Str(_, _) => true,
        ValueModel::List(vs, _) => jsonable_seq(vs, 0),
        ValueModel::Record(es, _) => jsonable_entries(es, 0),
        _ => false,
    }
}

/// `jsonable` over the elements `vs[i..]`.
pub open spec fn jsonable_seq(vs: Seq<ValueModel>, i: int) -> bool
    decreases vs, vs.len() - i, 0int,
{
    if i < 0 || i >= vs.len() {
        true
    } else {
        jsonable(vs[i]) && jsonable_seq(vs, i + 1)
    }
}

/// `jsonable` over the entry values of `es[i..]`.
pub open spec fn jsonable_entries(es: Seq<(Seq<char>, ValueModel)>, i: int) -> bool
    decreases es, es.len() - i, 0int,
{
    if i < 0 || i >= es.len() {
        true
    } else {
        jsonable(es[i].1) && jsonable_entries(es, i + 1)
    }
}

proof fn lemma_jsonable_seq_index(vs: Seq<ValueModel>, i: int, k: int)
    requires
        0 <= i <= k < vs.len(),
        jsonable_seq(vs, i),
    ensures
        jsonable(vs[k]),
    decreases k - i,
{
    if i < k {
        lemma_jsonable_seq_index(vs, i + 1, k);
    }
}

proof fn lemma_jsonable_entries_index(es: Seq<(Seq<char>, ValueModel)>, i: int, k: int)
    requires
        0 <= i <= k < es.len(),
        jsonable_entries(es, i),
    ensures
        jsonable(es[k].1),
    decreases k - i,
{
    if i < k {
        lemma_jsonable_entries_index(es, i + 1, k);
    }
}

/// The value with every position replaced by `p`, recursively.
pub open spec fn restamp(v: ValueModel, p: Span) -> ValueModel
    decreases v, 1int,
{
    match v {
        ValueModel::Nothing(_) => ValueModel::Nothing(p),
        ValueModel::Bool(b, _) => ValueModel::Bool(b, p),
        ValueModel::Int(i, _) => ValueModel::Int(i, p),
        ValueModel::Float(bits, _) => ValueModel::Float(bits, p),
        ValueModel::Str(s, _) => ValueModel::Str(s, p),
        ValueModel::Binary(bs, _) => ValueModel::Binary(bs, p),
        ValueModel::Duration(i, _) => ValueModel::Duration(i, p),
        ValueModel::Filesize(i, _) => ValueModel::Filesize(i, p),
        ValueModel::Date(s, _) => ValueModel::Date(s, p),
        ValueModel::List(vs, _) => ValueModel::List(restamp_seq(vs, 0, p), p),
        ValueModel::Record(es, _) => ValueModel::Record(restamp_entries(es, 0, p), p),
        ValueModel::CellPath(ms, _) => ValueModel::CellPath(ms, p),
        ValueModel::Error(m, _) => ValueModel::Error(m, p),
        ValueModel::Closure(_) => ValueModel::Closure(p),
        ValueModel::Block(_) => ValueModel::Block(p),
        ValueModel::Range(_) => ValueModel::Range(p),
    }
}

/// `restamp` over the elements `vs[i..]`.
pub open spec fn restamp_seq(vs: Seq<ValueModel>, i: int, p: Span) -> Seq<ValueModel>
    decreases vs, vs.len() - i, 0int,
{
    if i < 0 || i >= vs.len() {
        Seq::empty()
    } else {
        seq![restamp(vs[i], p)] + restamp_seq(vs, i + 1, p)
    }
}

/// `restamp` over the entry values of `es[i..]`, keys kept.
pub open spec fn restamp_entries(es: Seq<(Seq<char>, ValueModel)>, i: int, p: Span) -> Seq<
    (Seq<char>, ValueModel),
>
    decreases es, es.len() - i, 0int,
{
    if i < 0 || i >= es.len() {
        Seq::empty()
    } else {
        seq![(es[i].0, restamp(es[i].1, p))] + restamp_entries(es, i + 1, p)
    }
}

proof fn lemma_restamp_seq_from(vs: Seq<ValueModel>, i: int, p: Span)
    requires
        0 <= i <= vs.len(),
    ensures
        restamp_seq(vs, i, p).len() == vs.len() - i,
        forall|m: int|
            0 <= m < vs.len() - i ==> #[trigger] restamp_seq(vs, i, p)[m] == restamp(vs[i + m], p),
    decreases vs.len() - i,
{
    if i < vs.len() {
        lemma_restamp_seq_from(vs, i + 1, p);
        assert forall|m: int| 0 <= m < vs.len() - i implies #[trigger] restamp_seq(vs, i, p)[m]
            == restamp(vs[i + m], p) by {
            if m > 0 {
                assert(restamp_seq(vs, i + 1, p)[m - 1] == restamp(vs[i + 1 + (m - 1)], p));
                assert(restamp_seq(vs, i, p)[m] == restamp_seq(vs, i + 1, p)[m - 1]);
            }
        }
    }
}

proof fn lemma_restamp_entries_from(es: Seq<(Seq<char>, ValueModel)>, i: int, p: Span)
    requires
        0 <= i <= es.len(),
    ensures
        restamp_entries(es, i, p).len() == es.len() - i,
        forall|m: int|
            0 <= m < es.len() - i ==> #[trigger] restamp_entries(es, i, p)[m] == (
                es[i + m].0,
                restamp(es[i + m].1, p),
            ),
    decreases es.len() - i,
{
    if i < es.len() {
        lemma_restamp_entries_from(es, i + 1, p);
        assert forall|m: int| 0 <= m < es.len() - i implies #[trigger] restamp_entries(
            es,
            i,
            p,
        )[m] == (es[i + m].0, restamp(es[i + m].1, p)) by {
            if m > 0 {
                assert(restamp_entries(es, i + 1, p)[m - 1] == (
                    es[i + 1 + (m - 1)].0,
                    restamp(es[i + 1 + (m - 1)].1, p),
                ));
                assert(restamp_entries(es, i, p)[m] == restamp_entries(es, i + 1, p)[m - 1]);
            }
        }
    }
}

proof fn lemma_canon_seq_all_ok(s: Seq<ValueModel>, i: int)
    requires
        0 <= i <= s.len(),
        forall|k: int| i <= k < s.len() ==> canon(#[trigger] s[k]) is Ok,
    ensures
        canon_seq(s, i) is Ok,
    decreases s.len() - i,
{
    if i < s.len() {
        lemma_canon_seq_all_ok(s, i + 1);
    }
}

proof fn lemma_canon_entries_all_ok(es: Seq<(Seq<char>, ValueModel)>, i: int)
    requires
        0 <= i <= es.len(),
        forall|k: int| i <= k < es.len() ==> canon((#[trigger] es[k]).1) is Ok,
    ensures
        canon_entries(es, i) is Ok,
    decreases es.len() - i,
{
    if i < es.len() {
        lemma_canon_entries_all_ok(es, i + 1);
    }
}

/// Round trip: converting a lossless value to canonical JSON succeeds, and
/// materializing the document at position `p` gives the same value back,
/// re-stamped with `p`.
pub proof fn lemma_round_trip(v: ValueModel, p: Span)
    requires
        jsonable(v),
    ensures
        canon(v) is Ok,
        mat(canon(v)->Ok_0, p) == restamp(v, p),
    decreases v,
{
    match v {
        ValueModel::List(vs, _) => {
            assert forall|k: int| 0 <= k < vs.len() implies canon(#[trigger] vs[k]) is Ok by {
                lemma_jsonable_seq_index(vs, 0, k);
                assert(decreases_to!(v => vs));
                assert(decreases_to!(vs => vs[k]));
                lemma_round_trip(vs[k], p);
            }
            lemma_canon_seq_all_ok(vs, 0);
            lemma_canon_seq_elements(vs, 0);
            let t = canon_seq(vs, 0)->Ok_0;
            lemma_mat_seq_from(t, 0, p);
            lemma_restamp_seq_from(vs, 0, p);
            assert forall|m: int| 0 <= m < t.len() implies mat_seq(t, 0, p)[m] == restamp_seq(
                vs,
                0,
                p,
            )[m] by {
                assert(canon(vs[0 + m]) == Ok::<JsonModel, ConvErrorModel>(t[m]));
                lemma_jsonable_seq_index(vs, 0, m);
                assert(decreases_to!(v => vs));
                assert(decreases_to!(vs => vs[m]));
                lemma_round_trip(vs[m], p);
                assert(mat_seq(t, 0, p)[m] == mat(t[0 + m], p));
                assert(restamp_seq(vs, 0, p)[m] == restamp(vs[0 + m], p));
            }
            assert(mat_seq(t, 0, p) =~= restamp_seq(vs, 0, p));
        },
        ValueModel::Record(es, _) => {
            assert forall|k: int| 0 <= k < es.len() implies canon(
                (#[trigger] es[k]).1,
            ) is Ok by {
                lemma_jsonable_entries_index(es, 0, k);
                assert(decreases_to!(v => es));
                assert(decreases_to!(es => es[k]));
                assert(decreases_to!(es[k] => es[k].1));
                lemma_round_trip(es[k].1, p);
            }
            lemma_canon_entries_all_ok(es, 0);
            lemma_canon_entries_elements(es, 0);
            let t = canon_entries(es, 0)->Ok_0;
            lemma_mat_entries_from(t, 0, p);
            lemma_restamp_entries_from(es, 0, p);
            assert forall|m: int| 0 <= m < t.len() implies mat_entries(t, 0, p)[m]
                == restamp_entries(es, 0, p)[m] by {
                assert((#[trigger] t[m]).0 == es[0 + m].0 && canon(es[0 + m].1) == Ok::<
                    JsonModel,
                    ConvErrorModel,
                >(t[m].1));
                lemma_jsonable_entries_index(es, 0, m);
                assert(decreases_to!(v => es));
                assert(decreases_to!(es => es[m]));
                assert(decreases_to!(es[m] => es[m].1));
                lemma_round_trip(es[m].1, p);
                assert(mat_entries(t, 0, p)[m] == (t[0 + m].0, mat(t[0 + m].1, p)));
                assert(restamp_entries(es, 0, p)[m] == (es[0 + m].0, restamp(es[0 + m].1, p)));
            }
            assert(mat_entries(t, 0, p) =~= restamp_entries(es, 0, p));
        },
        _ => {},
    }
}

/// Every finite float converts, and comes back from the document with exactly
/// the same bit pattern.
pub proof fn lemma_float_round_trip(bits: u64, sp: Span, p: Span)
    requires
        spec_finite(bits),
    ensures
        canon(ValueModel::Float(bits, sp)) == Ok::<JsonModel, ConvErrorModel>(
            JsonModel::Float(bits),
        ),
        mat(JsonModel::Float(bits), p) == ValueModel::Float(bits, p),
{
}

/// A non-finite float never converts: the conversion fails with the
/// non-finite-number error carrying the value's bits and position.
pub proof fn lemma_non_finite_rejected(bits: u64, sp: Span)
    requires
        !spec_finite(bits),
    ensures
        canon(ValueModel::Float(bits, sp)) == Err::<JsonModel, ConvErrorModel>(
            ConvErrorModel::NonFiniteNumber(bits, sp),
        ),
{
}

/// Conversion preserves order: a list that converts becomes an array with one
/// element per list element, in the list's order; a record that converts
/// becomes an object with the record's keys in the record's order, each value
/// the entry value's own conversion.
pub proof fn lemma_convert_preserves_order(v: ValueModel)
    requires
        canon(v) is Ok,
    ensures
        v matches ValueModel::List(vs, _) ==> {
            &&& canon(v)->Ok_0 is Arr
            &&& canon(v)->Ok_0->Arr_0.len() == vs.len()
            &&& forall|m: int|
                0 <= m < vs.len() ==> canon(#[trigger] vs[m]) == Ok::<JsonModel, ConvErrorModel>(
                    canon(v)->Ok_0->Arr_0[m],
                )
        },
        v matches ValueModel::Record(es, _) ==> {
            &&& canon(v)->Ok_0 is Obj
            &&& canon(v)->Ok_0->Obj_0.len() == es.len()
            &&& forall|m: int|
                0 <= m < es.len() ==> (#[trigger] canon(v)->Ok_0->Obj_0[m]).0 == es[m].0 && canon(
                    es[m].1,
                ) == Ok::<JsonModel, ConvErrorModel>(canon(v)->Ok_0->Obj_0[m].1)
        },
{
    match v {
        ValueModel::List(vs, _) => {
            lemma_canon_seq_elements(vs, 0);
            let t = canon_seq(vs, 0)->Ok_0;
            assert forall|m: int| 0 <= m < vs.len() implies canon(#[trigger] vs[m]) == Ok::<
                JsonModel,
                ConvErrorModel,
            >(t[m]) by {
                assert(canon(vs[0 + m]) == Ok::<JsonModel, ConvErrorModel>(t[m]));
            }
        },
        ValueModel::Record(es, _) => {
            lemma_canon_entries_elements(es, 0);
            let t = canon_entries(es, 0)->Ok_0;
            assert forall|m: int| 0 <= m < es.len() implies (#[trigger] t[m]).0 == es[m].0
                && canon(es[m].1) == Ok::<JsonModel, ConvErrorModel>(t[m].1) by {
                assert((t[m]).0 == es[0 + m].0 && canon(es[0 + m].1) == Ok::<
                    JsonModel,
                    ConvErrorModel,
                >(t[m].1));
            }
        },
        _ => {},
    }
}

/// Materialization preserves order: an array becomes a list with one value
/// per element, in the array's order; an object becomes a record with the
/// object's keys in the object's order, each value the entry value's own
/// materialization.
pub proof fn lemma_materialize_preserves_order(j: JsonModel, p: Span)
    ensures
        j matches JsonModel::Arr(es) ==> {
            &&& mat(j, p) matches ValueModel::List(vs, sp) && sp == p && vs.len() == es.len()
            &&& forall|m: int|
                0 <= m < es.len() ==> #[trigger] mat(j, p)->List_0[m] == mat(es[m], p)
        },
        j matches JsonModel::Obj(es) ==> {
            &&& mat(j, p) matches ValueModel::Record(rs, sp) && sp == p && rs.len() == es.len()
            &&& forall|m: int|
                0 <= m < es.len() ==> (#[trigger] mat(j, p)->Record_0[m]).0 == es[m].0 && mat(
                    j,
                    p,
                )->Record_0[m].1 == mat(es[m].1, p)
        },
{
    match j {
        JsonModel::Arr(es) => {
            lemma_mat_seq_from(es, 0, p);
            assert forall|m: int| 0 <= m < es.len() implies #[trigger] mat(j, p)->List_0[m] == mat(
                es[m],
                p,
            ) by {
                assert(mat_seq(es, 0, p)[m] == mat(es[0 + m], p));
            }
        },
        JsonModel::Obj(es) => {
            lemma_mat_entries_from(es, 0, p);
            assert forall|m: int| 0 <= m < es.len() implies (#[trigger] mat(j, p)->Record_0[m]).0
                == es[m].0 && mat(j, p)->Record_0[m].1 == mat(es[m].1, p) by {
                assert(mat_entries(es, 0, p)[m] == (es[0 + m].0, mat(es[0 + m].1, p)));
            }
        },
        _ => {},
    }
}

} // verus!
