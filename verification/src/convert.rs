//! The canonicalizer: every value-model variant mapped to canonical JSON,
//! recursing into composites, failing fast on embedded diagnostics and on
//! non-finite floats.

use vstd::prelude::*;

use crate::json::{
    is_finite_bits, json_entry_models, json_model, json_models, spec_finite, ConvError,
    ConvErrorModel, JsonDoc, JsonModel,
};
use crate::value::{entry_models, value_models, MemberModel, PathMember, TypedValue, ValueModel};

verus! {

/// The JSON document a path member denotes: a string for a named member, an
/// integer for a positional one.
pub open spec fn member_json(m: MemberModel) -> JsonModel {
    match m {
        MemberModel::Name(s) => JsonModel::Str(s),
        MemberModel::Index(i) => JsonModel::Int(i as int),
    }
}

/// The canonical JSON document a value converts to, or the error that aborts
/// the conversion. Defined for every variant: lossless for scalars, text and
/// composites; a byte array for binary; an array of member keys for a cell
/// path; null, by design, for the variants with no JSON form; an error for
/// embedded diagnostics and non-finite floats.
pub open spec fn canon(v: ValueModel) -> Result<JsonModel, ConvErrorModel>
    decreases v, 1int,
{
    match v {
        ValueModel::Nothing(_) => Ok(JsonModel::Null),
        ValueModel::Bool(b, _) => Ok(JsonModel::Bool(b)),
        ValueModel::Int(i, _) => Ok(JsonModel::Int(i as int)),
        ValueModel::Float(bits, sp) => if spec_finite(bits) {
            Ok(JsonModel::Float(bits))
        } else {
            Err(ConvErrorModel::NonFiniteNumber(bits, sp))
        },
        ValueModel::Str(s, _) => Ok(JsonModel::Str(s)),
        ValueModel::Binary(bs, _) => Ok(
            JsonModel::Arr(Seq::new(bs.len(), |i: int| JsonModel::Int(bs[i] as int))),
        ),
        ValueModel::Duration(i, _) => Ok(JsonModel::Int(i as int)),
        ValueModel::Filesize(i, _) => Ok(JsonModel::Int(i as int)),
        ValueModel::Date(s, _) => Ok(JsonModel::Str(s)),
        ValueModel::List(vs, _) => match canon_seq(vs, 0) {
            Ok(es) => Ok(JsonModel::Arr(es)),
            Err(e) => Err(e),
        },
        ValueModel::Record(es, _) => match canon_entries(es, 0) {
            Ok(os) => Ok(JsonModel::Obj(os)),
            Err(e) => Err(e),
        },
        ValueModel::CellPath(ms, _) => Ok(
            JsonModel::Arr(Seq::new(ms.len(), |i: int| member_json(ms[i]))),
        ),
        ValueModel::Error(msg, sp) => Err(ConvErrorModel::EmbeddedError(msg, sp)),
        ValueModel::Closure(_) => Ok(JsonModel::Null),
        ValueModel::Block(_) => Ok(JsonModel::Null),
        ValueModel::Range(_) => Ok(JsonModel::Null),
    }
}

/// Convert the elements `s[i..]` in order; the first failure aborts the whole
/// conversion.
pub open spec fn canon_seq(s: Seq<ValueModel>, i: int) -> Result<Seq<JsonModel>, ConvErrorModel>
    decreases s, s.len() - i, 0int,
{
    if i < 0 || i >= s.len() {
        Ok(Seq::empty())
    } else {
        match canon(s[i]) {
            Err(e) => Err(e),
            Ok(j) => match canon_seq(s, i + 1) {
                Err(e) => Err(e),
                Ok(rest) => Ok(seq![j] + rest),
            },
        }
    }
}

/// Convert the entry values of `es[i..]` in order, keeping the keys and their
/// order; the first failure aborts the whole conversion.
pub open spec fn canon_entries(es: Seq<(Seq<char>, ValueModel)>, i: int) -> Result<
    Seq<(Seq<char>, JsonModel)>,
    ConvErrorModel,
>
    decreases es, es.len() - i, 0int,
{
    if i < 0 || i >= es.len() {
        Ok(Seq::empty())
    } else {
        match canon(es[i].1) {
            Err(e) => Err(e),
            Ok(j) => match canon_entries(es, i + 1) {
                Err(e) => Err(e),
                Ok(rest) => Ok(seq![(es[i].0, j)] + rest),
            },
        }
    }
}

/// The model of an executable conversion result.
pub open spec fn conv_res_model(r: Result<JsonDoc, ConvError>) -> Result<
    JsonModel,
    ConvErrorModel,
> {
    match r {
        Ok(j) => Ok(j@),
        Err(e) => Err(e@),
    }
}

/// When every element of `s[i..]` converts to the matching element of `t`,
/// the sequence conversion succeeds with exactly `t`.
proof fn lemma_canon_seq_ok(s: Seq<ValueModel>, t: Seq<JsonModel>, i: int)
    requires
        0 <= i <= s.len(),
        t.len() == s.len() - i,
        forall|k: int| i <= k < s.len() ==> canon(#[trigger] s[k]) == Ok::<
            JsonModel,
            ConvErrorModel,
        >(t[k - i]),
    ensures
        canon_seq(s, i) == Ok::<Seq<JsonModel>, ConvErrorModel>(t),
    decreases s.len() - i,
{
    if i == s.len() {
        assert(t =~= Seq::empty());
    } else {
        assert(canon(s[i]) == Ok::<JsonModel, ConvErrorModel>(t[i - i]));
        assert forall|k: int| i + 1 <= k < s.len() implies canon(#[trigger] s[k]) == Ok::<
            JsonModel,
            ConvErrorModel,
        >(t.drop_first()[k - (i + 1)]) by {
            assert(t.drop_first()[k - i - 1] == t[k - i]);
        }
        lemma_canon_seq_ok(s, t.drop_first(), i + 1);
        assert(seq![t[0]] + t.drop_first() =~= t);
    }
}

/// When the elements of `s` between `lo` and `i` convert and `s[i]` fails
/// with `e`, converting from `lo` fails with `e`.
proof fn lemma_canon_seq_err(s: Seq<ValueModel>, lo: int, i: int, e: ConvErrorModel)
    requires
        0 <= lo <= i < s.len(),
        forall|k: int| lo <= k < i ==> canon(#[trigger] s[k]) is Ok,
        canon(s[i]) == Err::<JsonModel, ConvErrorModel>(e),
    ensures
        canon_seq(s, lo) == Err::<Seq<JsonModel>, ConvErrorModel>(e),
    decreases i - lo,
{
    if lo < i {
        lemma_canon_seq_err(s, lo + 1, i, e);
    }
}

/// When every entry value of `es[i..]` converts to the matching entry of `t`
/// under the same key, the entry conversion succeeds with exactly `t`.
proof fn lemma_canon_entries_ok(
    es: Seq<(Seq<char>, ValueModel)>,
    t: Seq<(Seq<char>, JsonModel)>,
    i: int,
)
    requires
        0 <= i <= es.len(),
        t.len() == es.len() - i,
        forall|k: int|
            i <= k < es.len() ==> (#[trigger] es[k]).0 == t[k - i].0 && canon(es[k].1) == Ok::<
                JsonModel,
                ConvErrorModel,
            >(t[k - i].1),
    ensures
        canon_entries(es, i) == Ok::<Seq<(Seq<char>, JsonModel)>, ConvErrorModel>(t),
    decreases es.len() - i,
{
    if i == es.len() {
        assert(t =~= Seq::empty());
    } else {
        assert(es[i].0 == t[i - i].0 && canon(es[i].1) == Ok::<JsonModel, ConvErrorModel>(
            t[i - i].1,
        ));
        assert forall|k: int| i + 1 <= k < es.len() implies (#[trigger] es[k]).0
            == t.drop_first()[k - (i + 1)].0 && canon(es[k].1) == Ok::<
            JsonModel,
            ConvErrorModel,
        >(t.drop_first()[k - (i + 1)].1) by {
            assert(t.drop_first()[k - i - 1] == t[k - i]);
        }
        lemma_canon_entries_ok(es, t.drop_first(), i + 1);
        assert((es[i].0, t[0].1) == t[0]);
        assert(seq![t[0]] + t.drop_first() =~= t);
    }
}

/// When the entry values of `es` between `lo` and `i` convert and `es[i]`'s
/// fails with `e`, converting from `lo` fails with `e`.
proof fn lemma_canon_entries_err(
    es: Seq<(Seq<char>, ValueModel)>,
    lo: int,
    i: int,
    e: ConvErrorModel,
)
    requires
        0 <= lo <= i < es.len(),
        forall|k: int| lo <= k < i ==> canon((#[trigger] es[k]).1) is Ok,
        canon(es[i].1) == Err::<JsonModel, ConvErrorModel>(e),
    ensures
        canon_entries(es, lo) == Err::<Seq<(Seq<char>, JsonModel)>, ConvErrorModel>(e),
    decreases i - lo,
{
    if lo < i {
        lemma_canon_entries_err(es, lo + 1, i, e);
    }
}

/// When the sequence conversion from `i` succeeds, its result has one element
/// per source element, each the source element's own conversion.
pub proof fn lemma_canon_seq_elements(s: Seq<ValueModel>, i: int)
    requires
        0 <= i <= s.len(),
    ensures
        canon_seq(s, i) matches Ok(t) ==> t.len() == s.len() - i && forall|m: int|
            0 <= m < t.len() ==> canon(#[trigger] s[i + m]) == Ok::<JsonModel, ConvErrorModel>(
                t[m],
            ),
    decreases s.len() - i,
{
    if i < s.len() {
        lemma_canon_seq_elements(s, i + 1);
        if canon_seq(s, i) is Ok {
            let t = canon_seq(s, i)->Ok_0;
            let rest = canon_seq(s, i + 1)->Ok_0;
            assert forall|m: int| 0 <= m < t.len() implies canon(#[trigger] s[i + m]) == Ok::<
                JsonModel,
                ConvErrorModel,
            >(t[m]) by {
                if m > 0 {
                    assert(canon(s[i + 1 + (m - 1)]) == Ok::<JsonModel, ConvErrorModel>(
                        rest[m - 1],
                    ));
                }
            }
        }
    }
}

/// When the entry conversion from `i` succeeds, its result has one entry per
/// source entry, under the same key, each value the source value's own
/// conversion.
pub proof fn lemma_canon_entries_elements(es: Seq<(Seq<char>, ValueModel)>, i: int)
    requires
        0 <= i <= es.len(),
    ensures
        canon_entries(es, i) matches Ok(t) ==> t.len() == es.len() - i && forall|m: int|
            0 <= m < t.len() ==> (#[trigger] t[m]).0 == es[i + m].0 && canon(es[i + m].1) == Ok::<
                JsonModel,
                ConvErrorModel,
            >(t[m].1),
    decreases es.len() - i,
{
    if i < es.len() {
        lemma_canon_entries_elements(es, i + 1);
        if canon_entries(es, i) is Ok {
            let t = canon_entries(es, i)->Ok_0;
            let rest = canon_entries(es, i + 1)->Ok_0;
            assert forall|m: int| 0 <= m < t.len() implies (#[trigger] t[m]).0 == es[i + m].0
                && canon(es[i + m].1) == Ok::<JsonModel, ConvErrorModel>(t[m].1) by {
                if m > 0 {
                    assert(rest[m - 1].0 == es[i + 1 + (m - 1)].0 && canon(es[i + 1 + (m - 1)].1)
                        == Ok::<JsonModel, ConvErrorModel>(rest[m - 1].1));
                }
            }
        }
    }
}

/// Whatever the canonicalizer produces is well formed: every float a
/// conversion lets through is finite.
pub proof fn lemma_canon_wf(v: ValueModel)
    ensures
        canon(v) matches Ok(j) ==> crate::json::doc_wf(j),
    decreases v, 2int,
{
    match v {
        ValueModel::Binary(bs, _) => {
            let es = canon(v)->Ok_0->Arr_0;
            crate::json::lemma_seq_wf_iff(es, 0);
        },
        ValueModel::CellPath(ms, _) => {
            let es = canon(v)->Ok_0->Arr_0;
            crate::json::lemma_seq_wf_iff(es, 0);
        },
        ValueModel::List(vs, _) => {
            if canon_seq(vs, 0) is Ok {
                let t = canon_seq(vs, 0)->Ok_0;
                lemma_canon_seq_elements(vs, 0);
                assert forall|m: int| 0 <= m < t.len() implies crate::json::doc_wf(
                    #[trigger] t[m],
                ) by {
                    assert(decreases_to!(v => vs));
                    assert(decreases_to!(vs => vs[0 + m]));
                    lemma_canon_wf(vs[0 + m]);
                }
                crate::json::lemma_seq_wf_iff(t, 0);
            }
        },
        ValueModel::Record(es, _) => {
            if canon_entries(es, 0) is Ok {
                let t = canon_entries(es, 0)->Ok_0;
                lemma_canon_entries_elements(es, 0);
                assert forall|m: int| 0 <= m < t.len() implies crate::json::doc_wf(
                    (#[trigger] t[m]).1,
                ) by {
                    assert(decreases_to!(v => es));
                    assert(decreases_to!(es => es[0 + m]));
                    assert(decreases_to!(es[0 + m] => es[0 + m].1));
                    lemma_canon_wf(es[0 + m].1);
                }
                crate::json::lemma_entries_wf_iff(t, 0);
            }
        },
        _ => {},
    }
}

/// The model sequence of a document vector indexes into the element models.
pub proof fn lemma_json_doc_models(es: Vec<JsonDoc>)
    ensures
        json_models(es, 0).len() == es@.len(),
        forall|j: int|
            0 <= j < es@.len() ==> #[trigger] json_models(es, 0)[j] == json_model(es@[j]),
{
    lemma_json_doc_models_from(es, 0);
}

proof fn lemma_json_doc_models_from(es: Vec<JsonDoc>, i: int)
    requires
        0 <= i <= es@.len(),
    ensures
        json_models(es, i).len() == es@.len() - i,
        forall|m: int|
            0 <= m < es@.len() - i ==> #[trigger] json_models(es, i)[m] == json_model(es@[i + m]),
    decreases es@.len() - i,
{
    if i < es@.len() {
        lemma_json_doc_models_from(es, i + 1);
        assert forall|m: int| 0 <= m < es@.len() - i implies #[trigger] json_models(es, i)[m]
            == json_model(es@[i + m]) by {
            if m > 0 {
                assert(json_models(es, i + 1)[m - 1] == json_model(es@[i + 1 + (m - 1)]));
                assert(json_models(es, i)[m] == json_models(es, i + 1)[m - 1]);
            }
        }
    }
}

/// The entry-model sequence of an entry vector indexes into the entry models.
pub proof fn lemma_json_doc_entry_models(es: Vec<(String, JsonDoc)>)
    ensures
        json_entry_models(es, 0).len() == es@.len(),
        forall|j: int|
            0 <= j < es@.len() ==> #[trigger] json_entry_models(es, 0)[j] == (
                es@[j].0@,
                json_model(es@[j].1),
            ),
{
    lemma_json_doc_entry_models_from(es, 0);
}

proof fn lemma_json_doc_entry_models_from(es: Vec<(String, JsonDoc)>, i: int)
    requires
        0 <= i <= es@.len(),
    ensures
        json_entry_models(es, i).len() == es@.len() - i,
        forall|m: int|
            0 <= m < es@.len() - i ==> #[trigger] json_entry_models(es, i)[m] == (
                es@[i + m].0@,
                json_model(es@[i + m].1),
            ),
    decreases es@.len() - i,
{
    if i < es@.len() {
        lemma_json_doc_entry_models_from(es, i + 1);
        assert forall|m: int| 0 <= m < es@.len() - i implies #[trigger] json_entry_models(es, i)[m]
            == (es@[i + m].0@, json_model(es@[i + m].1)) by {
            if m > 0 {
                assert(json_entry_models(es, i + 1)[m - 1] == (
                    es@[i + 1 + (m - 1)].0@,
                    json_model(es@[i + 1 + (m - 1)].1),
                ));
                assert(json_entry_models(es, i)[m] == json_entry_models(es, i + 1)[m - 1]);
            }
        }
    }
}

/// The model sequence of a value vector indexes into the element models.
pub proof fn lemma_typed_value_models(vs: Vec<TypedValue>)
    ensures
        value_models(vs, 0).len() == vs@.len(),
        forall|j: int| 0 <= j < vs@.len() ==> #[trigger] value_models(vs, 0)[j] == vs@[j]@,
{
    lemma_typed_value_models_from(vs, 0);
}

proof fn lemma_typed_value_models_from(vs: Vec<TypedValue>, i: int)
    requires
        0 <= i <= vs@.len(),
    ensures
        value_models(vs, i).len() == vs@.len() - i,
        forall|m: int| 0 <= m < vs@.len() - i ==> #[trigger] value_models(vs, i)[m] == vs@[i + m]@,
    decreases vs@.len() - i,
{
    if i < vs@.len() {
        lemma_typed_value_models_from(vs, i + 1);
        assert forall|m: int| 0 <= m < vs@.len() - i implies #[trigger] value_models(vs, i)[m]
            == vs@[i + m]@ by {
            if m > 0 {
                assert(value_models(vs, i + 1)[m - 1] == vs@[i + 1 + (m - 1)]@);
                assert(value_models(vs, i)[m] == value_models(vs, i + 1)[m - 1]);
            }
        }
    }
}

/// The entry-model sequence of a record-entry vector indexes into the entry
/// models.
pub proof fn lemma_typed_entry_models(es: Vec<(String, TypedValue)>)
    ensures
        entry_models(es, 0).len() == es@.len(),
        forall|j: int|
            0 <= j < es@.len() ==> #[trigger] entry_models(es, 0)[j] == (es@[j].0@, es@[j].1@),
{
    lemma_typed_entry_models_from(es, 0);
}

proof fn lemma_typed_entry_models_from(es: Vec<(String, TypedValue)>, i: int)
    requires
        0 <= i <= es@.len(),
    ensures
        entry_models(es, i).len() == es@.len() - i,
        forall|m: int|
            0 <= m < es@.len() - i ==> #[trigger] entry_models(es, i)[m] == (
                es@[i + m].0@,
                es@[i + m].1@,
            ),
    decreases es@.len() - i,
{
    if i < es@.len() {
        lemma_typed_entry_models_from(es, i + 1);
        assert forall|m: int| 0 <= m < es@.len() - i implies #[trigger] entry_models(es, i)[m] == (
            es@[i + m].0@,
            es@[i + m].1@,
        ) by {
            if m > 0 {
                assert(entry_models(es, i + 1)[m - 1] == (
                    es@[i + 1 + (m - 1)].0@,
                    es@[i + 1 + (m - 1)].1@,
                ));
                assert(entry_models(es, i)[m] == entry_models(es, i + 1)[m - 1]);
            }
        }
    }
}

/// Convert a value to its canonical JSON document, or fail with the first
/// error the conversion meets. The result is exactly what `canon` states.
pub fn value_to_json_value(v: &TypedValue) -> (r: Result<JsonDoc, ConvError>)
    ensures
        conv_res_model(r) == canon(v@),
    decreases *v, 1int,
{
    match v {
        TypedValue::Nothing(_) => Ok(JsonDoc::Null),
        TypedValue::Bool(b, _) => Ok(JsonDoc::Bool(*b)),
        TypedValue::Int(i, _) => Ok(JsonDoc::Int(*i)),
        TypedValue::Float(bits, sp) => if is_finite_bits(*bits) {
            Ok(JsonDoc::Float(*bits))
        } else {
            Err(ConvError::NonFiniteNumber { bits: *bits, span: *sp })
        },
        TypedValue::Str(s, _) => Ok(JsonDoc::Str(s.clone())),
        TypedValue::Binary(bs, _) => {
            let mut out: Vec<JsonDoc> = Vec::new();
            let mut i: usize = 0;
            while i < bs.len()
                invariant
                    i <= bs.len(),
                    out@.len() == i as int,
                    forall|j: int|
                        0 <= j < i as int ==> #[trigger] out@[j] == JsonDoc::Int(bs@[j] as i64),
                decreases bs.len() - i,
            {
                out.push(JsonDoc::Int(bs[i] as i64));
                i = i + 1;
            }
            proof {
                lemma_json_doc_models(out);
                let target = canon(v@)->Ok_0->Arr_0;
                assert(json_models(out, 0) =~= target);
            }
            Ok(JsonDoc::Arr(out))
        },
        TypedValue::Duration(i, _) => Ok(JsonDoc::Int(*i)),
        TypedValue::Filesize(i, _) => Ok(JsonDoc::Int(*i)),
        TypedValue::Date(s, _) => Ok(JsonDoc::Str(s.clone())),
        TypedValue::List(vs, _) => {
            match json_list(vs) {
                Ok(out) => {
                    proof {
                        lemma_typed_value_models(*vs);
                        lemma_json_doc_models(out);
                        assert forall|k: int| 0 <= k < value_models(*vs, 0).len() implies canon(
                            #[trigger] value_models(*vs, 0)[k],
                        ) == Ok::<JsonModel, ConvErrorModel>(json_models(out, 0)[k - 0]) by {
                            assert(value_models(*vs, 0)[k] == vs@[k]@);
                            assert(json_models(out, 0)[k] == json_model(out@[k]));
                        }
                        lemma_canon_seq_ok(value_models(*vs, 0), json_models(out, 0), 0);
                    }
                    Ok(JsonDoc::Arr(out))
                },
                Err(e) => {
                    proof {
                        lemma_typed_value_models(*vs);
                        let j = choose|j: int|
                            0 <= j < vs@.len() && canon(#[trigger] vs@[j]@) == Err::<
                                JsonModel,
                                ConvErrorModel,
                            >(e@) && forall|k: int| 0 <= k < j ==> canon(#[trigger] vs@[k]@) is Ok;
                        lemma_canon_seq_err(value_models(*vs, 0), 0, j, e@);
                    }
                    Err(e)
                },
            }
        },
        TypedValue::Record(es, sp) => {
            let mut out: Vec<(String, JsonDoc)> = Vec::new();
            let mut i: usize = 0;
            while i < es.len()
                invariant
                    *v == TypedValue::Record(*es, *sp),
                    i <= es.len(),
                    out@.len() == i as int,
                    forall|j: int|
                        0 <= j < i as int ==> (#[trigger] out@[j]).0@ == es@[j].0@ && canon(
                            es@[j].1@,
                        ) == Ok::<JsonModel, ConvErrorModel>(out@[j].1@),
                decreases es.len() - i,
            {
                proof {
                    assert(decreases_to!(*v => *es));
                    assert(decreases_to!(*es => (*es)[i as int]));
                    assert(decreases_to!((*es)[i as int] => (*es)[i as int].1));
                }
                match value_to_json_value(&es[i].1) {
                    Ok(j) => {
                        let k = es[i].0.clone();
                        out.push((k, j));
                    },
                    Err(e) => {
                        proof {
                            lemma_typed_entry_models(*es);
                            assert(canon(entry_models(*es, 0)[i as int].1) == Err::<
                                JsonModel,
                                ConvErrorModel,
                            >(e@));
                            assert forall|k: int| 0 <= k < i as int implies canon(
                                (#[trigger] entry_models(*es, 0)[k]).1,
                            ) is Ok by {
                                assert(entry_models(*es, 0)[k] == (es@[k].0@, es@[k].1@));
                                assert((out@[k]).0@ == es@[k].0@ && canon(es@[k].1@) == Ok::<
                                    JsonModel,
                                    ConvErrorModel,
                                >(out@[k].1@));
                            }
                            lemma_canon_entries_err(entry_models(*es, 0), 0, i as int, e@);
                        }
                        return Err(e);
                    },
                }
                i = i + 1;
            }
            proof {
                lemma_typed_entry_models(*es);
                lemma_json_doc_entry_models(out);
                assert forall|k: int| 0 <= k < es@.len() implies (#[trigger] entry_models(
                    *es,
                    0,
                )[k]).0 == json_entry_models(out, 0)[k].0 && canon(entry_models(*es, 0)[k].1)
                    == Ok::<JsonModel, ConvErrorModel>(json_entry_models(out, 0)[k].1) by {
                    assert(entry_models(*es, 0)[k] == (es@[k].0@, es@[k].1@));
                    assert(json_entry_models(out, 0)[k] == (out@[k].0@, json_model(out@[k].1)));
                    assert((out@[k]).0@ == es@[k].0@ && canon(es@[k].1@) == Ok::<
                        JsonModel,
                        ConvErrorModel,
                    >(out@[k].1@));
                }
                lemma_canon_entries_ok(entry_models(*es, 0), json_entry_models(out, 0), 0);
            }
            Ok(JsonDoc::Obj(out))
        },
        TypedValue::CellPath(ms, _) => {
            let mut out: Vec<JsonDoc> = Vec::new();
            let mut i: usize = 0;
            while i < ms.len()
                invariant
                    i <= ms.len(),
                    out@.len() == i as int,
                    forall|j: int|
                        0 <= j < i as int ==> json_model(#[trigger] out@[j]) == member_json(
                            ms@[j]@,
                        ),
                decreases ms.len() - i,
            {
                match &ms[i] {
                    PathMember::Name(s) => out.push(JsonDoc::Str(s.clone())),
                    PathMember::Index(n) => out.push(JsonDoc::UInt(*n as u64)),
                }
                i = i + 1;
            }
            proof {
                lemma_json_doc_models(out);
                let target = canon(v@)->Ok_0->Arr_0;
                assert(json_models(out, 0) =~= target);
            }
            Ok(JsonDoc::Arr(out))
        },
        TypedValue::Error(msg, sp) => Err(
            ConvError::EmbeddedError { msg: msg.clone(), span: *sp },
        ),
        TypedValue::Closure(_) => Ok(JsonDoc::Null),
        TypedValue::Block(_) => Ok(JsonDoc::Null),
        TypedValue::Range(_) => Ok(JsonDoc::Null),
    }
}

/// Convert every element of a list in order; the first failure aborts and is
/// returned.
fn json_list(input: &Vec<TypedValue>) -> (r: Result<Vec<JsonDoc>, ConvError>)
    ensures
        match r {
            Ok(out) => {
                &&& out@.len() == input@.len()
                &&& forall|j: int|
                    0 <= j < input@.len() ==> canon(#[trigger] input@[j]@) == Ok::<
                        JsonModel,
                        ConvErrorModel,
                    >(out@[j]@)
            },
            Err(e) => exists|j: int|
                0 <= j < input@.len() && canon(#[trigger] input@[j]@) == Err::<
                    JsonModel,
                    ConvErrorModel,
                >(e@) && (forall|k: int| 0 <= k < j ==> canon(#[trigger] input@[k]@) is Ok),
        },
    decreases *input, 0int,
{
    let mut out: Vec<JsonDoc> = Vec::new();
    let mut i: usize = 0;
    while i < input.len()
        invariant
            i <= input.len(),
            out@.len() == i as int,
            forall|j: int|
                0 <= j < i as int ==> canon(#[trigger] input@[j]@) == Ok::<
                    JsonModel,
                    ConvErrorModel,
                >(out@[j]@),
        decreases input.len() - i,
    {
        match value_to_json_value(&input[i]) {
            Ok(j) => out.push(j),
            Err(e) => {
                return Err(e);
            },
        }
        i = i + 1;
    }
    Ok(out)
}

} // verus!
