//! The query dispatcher: validate the input shape, drive JSON parsing,
//! compile and evaluate the path query, materialize the results, and build
//! the externally visible error. The first failure terminates the call.

use vstd::prelude::*;

use crate::convert::{
    canon, lemma_canon_wf, lemma_json_doc_entry_models, lemma_json_doc_models, value_to_json_value,
};
use crate::engine::{
    compiled_query, eval_query, json_err_string, jsonpath_err_string, jsonpath_parse,
    jsonpath_query, map_model, parse_json, parse_model, query_compiles, render_json, render_model,
    sj_arr, sj_bool, sj_float, sj_int, sj_model, sj_null, sj_obj, sj_str, sj_uint, sjmap_insert,
    sjmap_new,
};
use crate::json::{
    doc_normal, doc_wf, docs_normal, entries_normal, json_entry_models, json_model, json_models,
    map_normal, ConvError, ConvErrorModel, JsonDoc, JsonModel,
};
use crate::materialize::{convert_sjson_to_value, lemma_mat_seq_from, mat, mat_seq};
use crate::value::{spec_variant_name, value_models, Span, TypedValue, ValueModel};

verus! {

/// Why a dispatched call failed. The free-text messages carry outside
/// diagnostics verbatim and are not part of the model.
#[derive(Debug, PartialEq)]
pub enum RunError {
    /// No query text was given.
    MissingQuery { span: Span },
    /// The piped input was neither JSON text nor a record; carries the
    /// observed variant's name.
    UnsupportedInput { input_type: String, span: Span },
    /// The input text was not well-formed JSON.
    InvalidJson { msg: String, span: Span },
    /// The query text was not a well-formed path query.
    InvalidQuery { msg: String, span: Span },
    /// Converting the record input to canonical JSON failed.
    Conversion { err: ConvError },
}

/// Mathematical mirror of `RunError`, without the free-text messages.
pub enum RunErrorModel {
    MissingQuery(Span),
    UnsupportedInput(Seq<char>, Span),
    InvalidJson(Span),
    InvalidQuery(Span),
    Conversion(ConvErrorModel),
}

impl View for RunError {
    type V = RunErrorModel;

    open spec fn view(&self) -> RunErrorModel {
        match self {
            RunError::MissingQuery { span } => RunErrorModel::MissingQuery(*span),
            RunError::UnsupportedInput { input_type, span } => RunErrorModel::UnsupportedInput(
                input_type@,
                *span,
            ),
            RunError::InvalidJson { msg: _, span } => RunErrorModel::InvalidJson(*span),
            RunError::InvalidQuery { msg: _, span } => RunErrorModel::InvalidQuery(*span),
            RunError::Conversion { err } => RunErrorModel::Conversion(err@),
        }
    }
}

/// Build the engine-side value of a canonical document. Array order is kept;
/// each object's entries land in the engine map's own ordered form, which is
/// exactly `doc_normal`.
pub(crate) fn to_engine_json(j: &JsonDoc) -> (r: serde_json::Value)
    requires
        doc_wf(j@),
    ensures
        sj_model(r) == doc_normal(j@),
    decreases *j, 1int,
{
    match j {
        JsonDoc::Null => sj_null(),
        JsonDoc::Bool(b) => sj_bool(*b),
        JsonDoc::Int(i) => sj_int(*i),
        JsonDoc::UInt(u) => sj_uint(*u),
        JsonDoc::Float(bits) => sj_float(*bits),
        JsonDoc::Str(s) => sj_str(s.as_str()),
        JsonDoc::Arr(es) => {
            let ghost ms = json_models(*es, 0);
            proof {
                lemma_json_doc_models(*es);
                crate::json::lemma_seq_wf_iff(ms, 0);
                assert forall|k: int| 0 <= k < ms.len() implies doc_wf(#[trigger] ms[k]) by {
                    assert(doc_wf(ms[0 + k]));
                }
            }
            let mut items: Vec<serde_json::Value> = Vec::new();
            let mut i: usize = 0;
            while i < es.len()
                invariant
                    *j == JsonDoc::Arr(*es),
                    ms == json_models(*es, 0),
                    ms.len() == es@.len(),
                    forall|k: int|
                        0 <= k < ms.len() ==> #[trigger] ms[k] == json_model(es@[k]),
                    forall|k: int| 0 <= k < ms.len() ==> doc_wf(#[trigger] ms[k]),
                    i <= es.len(),
                    items@.len() == i as int,
                    forall|k: int|
                        0 <= k < i as int ==> sj_model(#[trigger] items@[k]) == doc_normal(ms[k]),
                decreases es.len() - i,
            {
                proof {
                    assert(decreases_to!(*j => (*j)->Arr_0));
                    assert((*j)->Arr_0 == *es);
                    assert(decreases_to!(*es => (*es)[i as int]));
                    assert(ms[i as int] == json_model(es@[i as int]));
                    assert(doc_wf(ms[i as int]));
                }
                let child = to_engine_json(&es[i]);
                items.push(child);
                i = i + 1;
            }
            proof {
                lemma_docs_normal_from(ms, 0);
            }
            let r = sj_arr(items);
            proof {
                assert(Seq::new(items@.len(), |k: int| sj_model(items@[k])) =~= docs_normal(
                    ms,
                    0,
                ));
            }
            r
        },
        JsonDoc::Obj(es) => {
            let ghost ems = json_entry_models(*es, 0);
            let ghost target = entries_normal(ems, 0);
            proof {
                lemma_json_doc_entry_models(*es);
                crate::json::lemma_entries_wf_iff(ems, 0);
                lemma_entries_normal_from(ems, 0);
                assert forall|k: int| 0 <= k < ems.len() implies doc_wf(
                    (#[trigger] ems[k]).1,
                ) by {
                    assert(doc_wf(ems[0 + k].1));
                }
                assert(target.take(0) =~= Seq::empty());
            }
            let mut m = sjmap_new();
            let mut i: usize = 0;
            while i < es.len()
                invariant
                    *j == JsonDoc::Obj(*es),
                    ems == json_entry_models(*es, 0),
                    ems.len() == es@.len(),
                    forall|k: int|
                        0 <= k < ems.len() ==> #[trigger] ems[k] == (
                            es@[k].0@,
                            json_model(es@[k].1),
                        ),
                    forall|k: int| 0 <= k < ems.len() ==> doc_wf((#[trigger] ems[k]).1),
                    target == entries_normal(ems, 0),
                    target.len() == ems.len(),
                    forall|k: int|
                        0 <= k < ems.len() ==> #[trigger] target[k] == (
                            ems[k].0,
                            doc_normal(ems[k].1),
                        ),
                    i <= es.len(),
                    map_model(m) == map_normal(target.take(i as int)),
                decreases es.len() - i,
            {
                proof {
                    assert(decreases_to!(*j => (*j)->Obj_0));
                    assert((*j)->Obj_0 == *es);
                    assert(decreases_to!(*es => (*es)[i as int]));
                    assert(decreases_to!((*es)[i as int] => (*es)[i as int].1));
                    assert(ems[i as int] == (es@[i as int].0@, json_model(es@[i as int].1)));
                    assert(doc_wf(ems[i as int].1));
                }
                let v = to_engine_json(&es[i].1);
                let k = es[i].0.clone();
                proof {
                    assert((k@, sj_model(v)) == target[i as int]);
                }
                sjmap_insert(&mut m, k, v);
                proof {
                    assert(target.take(i as int + 1).drop_last() =~= target.take(i as int));
                    assert(target.take(i as int + 1).last() == target[i as int]);
                }
                i = i + 1;
            }
            proof {
                assert(target.take(ems.len() as int) =~= target);
            }
            sj_obj(m)
        },
    }
}

/// `docs_normal` from `i` indexes into the normalized elements.
proof fn lemma_docs_normal_from(es: Seq<JsonModel>, i: int)
    requires
        0 <= i <= es.len(),
    ensures
        docs_normal(es, i).len() == es.len() - i,
        forall|m: int|
            0 <= m < es.len() - i ==> #[trigger] docs_normal(es, i)[m] == doc_normal(es[i + m]),
    decreases es.len() - i,
{
    if i < es.len() {
        lemma_docs_normal_from(es, i + 1);
        assert forall|m: int| 0 <= m < es.len() - i implies #[trigger] docs_normal(es, i)[m]
            == doc_normal(es[i + m]) by {
            if m > 0 {
                assert(docs_normal(es, i + 1)[m - 1] == doc_normal(es[i + 1 + (m - 1)]));
                assert(docs_normal(es, i)[m] == docs_normal(es, i + 1)[m - 1]);
            }
        }
    }
}

/// `entries_normal` from `i` indexes into the normalized entries.
proof fn lemma_entries_normal_from(es: Seq<(Seq<char>, JsonModel)>, i: int)
    requires
        0 <= i <= es.len(),
    ensures
        entries_normal(es, i).len() == es.len() - i,
        forall|m: int|
            0 <= m < es.len() - i ==> #[trigger] entries_normal(es, i)[m] == (
                es[i + m].0,
                doc_normal(es[i + m].1),
            ),
    decreases es.len() - i,
{
    if i < es.len() {
        lemma_entries_normal_from(es, i + 1);
        assert forall|m: int| 0 <= m < es.len() - i implies #[trigger] entries_normal(es, i)[m]
            == (es[i + m].0, doc_normal(es[i + m].1)) by {
            if m > 0 {
                assert(entries_normal(es, i + 1)[m - 1] == (
                    es[i + 1 + (m - 1)].0,
                    doc_normal(es[i + 1 + (m - 1)].1),
                ));
                assert(entries_normal(es, i)[m] == entries_normal(es, i + 1)[m - 1]);
            }
        }
    }
}

/// The model of an optional query text.
pub open spec fn opt_text(q: Option<String>) -> Option<Seq<char>> {
    match q {
        Option::None => Option::None,
        Option::Some(s) => Option::Some(s@),
    }
}

/// What querying JSON text returns: each step's failure, or the materialized
/// result nodes in evaluation order, each stamped with `head`.
pub open spec fn perform_model(text: Seq<char>, q: Option<Seq<char>>, head: Span) -> Result<
    Seq<ValueModel>,
    RunErrorModel,
> {
    match q {
        Option::None => Err(RunErrorModel::MissingQuery(head)),
        Option::Some(qt) => match parse_model(text) {
            Option::None => Err(RunErrorModel::InvalidJson(head)),
            Option::Some(doc) => if !query_compiles(qt) {
                Err(RunErrorModel::InvalidQuery(head))
            } else {
                Ok(mat_seq(eval_query(qt, doc), 0, head))
            },
        },
    }
}

/// The model of an executable query result.
pub open spec fn perform_res_model(r: Result<Vec<TypedValue>, RunError>) -> Result<
    Seq<ValueModel>,
    RunErrorModel,
> {
    match r {
        Ok(vs) => Ok(value_models(vs, 0)),
        Err(e) => Err(e@),
    }
}

/// Query JSON text: parse it, compile the query, evaluate it, and materialize
/// every result node in order, stamped with `span`. Fails with `MissingQuery`
/// when no query was given, `InvalidJson` when the text is rejected, and
/// `InvalidQuery` when the query is rejected — exactly as `perform_model`
/// states.
pub fn perform_json_path_query(input: &str, json_query: &Option<String>, span: Span) -> (r: Result<
    Vec<TypedValue>,
    RunError,
>)
    ensures
        perform_res_model(r) == perform_model(input@, opt_text(*json_query), span),
{
    let query: &String = match json_query {
        Option::Some(q) => q,
        Option::None => {
            return Err(RunError::MissingQuery { span });
        },
    };
    let doc = match parse_json(input) {
        Ok(d) => d,
        Err(e) => {
            return Err(RunError::InvalidJson { msg: json_err_string(&e), span });
        },
    };
    let path = match jsonpath_parse(query.as_str()) {
        Ok(p) => p,
        Err(e) => {
            return Err(RunError::InvalidQuery { msg: jsonpath_err_string(&e), span });
        },
    };
    let nodes = jsonpath_query(&path, &doc);
    let ghost results = eval_query(query@, sj_model(doc));
    let mut out: Vec<TypedValue> = Vec::new();
    let mut i: usize = 0;
    while i < nodes.len()
        invariant
            results == eval_query(compiled_query(path), sj_model(doc)),
            compiled_query(path) == query@,
            nodes@.len() == results.len(),
            forall|k: int| 0 <= k < results.len() ==> sj_model(*#[trigger] nodes@[k]) == results[k],
            i <= nodes.len(),
            out@.len() == i as int,
            forall|k: int| 0 <= k < i as int ==> (#[trigger] out@[k])@ == mat(results[k], span),
        decreases nodes.len() - i,
    {
        let node = nodes[i];
        out.push(convert_sjson_to_value(node, span));
        i = i + 1;
    }
    proof {
        crate::convert::lemma_typed_value_models(out);
        lemma_mat_seq_from(results, 0, span);
        assert(value_models(out, 0) =~= mat_seq(results, 0, span));
    }
    Ok(out)
}

/// What one dispatched call returns, for every input and query: the
/// materialized result list on success, and the first step's error otherwise.
/// JSON text input is queried as it stands; a record is canonicalized, handed
/// to the engine (whose object maps re-key it into `doc_normal` form),
/// rendered to JSON text and re-parsed; any other input is rejected with its
/// variant's name.
pub open spec fn run_model(v: ValueModel, q: Option<Seq<char>>, head: Span) -> Result<
    ValueModel,
    RunErrorModel,
> {
    if q is None {
        Err(RunErrorModel::MissingQuery(head))
    } else {
        match v {
            ValueModel::Str(text, _) => wrap_list(perform_model(text, q, head), head),
            ValueModel::Record(_, _) => match canon(v) {
                Err(e) => Err(RunErrorModel::Conversion(e)),
                Ok(doc) => wrap_list(
                    perform_model(render_model(doc_normal(doc)), q, head),
                    head,
                ),
            },
            _ => Err(RunErrorModel::UnsupportedInput(spec_variant_name(v), head)),
        }
    }
}

/// Wrap a query outcome's result sequence in a list value stamped with `head`.
pub open spec fn wrap_list(r: Result<Seq<ValueModel>, RunErrorModel>, head: Span) -> Result<
    ValueModel,
    RunErrorModel,
> {
    match r {
        Ok(ms) => Ok(ValueModel::List(ms, head)),
        Err(e) => Err(e),
    }
}

/// The model of an executable dispatch result.
pub open spec fn run_res_model(r: Result<TypedValue, RunError>) -> Result<
    ValueModel,
    RunErrorModel,
> {
    match r {
        Ok(v) => Ok(v@),
        Err(e) => Err(e@),
    }
}

/// Dispatch one call: check the query is present, accept JSON text or a
/// record, query it, and wrap the materialized results in a list stamped with
/// `head` — exactly as `run_model` states, for every input.
pub fn run_query(input: &TypedValue, json_query: &Option<String>, head: Span) -> (r: Result<
    TypedValue,
    RunError,
>)
    ensures
        run_res_model(r) == run_model(input@, opt_text(*json_query), head),
{
    if json_query.is_none() {
        return Err(RunError::MissingQuery { span: head });
    }
    match input {
        TypedValue::Str(text, _) => {
            match perform_json_path_query(text.as_str(), json_query, head) {
                Ok(vs) => {
                    proof {
                        crate::convert::lemma_typed_value_models(vs);
                    }
                    Ok(TypedValue::List(vs, head))
                },
                Err(e) => Err(e),
            }
        },
        TypedValue::Record(_, _) => {
            match value_to_json_value(input) {
                Err(e) => Err(RunError::Conversion { err: e }),
                Ok(doc) => {
                    proof {
                        lemma_canon_wf(input@);
                    }
                    let ev = to_engine_json(&doc);
                    let text = render_json(&ev);
                    match perform_json_path_query(text.as_str(), json_query, head) {
                        Ok(vs) => Ok(TypedValue::List(vs, head)),
                        Err(e) => Err(e),
                    }
                },
            }
        },
        _ => Err(
            RunError::UnsupportedInput { input_type: input.variant_name().to_owned(), span: head },
        ),
    }
}

} // verus!
