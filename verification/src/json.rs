//! The canonical JSON document model: what the canonicalizer produces and the
//! query engine consumes. Numbers keep the distinction the parser makes
//! between integer-valued and real-valued tokens; reals are carried as IEEE
//! 754 bit patterns.

use vstd::prelude::*;

use crate::value::Span;

verus! {

/// A canonical JSON value. `Int` and `UInt` both stand for integer-valued
/// numbers; `Float` carries the bit pattern of a finite 64-bit IEEE value.
/// Object entries keep their insertion order and need not have unique keys;
/// uniqueness comes from the value model's records.
#[derive(Debug, PartialEq)]
pub enum JsonDoc {
    Null,
    Bool(bool),
    Int(i64),
    UInt(u64),
    Float(u64),
    Str(String),
    Arr(Vec<JsonDoc>),
    Obj(Vec<(String, JsonDoc)>),
}

/// Mathematical mirror of `JsonDoc`: integer-valued numbers collapse to one
/// unbounded `Int` variant.
pub enum JsonModel {
    Null,
    Bool(bool),
    Int(int),
    Float(u64),
    Str(Seq<char>),
    Arr(Seq<JsonModel>),
    Obj(Seq<(Seq<char>, JsonModel)>),
}

pub open spec fn json_model(j: JsonDoc) -> JsonModel
    decreases j, 1int,
{
    match j {
        JsonDoc::Null => JsonModel::Null,
        JsonDoc::Bool(b) => JsonModel::Bool(b),
        JsonDoc::Int(i) => JsonModel::Int(i as int),
        JsonDoc::UInt(u) => JsonModel::Int(u as int),
        JsonDoc::Float(bits) => JsonModel::Float(bits),
        JsonDoc::Str(s) => JsonModel::Str(s@),
        JsonDoc::Arr(es) => JsonModel::Arr(json_models(es, 0)),
        JsonDoc::Obj(es) => JsonModel::Obj(json_entry_models(es, 0)),
    }
}

/// The models of `es[i..]`, front to back.
pub open spec fn json_models(es: Vec<JsonDoc>, i: int) -> Seq<JsonModel>
    decreases es, es.len() - i,
{
    if i < 0 || i >= es.len() {
        Seq::empty()
    } else {
        seq![json_model(es[i])] + json_models(es, i + 1)
    }
}

/// The models of the object entries `es[i..]`, front to back.
pub open spec fn json_entry_models(es: Vec<(String, JsonDoc)>, i: int) -> Seq<
    (Seq<char>, JsonModel),
>
    decreases es, es.len() - i,
{
    if i < 0 || i >= es.len() {
        Seq::empty()
    } else {
        seq![(es[i].0@, json_model(es[i].1))] + json_entry_models(es, i + 1)
    }
}

impl View for JsonDoc {
    type V = JsonModel;

    open spec fn view(&self) -> JsonModel {
        json_model(*self)
    }
}

/// Whether a 64-bit IEEE 754 bit pattern denotes a finite number: finite
/// exactly when the exponent field is not all ones (all ones is the encoding
/// of infinities and NaNs).
pub open spec fn spec_finite(bits: u64) -> bool {
    (bits >> 52) & 0x7ff != 0x7ff
}

/// Whether a float bit pattern denotes a finite number (not NaN, not an
/// infinity).
pub fn is_finite_bits(bits: u64) -> (r: bool)
    ensures
        r == spec_finite(bits),
{
    (bits >> 52) & 0x7ff != 0x7ff
}

/// Strict lexicographic order on key text, by code point. For the keys that
/// reach the engine boundary this agrees with the byte-wise order of their
/// UTF-8 encodings.
pub open spec fn key_lt(a: Seq<char>, b: Seq<char>) -> bool
    decreases a.len(),
{
    if b.len() == 0 {
        false
    } else if a.len() == 0 {
        true
    } else if a[0] == b[0] {
        key_lt(a.drop_first(), b.drop_first())
    } else {
        a[0] < b[0]
    }
}

/// Insert an entry into a key-sorted entry sequence: an equal key replaces
/// that entry, otherwise the entry lands at its ordered position.
pub open spec fn sorted_insert(
    s: Seq<(Seq<char>, JsonModel)>,
    e: (Seq<char>, JsonModel),
) -> Seq<(Seq<char>, JsonModel)>
    decreases s.len(),
{
    if s.len() == 0 {
        seq![e]
    } else if e.0 == s[0].0 {
        seq![e] + s.drop_first()
    } else if key_lt(e.0, s[0].0) {
        seq![e] + s
    } else {
        seq![s[0]] + sorted_insert(s.drop_first(), e)
    }
}

/// The entry sequence an ordered map holds after inserting the given entries
/// in order: keys ascending, a later duplicate key replacing the earlier.
pub open spec fn map_normal(es: Seq<(Seq<char>, JsonModel)>) -> Seq<(Seq<char>, JsonModel)>
    decreases es.len(),
{
    if es.len() == 0 {
        Seq::empty()
    } else {
        sorted_insert(map_normal(es.drop_last()), es.last())
    }
}

/// The document as the engine-side representation holds it: every object's
/// entries re-keyed into ordered-map form, recursively.
pub open spec fn doc_normal(j: JsonModel) -> JsonModel
    decreases j, 1int,
{
    match j {
        JsonModel::Arr(es) => JsonModel::Arr(docs_normal(es, 0)),
        JsonModel::Obj(es) => JsonModel::Obj(map_normal(entries_normal(es, 0))),
        _ => j,
    }
}

/// `doc_normal` over the elements `es[i..]`, front to back.
pub open spec fn docs_normal(es: Seq<JsonModel>, i: int) -> Seq<JsonModel>
    decreases es, es.len() - i,
{
    if i < 0 || i >= es.len() {
        Seq::empty()
    } else {
        seq![doc_normal(es[i])] + docs_normal(es, i + 1)
    }
}

/// `doc_normal` over the entry values of `es[i..]`, front to back.
pub open spec fn entries_normal(es: Seq<(Seq<char>, JsonModel)>, i: int) -> Seq<
    (Seq<char>, JsonModel),
>
    decreases es, es.len() - i,
{
    if i < 0 || i >= es.len() {
        Seq::empty()
    } else {
        seq![(es[i].0, doc_normal(es[i].1))] + entries_normal(es, i + 1)
    }
}

/// A well-formed document: every float in it is finite. The canonicalizer
/// only ever produces such documents.
pub open spec fn doc_wf(j: JsonModel) -> bool
    decreases j, 1int,
{
    match j {
        JsonModel::Float(bits) => spec_finite(bits),
        JsonModel::Arr(es) => seq_wf(es, 0),
        JsonModel::Obj(es) => entries_wf(es, 0),
        _ => true,
    }
}

/// Well-formedness of the elements `es[i..]`.
pub open spec fn seq_wf(es: Seq<JsonModel>, i: int) -> bool
    decreases es, es.len() - i, 0int,
{
    if i < 0 || i >= es.len() {
        true
    } else {
        doc_wf(es[i]) && seq_wf(es, i + 1)
    }
}

/// Well-formedness of the entry values of `es[i..]`.
pub open spec fn entries_wf(es: Seq<(Seq<char>, JsonModel)>, i: int) -> bool
    decreases es, es.len() - i, 0int,
{
    if i < 0 || i >= es.len() {
        true
    } else {
        doc_wf(es[i].1) && entries_wf(es, i + 1)
    }
}

/// `seq_wf` holds from `i` exactly when every later element is well formed.
pub proof fn lemma_seq_wf_iff(es: Seq<JsonModel>, i: int)
    requires
        0 <= i <= es.len(),
    ensures
        seq_wf(es, i) <==> (forall|m: int| 0 <= m < es.len() - i ==> doc_wf(#[trigger] es[i + m])),
    decreases es.len() - i,
{
    if i < es.len() {
        lemma_seq_wf_iff(es, i + 1);
        if seq_wf(es, i) {
            assert forall|m: int| 0 <= m < es.len() - i implies doc_wf(#[trigger] es[i + m]) by {
                if m > 0 {
                    assert(doc_wf(es[i + 1 + (m - 1)]));
                }
            }
        }
        if forall|m: int| 0 <= m < es.len() - i ==> doc_wf(#[trigger] es[i + m]) {
            assert forall|m: int| 0 <= m < es.len() - (i + 1) implies doc_wf(
                #[trigger] es[i + 1 + m],
            ) by {
                assert(doc_wf(es[i + (m + 1)]));
            }
            assert(doc_wf(es[i + 0]));
        }
    }
}

/// `entries_wf` holds from `i` exactly when every later entry value is well
/// formed.
pub proof fn lemma_entries_wf_iff(es: Seq<(Seq<char>, JsonModel)>, i: int)
    requires
        0 <= i <= es.len(),
    ensures
        entries_wf(es, i) <==> (forall|m: int|
            0 <= m < es.len() - i ==> doc_wf((#[trigger] es[i + m]).1)),
    decreases es.len() - i,
{
    if i < es.len() {
        lemma_entries_wf_iff(es, i + 1);
        if entries_wf(es, i) {
            assert forall|m: int| 0 <= m < es.len() - i implies doc_wf(
                (#[trigger] es[i + m]).1,
            ) by {
                if m > 0 {
                    assert(doc_wf(es[i + 1 + (m - 1)].1));
                }
            }
        }
        if forall|m: int| 0 <= m < es.len() - i ==> doc_wf((#[trigger] es[i + m]).1) {
            assert forall|m: int| 0 <= m < es.len() - (i + 1) implies doc_wf(
                (#[trigger] es[i + 1 + m]).1,
            ) by {
                assert(doc_wf(es[i + (m + 1)].1));
            }
            assert(doc_wf(es[i + 0].1));
        }
    }
}

/// Why a conversion to canonical JSON failed.
#[derive(Debug, PartialEq)]
pub enum ConvError {
    /// A float was NaN or infinite; carries its bit pattern and position.
    NonFiniteNumber { bits: u64, span: Span },
    /// The value embedded a diagnostic, which poisons the conversion.
    EmbeddedError { msg: String, span: Span },
    /// A host capability failed while a deferred or custom value was being
    /// resolved to a plain one.
    ConversionFailure { msg: String, span: Span },
}

/// Mathematical mirror of `ConvError`.
pub enum ConvErrorModel {
    NonFiniteNumber(u64, Span),
    EmbeddedError(Seq<char>, Span),
    ConversionFailure(Seq<char>, Span),
}

impl View for ConvError {
    type V = ConvErrorModel;

    open spec fn view(&self) -> ConvErrorModel {
        match *self {
            ConvError::NonFiniteNumber { bits, span } => ConvErrorModel::NonFiniteNumber(
                bits,
                span,
            ),
            ConvError::EmbeddedError { msg, span } => ConvErrorModel::EmbeddedError(msg@, span),
            ConvError::ConversionFailure { msg, span } => ConvErrorModel::ConversionFailure(
                msg@,
                span,
            ),
        }
    }
}

} // verus!
