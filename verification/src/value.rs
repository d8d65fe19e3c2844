//! The host's value model: a tagged tree of scalars and composites, each node
//! carrying an opaque source position.

use vstd::prelude::*;

verus! {

/// An opaque source position carried by every value; propagated for
/// diagnostics, never interpreted.
#[derive(Clone, Copy, Debug, PartialEq, Eq, Structural)]
pub struct Span {
    pub start: usize,
    pub end: usize,
}

/// One member of a cell path: either a named field or a non-negative index.
#[derive(Debug, PartialEq)]
pub enum PathMember {
    Name(String),
    Index(usize),
}

/// The host's tagged value tree. Floats are carried as their IEEE 754 bit
/// pattern, dates as their rendered text; both are what the conversions read.
#[derive(Debug, PartialEq)]
pub enum TypedValue {
    Nothing(Span),
    Bool(bool, Span),
    Int(i64, Span),
    Float(u64, Span),
    Str(String, Span),
    Binary(Vec<u8>, Span),
    Duration(i64, Span),
    Filesize(i64, Span),
    Date(String, Span),
    List(Vec<TypedValue>, Span),
    Record(Vec<(String, TypedValue)>, Span),
    CellPath(Vec<PathMember>, Span),
    Error(String, Span),
    Closure(Span),
    Block(Span),
    Range(Span),
}

/// Mathematical mirror of `PathMember`.
pub enum MemberModel {
    Name(Seq<char>),
    Index(usize),
}

/// Mathematical mirror of `TypedValue`, over `Seq` instead of `Vec`.
pub enum ValueModel {
    Nothing(Span),
    Bool(bool, Span),
    Int(i64, Span),
    Float(u64, Span),
    Str(Seq<char>, Span),
    Binary(Seq<u8>, Span),
    Duration(i64, Span),
    Filesize(i64, Span),
    Date(Seq<char>, Span),
    List(Seq<ValueModel>, Span),
    Record(Seq<(Seq<char>, ValueModel)>, Span),
    CellPath(Seq<MemberModel>, Span),
    Error(Seq<char>, Span),
    Closure(Span),
    Block(Span),
    Range(Span),
}

pub open spec fn member_model(m: PathMember) -> MemberModel {
    match m {
        PathMember::Name(s) => MemberModel::Name(s@),
        PathMember::Index(i) => MemberModel::Index(i),
    }
}

pub open spec fn value_model(v: TypedValue) -> ValueModel
    decreases v, 1int,
{
    match v {
        TypedValue::Nothing(sp) => ValueModel::Nothing(sp),
        TypedValue::Bool(b, sp) => ValueModel::Bool(b, sp),
        TypedValue::Int(i, sp) => ValueModel::Int(i, sp),
        TypedValue::Float(bits, sp) => ValueModel::Float(bits, sp),
        TypedValue::Str(s, sp) => ValueModel::Str(s@, sp),
        TypedValue::Binary(b, sp) => ValueModel::Binary(b@, sp),
        TypedValue::Duration(i, sp) => ValueModel::Duration(i, sp),
        TypedValue::Filesize(i, sp) => ValueModel::Filesize(i, sp),
        TypedValue::Date(s, sp) => ValueModel::Date(s@, sp),
        TypedValue::List(vs, sp) => ValueModel::List(value_models(vs, 0), sp),
        TypedValue::Record(es, sp) => ValueModel::Record(entry_models(es, 0), sp),
        TypedValue::CellPath(ms, sp) => ValueModel::CellPath(
            Seq::new(ms@.len(), |i: int| member_model(ms@[i])),
            sp,
        ),
        TypedValue::Error(msg, sp) => ValueModel::Error(msg@, sp),
        TypedValue::Closure(sp) => ValueModel::Closure(sp),
        TypedValue::Block(sp) => ValueModel::Block(sp),
        TypedValue::Range(sp) => ValueModel::Range(sp),
    }
}

/// The models of `vs[i..]`, front to back.
pub open spec fn value_models(vs: Vec<TypedValue>, i: int) -> Seq<ValueModel>
    decreases vs, vs.len() - i,
{
    if i < 0 || i >= vs.len() {
        Seq::empty()
    } else {
        seq![value_model(vs[i])] + value_models(vs, i + 1)
    }
}

/// The models of the record entries `es[i..]`, front to back.
pub open spec fn entry_models(es: Vec<(String, TypedValue)>, i: int) -> Seq<(Seq<char>, ValueModel)>
    decreases es, es.len() - i,
{
    if i < 0 || i >= es.len() {
        Seq::empty()
    } else {
        seq![(es[i].0@, value_model(es[i].1))] + entry_models(es, i + 1)
    }
}

impl View for TypedValue {
    type V = ValueModel;

    open spec fn view(&self) -> ValueModel {
        value_model(*self)
    }
}

impl View for PathMember {
    type V = MemberModel;

    open spec fn view(&self) -> MemberModel {
        member_model(*self)
    }
}

impl TypedValue {
    /// The source position this value carries.
    pub open spec fn spec_span(self) -> Span {
        match self {
            TypedValue::Nothing(sp) => sp,
            TypedValue::Bool(_, sp) => sp,
            TypedValue::Int(_, sp) => sp,
            TypedValue::Float(_, sp) => sp,
            TypedValue::Str(_, sp) => sp,
            TypedValue::Binary(_, sp) => sp,
            TypedValue::Duration(_, sp) => sp,
            TypedValue::Filesize(_, sp) => sp,
            TypedValue::Date(_, sp) => sp,
            TypedValue::List(_, sp) => sp,
            TypedValue::Record(_, sp) => sp,
            TypedValue::CellPath(_, sp) => sp,
            TypedValue::Error(_, sp) => sp,
            TypedValue::Closure(sp) => sp,
            TypedValue::Block(sp) => sp,
            TypedValue::Range(sp) => sp,
        }
    }

    /// The source position this value carries.
    pub fn span(&self) -> (sp: Span)
        ensures
            sp == self.spec_span(),
    {
        match self {
            TypedValue::Nothing(sp) => *sp,
            TypedValue::Bool(_, sp) => *sp,
            TypedValue::Int(_, sp) => *sp,
            TypedValue::Float(_, sp) => *sp,
            TypedValue::Str(_, sp) => *sp,
            TypedValue::Binary(_, sp) => *sp,
            TypedValue::Duration(_, sp) => *sp,
            TypedValue::Filesize(_, sp) => *sp,
            TypedValue::Date(_, sp) => *sp,
            TypedValue::List(_, sp) => *sp,
            TypedValue::Record(_, sp) => *sp,
            TypedValue::CellPath(_, sp) => *sp,
            TypedValue::Error(_, sp) => *sp,
            TypedValue::Closure(sp) => *sp,
            TypedValue::Block(sp) => *sp,
            TypedValue::Range(sp) => *sp,
        }
    }
}

/// The name of a value's variant, as shown in diagnostics.
pub open spec fn spec_variant_name(v: ValueModel) -> Seq<char> {
    match v {
        ValueModel::Nothing(_) => "nothing"@,
        ValueModel::Bool(_, _) => "bool"@,
        ValueModel::Int(_, _) => "int"@,
        ValueModel::Float(_, _) => "float"@,
        ValueModel::Str(_, _) => "string"@,
        ValueModel::Binary(_, _) => "binary"@,
        ValueModel::Duration(_, _) => "duration"@,
        ValueModel::Filesize(_, _) => "filesize"@,
        ValueModel::Date(_, _) => "date"@,
        ValueModel::List(_, _) => "list"@,
        ValueModel::Record(_, _) => "record"@,
        ValueModel::CellPath(_, _) => "cell-path"@,
        ValueModel::Error(_, _) => "error"@,
        ValueModel::Closure(_) => "closure"@,
        ValueModel::Block(_) => "block"@,
        ValueModel::Range(_) => "range"@,
    }
}

impl TypedValue {
    /// The name of this value's variant, as shown in diagnostics.
    pub fn variant_name(&self) -> (r: &'static str)
        ensures
            r@ == spec_variant_name(self@),
    {
        match self {
            TypedValue::Nothing(_) => "nothing",
            TypedValue::Bool(_, _) => "bool",
            TypedValue::Int(_, _) => "int",
            TypedValue::Float(_, _) => "float",
            TypedValue::Str(_, _) => "string",
            TypedValue::Binary(_, _) => "binary",
            TypedValue::Duration(_, _) => "duration",
            TypedValue::Filesize(_, _) => "filesize",
            TypedValue::Date(_, _) => "date",
            TypedValue::List(_, _) => "list",
            TypedValue::Record(_, _) => "record",
            TypedValue::CellPath(_, _) => "cell-path",
            TypedValue::Error(_, _) => "error",
            TypedValue::Closure(_) => "closure",
            TypedValue::Block(_) => "block",
            TypedValue::Range(_) => "range",
        }
    }
}

} // verus!
