//! Target shapes for the path deserializer.
//!
//! The deserializer is polymorphic over the shapes a handler can ask for:
//! a bare scalar, a fixed-arity sequence, a keyed map, or a record with
//! named fields. A target supplies a descriptor of its shape; element
//! positions that no supported primitive covers (an aggregate nested where
//! a primitive is expected) are described as unsupported and carry the name
//! reported by [`crate::errors::ErrorKind::UnsupportedType`].

use vstd::prelude::*;
use vstd::string::StringExecFns;

verus! {

/// Type of one primitive decoding position.
#[derive(Debug)]
pub enum ElemType {
    /// Unsigned decimal integer.
    U64,
    /// Decoded text, taken verbatim.
    Text,
    /// An aggregate the decoder does not support at this position, under
    /// the name the target reports for it.
    Unsupported { name: String },
}

/// Mathematical mirror of [`ElemType`].
pub enum ElemTypeView {
    U64,
    Text,
    Unsupported { name: Seq<char> },
}

impl View for ElemType {
    type V = ElemTypeView;

    open spec fn view(&self) -> ElemTypeView {
        match self {
            ElemType::U64 => ElemTypeView::U64,
            ElemType::Text => ElemTypeView::Text,
            ElemType::Unsupported { name } => ElemTypeView::Unsupported { name: name@ },
        }
    }
}

/// The rendered name of the type at this position, as it appears in parse
/// error reports.
pub open spec fn spec_elem_name(t: ElemTypeView) -> Seq<char> {
    match t {
        ElemTypeView::U64 => "u64"@,
        ElemTypeView::Text => "String"@,
        ElemTypeView::Unsupported { name } => name,
    }
}

impl ElemType {
    /// The rendered name of this type (see [`spec_elem_name`]).
    pub fn elem_name(&self) -> (r: String)
        ensures
            r@ == spec_elem_name(self@),
    {
        match self {
            ElemType::U64 => String::from_str("u64"),
            ElemType::Text => String::from_str("String"),
            ElemType::Unsupported { name } => name.clone(),
        }
    }
}

/// Descriptor of the shape a target type asks the deserializer for.
#[derive(Debug)]
pub enum Target {
    /// Exactly one capture, parsed as the given primitive.
    Scalar(ElemType),
    /// Captures consumed in store order; arity must equal the length.
    Sequence(Vec<ElemType>),
    /// All captures accepted, each value parsed as the given primitive.
    KeyedMap(ElemType),
    /// Captures matched to fields by name; arity must equal field count.
    Record(Vec<(String, ElemType)>),
}

/// Mathematical mirror of [`Target`].
pub enum TargetView {
    Scalar(ElemTypeView),
    Sequence(Seq<ElemTypeView>),
    KeyedMap(ElemTypeView),
    Record(Seq<(Seq<char>, ElemTypeView)>),
}

impl View for Target {
    type V = TargetView;

    open spec fn view(&self) -> TargetView {
        match self {
            Target::Scalar(t) => TargetView::Scalar(t@),
            Target::Sequence(ts) => TargetView::Sequence(
                ts@.map(|i: int, t: ElemType| t@),
            ),
            Target::KeyedMap(t) => TargetView::KeyedMap(t@),
            Target::Record(fs) => TargetView::Record(
                fs@.map(|i: int, f: (String, ElemType)| (f.0@, f.1@)),
            ),
        }
    }
}

/// One decoded primitive.
#[derive(Debug)]
pub enum PrimValue {
    U64(u64),
    Text(String),
}

/// Mathematical mirror of [`PrimValue`].
pub enum PrimValueView {
    U64(u64),
    Text(Seq<char>),
}

impl View for PrimValue {
    type V = PrimValueView;

    open spec fn view(&self) -> PrimValueView {
        match self {
            PrimValue::U64(v) => PrimValueView::U64(*v),
            PrimValue::Text(s) => PrimValueView::Text(s@),
        }
    }
}

/// A capture set decoded into a target shape.
#[derive(Debug)]
pub enum Decoded {
    Scalar(PrimValue),
    Sequence(Vec<PrimValue>),
    KeyedMap(Vec<(String, PrimValue)>),
    Record(Vec<(String, PrimValue)>),
}

/// Mathematical mirror of [`Decoded`].
pub enum DecodedView {
    Scalar(PrimValueView),
    Sequence(Seq<PrimValueView>),
    KeyedMap(Seq<(Seq<char>, PrimValueView)>),
    Record(Seq<(Seq<char>, PrimValueView)>),
}

impl View for Decoded {
    type V = DecodedView;

    open spec fn view(&self) -> DecodedView {
        match self {
            Decoded::Scalar(v) => DecodedView::Scalar(v@),
            Decoded::Sequence(vs) => DecodedView::Sequence(
                vs@.map(|i: int, v: PrimValue| v@),
            ),
            Decoded::KeyedMap(kvs) => DecodedView::KeyedMap(
                kvs@.map(|i: int, kv: (String, PrimValue)| (kv.0@, kv.1@)),
            ),
            Decoded::Record(kvs) => DecodedView::Record(
                kvs@.map(|i: int, kv: (String, PrimValue)| (kv.0@, kv.1@)),
            ),
        }
    }
}

} // verus!
