//! The tagged type descriptions a contract interface declares, and the
//! structured values that travel through the canonical binary encoding.

use vstd::prelude::*;

verus! {

/// Spec-level model of [`TypeSpec`].
pub enum TypeModel {
    Bool,
    U8,
    U16,
    U32,
    U64,
    U128,
    AccountId,
    Bytes,
    Composite(Seq<TypeModel>),
}

/// A declared type of a method parameter, return value or event field:
/// primitives, fixed-width account identifiers, length-prefixed byte
/// sequences, and composites of further types.
#[derive(Debug, PartialEq, Eq)]
pub enum TypeSpec {
    Bool,
    U8,
    U16,
    U32,
    U64,
    U128,
    AccountId,
    Bytes,
    Composite(Vec<TypeSpec>),
}

/// The spec-level model of a declared type.
pub open spec fn type_model(t: TypeSpec) -> TypeModel
    decreases t,
{
    match t {
        TypeSpec::Bool => TypeModel::Bool,
        TypeSpec::U8 => TypeModel::U8,
        TypeSpec::U16 => TypeModel::U16,
        TypeSpec::U32 => TypeModel::U32,
        TypeSpec::U64 => TypeModel::U64,
        TypeSpec::U128 => TypeModel::U128,
        TypeSpec::AccountId => TypeModel::AccountId,
        TypeSpec::Bytes => TypeModel::Bytes,
        TypeSpec::Composite(fields) => TypeModel::Composite(
            Seq::new(
                fields@.len(),
                |i: int|
                    if 0 <= i < fields@.len() {
                        type_model(fields@[i])
                    } else {
                        TypeModel::Bool
                    },
            ),
        ),
    }
}

impl DeepView for TypeSpec {
    type V = TypeModel;

    open spec fn deep_view(&self) -> TypeModel {
        type_model(*self)
    }
}

/// The models of a list of declared types.
pub open spec fn type_models(ts: Seq<TypeSpec>) -> Seq<TypeModel> {
    Seq::new(
        ts.len(),
        |i: int| if 0 <= i < ts.len() { type_model(ts[i]) } else { TypeModel::Bool },
    )
}


/// Spec-level model of [`Value`].
pub enum ValueModel {
    Bool(bool),
    U8(u8),
    U16(u16),
    U32(u32),
    U64(u64),
    U128(u128),
    AccountId(Seq<u8>),
    Bytes(Seq<u8>),
    Composite(Seq<ValueModel>),
    Unit,
}

/// A structured, type-tagged value: the result of parsing a textual
/// argument or of decoding returned bytes. `Unit` stands for the absence of
/// a declared return type.
#[derive(Debug, PartialEq, Eq)]
pub enum Value {
    Bool(bool),
    U8(u8),
    U16(u16),
    U32(u32),
    U64(u64),
    U128(u128),
    AccountId(Vec<u8>),
    Bytes(Vec<u8>),
    Composite(Vec<Value>),
    Unit,
}

/// The spec-level model of a structured value.
pub open spec fn value_model(v: Value) -> ValueModel
    decreases v,
{
    match v {
        Value::Bool(b) => ValueModel::Bool(b),
        Value::U8(x) => ValueModel::U8(x),
        Value::U16(x) => ValueModel::U16(x),
        Value::U32(x) => ValueModel::U32(x),
        Value::U64(x) => ValueModel::U64(x),
        Value::U128(x) => ValueModel::U128(x),
        Value::AccountId(bytes) => ValueModel::AccountId(bytes@),
        Value::Bytes(bytes) => ValueModel::Bytes(bytes@),
        Value::Composite(fields) => ValueModel::Composite(
            Seq::new(
                fields@.len(),
                |i: int|
                    if 0 <= i < fields@.len() {
                        value_model(fields@[i])
                    } else {
                        ValueModel::Unit
                    },
            ),
        ),
        Value::Unit => ValueModel::Unit,
    }
}

impl DeepView for Value {
    type V = ValueModel;

    open spec fn deep_view(&self) -> ValueModel {
        value_model(*self)
    }
}

/// Whether value `v` inhabits declared type `t`. An account identifier is
/// exactly 32 bytes; a byte sequence must fit the compact length prefix.
pub open spec fn has_type(v: ValueModel, t: TypeModel) -> bool
    decreases v,
{
    match (v, t) {
        (ValueModel::Bool(_), TypeModel::Bool) => true,
        (ValueModel::U8(_), TypeModel::U8) => true,
        (ValueModel::U16(_), TypeModel::U16) => true,
        (ValueModel::U32(_), TypeModel::U32) => true,
        (ValueModel::U64(_), TypeModel::U64) => true,
        (ValueModel::U128(_), TypeModel::U128) => true,
        (ValueModel::AccountId(s), TypeModel::AccountId) => s.len() == 32,
        (ValueModel::Bytes(s), TypeModel::Bytes) => s.len() <= u32::MAX,
        (ValueModel::Composite(vs), TypeModel::Composite(ts)) => vs.len() == ts.len()
            && (forall|i: int| 0 <= i < vs.len() ==> has_type(#[trigger] vs[i], ts[i])),
        _ => false,
    }
}

} // verus!
