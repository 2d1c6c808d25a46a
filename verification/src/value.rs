//! Decoded values.

use std::collections::HashMap;
use std::sync::Arc;
use vstd::prelude::*;

verus! {

/// The kind of a value, with the sizes that a kind carries.
pub enum EnumType {
    Void,
    Bool,
    U8,
    U16,
    U32,
    U64,
    I8,
    I16,
    I32,
    I64,
    F32,
    F64,
    Str(u64),
    Bin(u64),
    Arr(u32, u64),
    Mapping(u32, u64),
    Struct(u64),
}

/// A value as the generic read hands it out.  A floating-point number is
/// held as its bit pattern.
#[derive(Debug)]
pub enum EnumValue {
    Void,
    Bool(bool),
    U8(u8),
    U16(u16),
    U32(u32),
    U64(u64),
    U128(u128),
    I8(i8),
    I16(i16),
    I32(i32),
    I64(i64),
    I128(i128),
    /// A single-precision number, as its 32 bits.
    F32(u32),
    /// A double-precision number, as its 64 bits.
    F64(u64),
    Str(String),
    Bin(Vec<u8>),
    Arr(Arc<Vec<EnumValue>>),
    Mapping(HashMap<Arc<EnumValue>, Arc<EnumValue>>),
    Struct(Arc<StructValue>),
}

/// A structure: its type hash and its fields in order.
#[derive(Debug)]
pub struct StructValue {
    pub hash: u32,
    pub fields: Vec<FieldValue>,
}

/// A named field of a structure.
#[derive(Debug)]
pub struct FieldValue {
    pub name: String,
    pub fvalue: EnumValue,
}

/// The mathematical content of a value that is not made of other values.
pub enum Scalar {
    Void,
    Bool(bool),
    /// An integer, with the width in bits and the signedness of the variant
    /// that holds it.
    Int { bits: nat, signed: bool, value: int },
    F32(u32),
    F64(u64),
    Str(Seq<char>),
    Bin(Seq<u8>),
    /// An array, a mapping or a structure.
    Composite,
}

impl EnumValue {
    /// What a value holds, for all but arrays, mappings and structures.
    pub open spec fn scalar(&self) -> Scalar {
        match self {
            EnumValue::Void => Scalar::Void,
            EnumValue::Bool(b) => Scalar::Bool(*b),
            EnumValue::U8(v) => Scalar::Int { bits: 8, signed: false, value: *v as int },
            EnumValue::U16(v) => Scalar::Int { bits: 16, signed: false, value: *v as int },
            EnumValue::U32(v) => Scalar::Int { bits: 32, signed: false, value: *v as int },
            EnumValue::U64(v) => Scalar::Int { bits: 64, signed: false, value: *v as int },
            EnumValue::U128(v) => Scalar::Int { bits: 128, signed: false, value: *v as int },
            EnumValue::I8(v) => Scalar::Int { bits: 8, signed: true, value: *v as int },
            EnumValue::I16(v) => Scalar::Int { bits: 16, signed: true, value: *v as int },
            EnumValue::I32(v) => Scalar::Int { bits: 32, signed: true, value: *v as int },
            EnumValue::I64(v) => Scalar::Int { bits: 64, signed: true, value: *v as int },
            EnumValue::I128(v) => Scalar::Int { bits: 128, signed: true, value: *v as int },
            EnumValue::F32(b) => Scalar::F32(*b),
            EnumValue::F64(b) => Scalar::F64(*b),
            EnumValue::Str(s) => Scalar::Str(s@),
            EnumValue::Bin(b) => Scalar::Bin(b@),
            _ => Scalar::Composite,
        }
    }
}

} // verus!
