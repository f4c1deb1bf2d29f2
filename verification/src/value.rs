//! Tagged field values and their mathematical form.

use vstd::prelude::*;

verus! {

/// A field value as it is held in a scope's storage.
///
/// Floating-point values are held as the raw bit pattern of an `f64`
/// (as produced by `f64::to_bits`), so that the store itself stays in
/// integer arithmetic; callers convert at the boundary.
#[derive(Debug, PartialEq, Eq)]
pub enum FieldValue {
    I64(i64),
    U64(u64),
    F64Bits(u64),
    Bool(bool),
    Str(String),
}

/// The mathematical form of a [`FieldValue`]: a string is its sequence
/// of characters. Contracts speak of values in this form.
pub enum ValueRepr {
    I64(i64),
    U64(u64),
    F64Bits(u64),
    Bool(bool),
    Str(Seq<char>),
}

impl View for FieldValue {
    type V = ValueRepr;

    open spec fn view(&self) -> ValueRepr {
        match self {
            FieldValue::I64(v) => ValueRepr::I64(*v),
            FieldValue::U64(v) => ValueRepr::U64(*v),
            FieldValue::F64Bits(v) => ValueRepr::F64Bits(*v),
            FieldValue::Bool(v) => ValueRepr::Bool(*v),
            FieldValue::Str(s) => ValueRepr::Str(s@),
        }
    }
}

impl Clone for FieldValue {
    fn clone(&self) -> (res: Self)
        ensures
            res == *self,
    {
        match self {
            FieldValue::I64(v) => FieldValue::I64(*v),
            FieldValue::U64(v) => FieldValue::U64(*v),
            FieldValue::F64Bits(v) => FieldValue::F64Bits(*v),
            FieldValue::Bool(v) => FieldValue::Bool(*v),
            FieldValue::Str(s) => FieldValue::Str(s.clone()),
        }
    }
}

/// One value handed in by the host's push-style field visitor, typed by
/// kind. A `Debug` input carries the rendered debug form of a value of
/// some other type and goes through name normalization when applied.
#[derive(Debug)]
pub enum FieldInput {
    I64(i64),
    U64(u64),
    F64Bits(u64),
    Bool(bool),
    Str(String),
    Debug(String),
}

/// The string held by a value, where the value is a string.
pub open spec fn as_str_repr(v: ValueRepr) -> Option<Seq<char>> {
    match v {
        ValueRepr::Str(s) => Some(s),
        _ => None,
    }
}

} // verus!
