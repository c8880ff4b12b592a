//! The typed value a literal parses to: a non-empty ordered vector of one of
//! the twelve primitive kinds. Float elements are carried as their validated
//! literals; the transport layer converts them when a frame is built.

use vstd::prelude::*;
use crate::kinds::DataType;
use crate::numlit::is_float_lit;

verus! {

/// The mathematical value of one element, independent of machine width:
/// a boolean, a character string, an integer, or a float literal.
pub enum ElemVal {
    B(bool),
    S(Seq<char>),
    I(int),
    F(Seq<char>),
}

/// A tagged, non-empty vector of values sharing one kind. The kind is fixed
/// at construction and never coerced afterward.
#[derive(Debug, Clone, PartialEq)]
pub enum TypedValue {
    Bool(Vec<bool>),
    Str(Vec<String>),
    U8(Vec<u8>),
    U16(Vec<u16>),
    U32(Vec<u32>),
    U64(Vec<u64>),
    I8(Vec<i8>),
    I16(Vec<i16>),
    I32(Vec<i32>),
    I64(Vec<i64>),
    F32(Vec<String>),
    F64(Vec<String>),
}

impl TypedValue {
    /// The kind all elements share.
    pub open spec fn kind_of(self) -> DataType {
        match self {
            TypedValue::Bool(_) => DataType::Bool,
            TypedValue::Str(_) => DataType::Str,
            TypedValue::U8(_) => DataType::U8,
            TypedValue::U16(_) => DataType::U16,
            TypedValue::U32(_) => DataType::U32,
            TypedValue::U64(_) => DataType::U64,
            TypedValue::I8(_) => DataType::I8,
            TypedValue::I16(_) => DataType::I16,
            TypedValue::I32(_) => DataType::I32,
            TypedValue::I64(_) => DataType::I64,
            TypedValue::F32(_) => DataType::F32,
            TypedValue::F64(_) => DataType::F64,
        }
    }

    /// The elements as mathematical values, in order.
    pub open spec fn elems(self) -> Seq<ElemVal> {
        match self {
            TypedValue::Bool(v) => v@.map(|i: int, b: bool| ElemVal::B(b)),
            TypedValue::Str(v) => v@.map(|i: int, s: String| ElemVal::S(s@)),
            TypedValue::U8(v) => v@.map(|i: int, x: u8| ElemVal::I(x as int)),
            TypedValue::U16(v) => v@.map(|i: int, x: u16| ElemVal::I(x as int)),
            TypedValue::U32(v) => v@.map(|i: int, x: u32| ElemVal::I(x as int)),
            TypedValue::U64(v) => v@.map(|i: int, x: u64| ElemVal::I(x as int)),
            TypedValue::I8(v) => v@.map(|i: int, x: i8| ElemVal::I(x as int)),
            TypedValue::I16(v) => v@.map(|i: int, x: i16| ElemVal::I(x as int)),
            TypedValue::I32(v) => v@.map(|i: int, x: i32| ElemVal::I(x as int)),
            TypedValue::I64(v) => v@.map(|i: int, x: i64| ElemVal::I(x as int)),
            TypedValue::F32(v) => v@.map(|i: int, s: String| ElemVal::F(s@)),
            TypedValue::F64(v) => v@.map(|i: int, s: String| ElemVal::F(s@)),
        }
    }

    /// Well-formedness: at least one element, string elements non-empty,
    /// float elements valid literals.
    pub open spec fn wf(self) -> bool {
        self.elems().len() > 0 && match self {
            TypedValue::Str(v) => forall|i: int| 0 <= i < v@.len() ==> v@[i]@.len() > 0,
            TypedValue::F32(v) => forall|i: int| 0 <= i < v@.len() ==> is_float_lit(v@[i]@),
            TypedValue::F64(v) => forall|i: int| 0 <= i < v@.len() ==> is_float_lit(v@[i]@),
            _ => true,
        }
    }

    /// The number of elements.
    pub fn len(&self) -> (n: usize)
        ensures
            n == self.elems().len(),
    {
        match self {
            TypedValue::Bool(v) => v.len(),
            TypedValue::Str(v) => v.len(),
            TypedValue::U8(v) => v.len(),
            TypedValue::U16(v) => v.len(),
            TypedValue::U32(v) => v.len(),
            TypedValue::U64(v) => v.len(),
            TypedValue::I8(v) => v.len(),
            TypedValue::I16(v) => v.len(),
            TypedValue::I32(v) => v.len(),
            TypedValue::I64(v) => v.len(),
            TypedValue::F32(v) => v.len(),
            TypedValue::F64(v) => v.len(),
        }
    }

    /// The kind tag, as executable code.
    pub fn kind(&self) -> (k: DataType)
        ensures
            k == self.kind_of(),
    {
        match self {
            TypedValue::Bool(_) => DataType::Bool,
            TypedValue::Str(_) => DataType::Str,
            TypedValue::U8(_) => DataType::U8,
            TypedValue::U16(_) => DataType::U16,
            TypedValue::U32(_) => DataType::U32,
            TypedValue::U64(_) => DataType::U64,
            TypedValue::I8(_) => DataType::I8,
            TypedValue::I16(_) => DataType::I16,
            TypedValue::I32(_) => DataType::I32,
            TypedValue::I64(_) => DataType::I64,
            TypedValue::F32(_) => DataType::F32,
            TypedValue::F64(_) => DataType::F64,
        }
    }
}

} // verus!
