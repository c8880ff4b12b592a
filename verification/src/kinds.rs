//! The closed set of primitive value kinds and their canonical names.

use vstd::prelude::*;
use crate::text::str_eq;

verus! {

/// The twelve primitive kinds a parameter value can have.
#[derive(Clone, Copy, Debug, PartialEq, Eq, Structural)]
pub enum DataType {
    Bool,
    Str,
    U8,
    U16,
    U32,
    U64,
    I8,
    I16,
    I32,
    I64,
    F32,
    F64,
}

impl DataType {
    /// The canonical lowercase name, as it appears in batch tables.
    pub open spec fn name_spec(self) -> Seq<char> {
        match self {
            DataType::Bool => "bool"@,
            DataType::Str => "string"@,
            DataType::U8 => "u8"@,
            DataType::U16 => "u16"@,
            DataType::U32 => "u32"@,
            DataType::U64 => "u64"@,
            DataType::I8 => "i8"@,
            DataType::I16 => "i16"@,
            DataType::I32 => "i32"@,
            DataType::I64 => "i64"@,
            DataType::F32 => "f32"@,
            DataType::F64 => "f64"@,
        }
    }

    /// The kind a textual name denotes, if any.
    pub open spec fn of_name_spec(s: Seq<char>) -> Option<DataType> {
        if s == "bool"@ {
            Some(DataType::Bool)
        } else if s == "string"@ {
            Some(DataType::Str)
        } else if s == "u8"@ {
            Some(DataType::U8)
        } else if s == "u16"@ {
            Some(DataType::U16)
        } else if s == "u32"@ {
            Some(DataType::U32)
        } else if s == "u64"@ {
            Some(DataType::U64)
        } else if s == "i8"@ {
            Some(DataType::I8)
        } else if s == "i16"@ {
            Some(DataType::I16)
        } else if s == "i32"@ {
            Some(DataType::I32)
        } else if s == "i64"@ {
            Some(DataType::I64)
        } else if s == "f32"@ {
            Some(DataType::F32)
        } else if s == "f64"@ {
            Some(DataType::F64)
        } else {
            None
        }
    }

    /// Looks a kind up by its canonical name.
    pub fn from_name(s: &str) -> (r: Option<DataType>)
        ensures
            r == Self::of_name_spec(s@),
    {
        if str_eq(s, "bool") {
            Some(DataType::Bool)
        } else if str_eq(s, "string") {
            Some(DataType::Str)
        } else if str_eq(s, "u8") {
            Some(DataType::U8)
        } else if str_eq(s, "u16") {
            Some(DataType::U16)
        } else if str_eq(s, "u32") {
            Some(DataType::U32)
        } else if str_eq(s, "u64") {
            Some(DataType::U64)
        } else if str_eq(s, "i8") {
            Some(DataType::I8)
        } else if str_eq(s, "i16") {
            Some(DataType::I16)
        } else if str_eq(s, "i32") {
            Some(DataType::I32)
        } else if str_eq(s, "i64") {
            Some(DataType::I64)
        } else if str_eq(s, "f32") {
            Some(DataType::F32)
        } else if str_eq(s, "f64") {
            Some(DataType::F64)
        } else {
            None
        }
    }

    /// The canonical name as a string slice.
    pub fn name(self) -> (r: &'static str)
        ensures
            r@ == self.name_spec(),
    {
        match self {
            DataType::Bool => "bool",
            DataType::Str => "string",
            DataType::U8 => "u8",
            DataType::U16 => "u16",
            DataType::U32 => "u32",
            DataType::U64 => "u64",
            DataType::I8 => "i8",
            DataType::I16 => "i16",
            DataType::I32 => "i32",
            DataType::I64 => "i64",
            DataType::F32 => "f32",
            DataType::F64 => "f64",
        }
    }
}

/// The canonical name of a kind always maps back to that kind.
pub proof fn lemma_name_round_trip(k: DataType)
    ensures
        DataType::of_name_spec(k.name_spec()) == Some(k),
{
    reveal_strlit("bool");
    reveal_strlit("string");
    reveal_strlit("u8");
    reveal_strlit("u16");
    reveal_strlit("u32");
    reveal_strlit("u64");
    reveal_strlit("i8");
    reveal_strlit("i16");
    reveal_strlit("i32");
    reveal_strlit("i64");
    reveal_strlit("f32");
    reveal_strlit("f64");
    assert(("bool"@).len() == 4);
    assert(("string"@).len() == 6);
    assert(("u8"@).len() == 2 && ("u8"@)[0] == 'u');
    assert(("i8"@).len() == 2 && ("i8"@)[0] == 'i');
    assert(("u16"@).len() == 3 && ("u16"@)[0] == 'u' && ("u16"@)[1] == '1');
    assert(("u32"@).len() == 3 && ("u32"@)[0] == 'u' && ("u32"@)[1] == '3');
    assert(("u64"@).len() == 3 && ("u64"@)[0] == 'u' && ("u64"@)[1] == '6');
    assert(("i16"@).len() == 3 && ("i16"@)[0] == 'i' && ("i16"@)[1] == '1');
    assert(("i32"@).len() == 3 && ("i32"@)[0] == 'i' && ("i32"@)[1] == '3');
    assert(("i64"@).len() == 3 && ("i64"@)[0] == 'i' && ("i64"@)[1] == '6');
    assert(("f32"@).len() == 3 && ("f32"@)[0] == 'f' && ("f32"@)[1] == '3');
    assert(("f64"@).len() == 3 && ("f64"@)[0] == 'f' && ("f64"@)[1] == '6');
}

} // verus!
