//! The value codec: one untyped literal string becomes a typed scalar or
//! vector of one of the twelve primitive kinds.
//!
//! Grammar: whitespace is stripped everywhere first; a stripped string of the
//! shape `[e1,e2,...]` is a comma-separated vector whose interior may hold no
//! further bracket; any other occurrence of a bracket is malformed; anything
//! else is a single scalar element. An empty element is malformed for every
//! kind. Each element is read by its kind's literal grammar, range checks
//! included; out of range is malformed, never truncation or wraparound.

use vstd::prelude::*;
use crate::errors::CliError;
use crate::kinds::DataType;
use crate::numlit::{
    bool_elem_val, int_elem_val, is_float_lit, check_float_lit, parse_elem_signed,
    parse_elem_unsigned,
};
use crate::text::{strip_ws, strip_chars, str_chars, chars_eq_str, chars_to_string};
use crate::value::{ElemVal, TypedValue};

verus! {

/// The pieces of a comma-separated interior, in order. Splitting the empty
/// string gives one empty piece.
pub open spec fn split_commas(s: Seq<char>) -> Seq<Seq<char>>
    decreases s.len(),
{
    if s.len() == 0 {
        seq![Seq::<char>::empty()]
    } else if s.last() == ',' {
        split_commas(s.drop_last()).push(Seq::<char>::empty())
    } else {
        let r = split_commas(s.drop_last());
        r.update(r.len() - 1, r.last().push(s.last()))
    }
}

pub proof fn lemma_split_commas_len(s: Seq<char>)
    ensures
        split_commas(s).len() >= 1,
    decreases s.len(),
{
    if s.len() > 0 {
        lemma_split_commas_len(s.drop_last());
    }
}

/// The element literals of an already-stripped string: the interior pieces
/// of a bracketed vector, or the whole string as one scalar. `None` marks a
/// malformed shape: a bracket anywhere it may not stand, an empty element,
/// or an empty string.
pub open spec fn elements_of_stripped(t: Seq<char>) -> Option<Seq<Seq<char>>> {
    if t.len() >= 2 && t[0] == '[' && t[t.len() - 1] == ']' {
        let inner = t.subrange(1, t.len() - 1);
        if inner.contains('[') || inner.contains(']') {
            None
        } else {
            let parts = split_commas(inner);
            if exists|i: int| 0 <= i < parts.len() && parts[i].len() == 0 {
                None
            } else {
                Some(parts)
            }
        }
    } else if t.contains('[') || t.contains(']') {
        None
    } else if t.len() == 0 {
        None
    } else {
        Some(seq![t])
    }
}

/// The element literals of a raw argument string.
pub open spec fn elements_of(raw: Seq<char>) -> Option<Seq<Seq<char>>> {
    elements_of_stripped(strip_ws(raw))
}

/// Whatever shape the elements take, there is at least one, and none is
/// empty.
pub proof fn lemma_elements_shape(raw: Seq<char>)
    ensures
        match elements_of(raw) {
            Some(els) => els.len() >= 1 && forall|i: int| 0 <= i < els.len() ==> els[i].len() > 0,
            None => true,
        },
{
    let t = strip_ws(raw);
    if t.len() >= 2 && t[0] == '[' && t[t.len() - 1] == ']' {
        lemma_split_commas_len(t.subrange(1, t.len() - 1));
    }
}

/// The value of one element literal under a kind: its boolean, its verbatim
/// characters, its range-checked integer, or its float literal.
pub open spec fn elem_of(s: Seq<char>, k: DataType) -> Option<ElemVal> {
    match k {
        DataType::Bool => match bool_elem_val(s) {
            Some(b) => Some(ElemVal::B(b)),
            None => None,
        },
        DataType::Str => if s.len() > 0 {
            Some(ElemVal::S(s))
        } else {
            None
        },
        DataType::U8 => int_elem(s, 0, 0xff, false),
        DataType::U16 => int_elem(s, 0, 0xffff, false),
        DataType::U32 => int_elem(s, 0, 0xffffffff, false),
        DataType::U64 => int_elem(s, 0, 0xffffffffffffffff, false),
        DataType::I8 => int_elem(s, -0x80, 0x7f, true),
        DataType::I16 => int_elem(s, -0x8000, 0x7fff, true),
        DataType::I32 => int_elem(s, -0x80000000, 0x7fffffff, true),
        DataType::I64 => int_elem(s, -0x8000000000000000, 0x7fffffffffffffff, true),
        DataType::F32 => if is_float_lit(s) {
            Some(ElemVal::F(s))
        } else {
            None
        },
        DataType::F64 => if is_float_lit(s) {
            Some(ElemVal::F(s))
        } else {
            None
        },
    }
}

pub open spec fn int_elem(s: Seq<char>, lo: int, hi: int, allow_neg: bool) -> Option<ElemVal> {
    match int_elem_val(s, lo, hi, allow_neg) {
        Some(v) => Some(ElemVal::I(v)),
        None => None,
    }
}

/// What a raw string parses to under a kind: the values of its elements in
/// order, or `None` where the shape or any element is malformed.
pub open spec fn parse_spec(raw: Seq<char>, k: DataType) -> Option<Seq<ElemVal>> {
    match elements_of(raw) {
        None => None,
        Some(els) => if forall|i: int| 0 <= i < els.len() ==> elem_of(#[trigger] els[i], k) is Some {
            Some(Seq::new(els.len(), |i: int| elem_of(els[i], k).unwrap()))
        } else {
            None
        },
    }
}

/// The views of a sequence of character vectors, elementwise.
pub open spec fn views_of(els: Seq<Vec<char>>) -> Seq<Seq<char>> {
    Seq::new(els.len(), |i: int| els[i]@)
}

/// Splits an already-stripped literal into its element literals.
fn split_elements(t: Vec<char>) -> (r: Option<Vec<Vec<char>>>)
    ensures
        match r {
            Some(els) => elements_of_stripped(t@) == Some(views_of(els@)),
            None => elements_of_stripped(t@) is None,
        },
{
    let n: usize = t.len();
    let bracketed: bool = n >= 2 && t[0] == '[' && t[n - 1] == ']';
    if bracketed {
        let ghost inner: Seq<char> = t@.subrange(1, t@.len() - 1);
        let mut parts: Vec<Vec<char>> = Vec::new();
        let mut cur: Vec<char> = Vec::new();
        let mut i: usize = 1;
        while i < n - 1
            invariant
                1 <= i <= n - 1,
                n == t@.len(),
                n >= 2,
                t@[0] == '[',
                t@[t@.len() - 1] == ']',
                inner == t@.subrange(1, t@.len() - 1),
                forall|j: int| 0 <= j < i - 1 ==> inner[j] != '[' && inner[j] != ']',
                views_of(parts@).push(cur@) == split_commas(inner.subrange(0, i - 1)),
            decreases n - i,
        {
            let c: char = t[i];
            proof {
                assert(inner[i - 1] == t@[i as int]);
                crate::text::lemma_subrange_step(inner, i - 1);
            }
            if c == '[' || c == ']' {
                proof {
                    assert(inner.contains(c)) by {
                        assert(inner[i - 1] == c);
                    }
                }
                return None;
            }
            let ghost old_parts: Seq<Seq<char>> = views_of(parts@);
            let ghost old_cur: Seq<char> = cur@;
            if c == ',' {
                parts.push(cur);
                cur = Vec::new();
                proof {
                    assert(views_of(parts@) =~= old_parts.push(old_cur));
                    assert(views_of(parts@).push(cur@) =~= split_commas(
                        inner.subrange(0, i as int),
                    ));
                }
            } else {
                cur.push(c);
                proof {
                    let r = split_commas(inner.subrange(0, i - 1));
                    assert(r == old_parts.push(old_cur));
                    assert(r.last() == old_cur);
                    assert(r.update(r.len() - 1, old_cur.push(c)) =~= old_parts.push(
                        old_cur.push(c),
                    ));
                    assert(views_of(parts@).push(cur@) =~= old_parts.push(old_cur.push(c)));
                }
            }
            i = i + 1;
        }
        let ghost old_parts: Seq<Seq<char>> = views_of(parts@);
        let ghost old_cur: Seq<char> = cur@;
        parts.push(cur);
        proof {
            assert(inner.subrange(0, inner.len() as int) =~= inner);
            assert(views_of(parts@) =~= old_parts.push(old_cur));
            assert(views_of(parts@) == split_commas(inner));
        }
        // An empty element is malformed for every kind.
        let mut k: usize = 0;
        while k < parts.len()
            invariant
                k <= parts@.len(),
                views_of(parts@) == split_commas(inner),
                inner == t@.subrange(1, t@.len() - 1),
                n == t@.len(),
                n >= 2,
                t@[0] == '[',
                t@[t@.len() - 1] == ']',
                forall|j: int| 0 <= j < inner.len() ==> inner[j] != '[' && inner[j] != ']',
                forall|j: int| 0 <= j < k ==> views_of(parts@)[j].len() > 0,
            decreases parts@.len() - k,
        {
            if parts[k].len() == 0 {
                proof {
                    assert(views_of(parts@)[k as int].len() == 0);
                    assert(!inner.contains('[') && !inner.contains(']'));
                }
                return None;
            }
            k = k + 1;
        }
        proof {
            assert(!inner.contains('[') && !inner.contains(']'));
        }
        Some(parts)
    } else {
        // No outer bracket pair: any bracket at all is unmatched or nested.
        let mut i: usize = 0;
        while i < t.len()
            invariant
                i <= t@.len(),
                n == t@.len(),
                !(t@.len() >= 2 && t@[0] == '[' && t@[t@.len() - 1] == ']'),
                forall|j: int| 0 <= j < i ==> t@[j] != '[' && t@[j] != ']',
            decreases t@.len() - i,
        {
            let c: char = t[i];
            if c == '[' || c == ']' {
                proof {
                    assert(t@.contains(c)) by {
                        assert(t@[i as int] == c);
                    }
                }
                return None;
            }
            i = i + 1;
        }
        proof {
            assert(!t@.contains('[') && !t@.contains(']'));
        }
        if t.len() == 0 {
            return None;
        }
        let ghost tview: Seq<char> = t@;
        let mut one: Vec<Vec<char>> = Vec::new();
        one.push(t);
        proof {
            assert(views_of(one@) =~= seq![tview]);
        }
        Some(one)
    }
}

/// Parses one untyped argument string into a typed scalar or vector of the
/// given kind. Fails with `MalformedValue`, and only with it, exactly where
/// the grammar or an element's literal form or range is violated; no
/// transport state is touched either way.
pub fn parse_value_str(raw: &str, kind: DataType) -> (r: Result<TypedValue, CliError>)
    ensures
        match r {
            Ok(tv) => tv.wf() && tv.kind_of() == kind && parse_spec(raw@, kind) == Some(
                tv.elems(),
            ),
            Err(e) => e == CliError::MalformedValue && parse_spec(raw@, kind) is None,
        },
{
    let cs: Vec<char> = str_chars(raw);
    let stripped: Vec<char> = strip_chars(&cs);
    proof {
        assert(stripped@ == strip_ws(raw@));
    }
    let els: Vec<Vec<char>> = match split_elements(stripped) {
        Some(e) => e,
        None => {
            return Err(CliError::MalformedValue);
        },
    };
    let ghost ems: Seq<Seq<char>> = views_of(els@);
    proof {
        assert(elements_of(raw@) == Some(ems));
        lemma_elements_shape(raw@);
    }
    let n: usize = els.len();
    match kind {
        DataType::Bool => {
            let mut out: Vec<bool> = Vec::new();
            let mut i: usize = 0;
            while i < n
                invariant
                    i <= n,
                    n == ems.len(),
                    ems == views_of(els@),
                    n == els@.len(),
                    elements_of(raw@) == Some(ems),
                    out@.len() == i,
                    kind == DataType::Bool,
                    forall|j: int| 0 <= j < i ==> elem_of(ems[j], DataType::Bool) == Some(
                        ElemVal::B(out@[j]),
                    ),
                decreases n - i,
            {
                let el: &Vec<char> = &els[i];
                if chars_eq_str(el, "true") {
                    out.push(true);
                } else if chars_eq_str(el, "false") {
                    out.push(false);
                } else {
                    proof {
                        assert(elem_of(ems[i as int], kind) is None);
                    }
                    return Err(CliError::MalformedValue);
                }
                i = i + 1;
            }
            let tv = TypedValue::Bool(out);
            proof {
                assert(tv.elems() =~= Seq::new(ems.len(), |j: int| elem_of(ems[j], kind).unwrap()));
            }
            Ok(tv)
        },
        DataType::Str => {
            let mut out: Vec<String> = Vec::new();
            let mut i: usize = 0;
            while i < n
                invariant
                    i <= n,
                    n == ems.len(),
                    ems == views_of(els@),
                    n == els@.len(),
                    elements_of(raw@) == Some(ems),
                    forall|j: int| 0 <= j < ems.len() ==> ems[j].len() > 0,
                    out@.len() == i,
                    kind == DataType::Str,
                    forall|j: int| 0 <= j < i ==> elem_of(ems[j], DataType::Str) == Some(
                        ElemVal::S(out@[j]@),
                    ),
                    forall|j: int| 0 <= j < i ==> out@[j]@.len() > 0,
                decreases n - i,
            {
                proof {
                    assert(ems[i as int].len() > 0);
                }
                let s: String = chars_to_string(&els[i]);
                out.push(s);
                i = i + 1;
            }
            let tv = TypedValue::Str(out);
            proof {
                assert(tv.elems() =~= Seq::new(ems.len(), |j: int| elem_of(ems[j], kind).unwrap()));
            }
            Ok(tv)
        },
        DataType::U8 => {
            let mut out: Vec<u8> = Vec::new();
            let mut i: usize = 0;
            while i < n
                invariant
                    i <= n,
                    n == ems.len(),
                    ems == views_of(els@),
                    n == els@.len(),
                    elements_of(raw@) == Some(ems),
                    out@.len() == i,
                    kind == DataType::U8,
                    forall|j: int| 0 <= j < i ==> elem_of(ems[j], DataType::U8) == Some(
                        ElemVal::I(out@[j] as int),
                    ),
                decreases n - i,
            {
                match parse_elem_unsigned(&els[i], 0xff) {
                    Some(v) => out.push(v as u8),
                    None => {
                        proof {
                            assert(elem_of(ems[i as int], kind) is None);
                        }
                        return Err(CliError::MalformedValue);
                    },
                }
                i = i + 1;
            }
            let tv = TypedValue::U8(out);
            proof {
                assert(tv.elems() =~= Seq::new(ems.len(), |j: int| elem_of(ems[j], kind).unwrap()));
            }
            Ok(tv)
        },
        DataType::U16 => {
            let mut out: Vec<u16> = Vec::new();
            let mut i: usize = 0;
            while i < n
                invariant
                    i <= n,
                    n == ems.len(),
                    ems == views_of(els@),
                    n == els@.len(),
                    elements_of(raw@) == Some(ems),
                    out@.len() == i,
                    kind == DataType::U16,
                    forall|j: int| 0 <= j < i ==> elem_of(ems[j], DataType::U16) == Some(
                        ElemVal::I(out@[j] as int),
                    ),
                decreases n - i,
            {
                match parse_elem_unsigned(&els[i], 0xffff) {
                    Some(v) => out.push(v as u16),
                    None => {
                        proof {
                            assert(elem_of(ems[i as int], kind) is None);
                        }
                        return Err(CliError::MalformedValue);
                    },
                }
                i = i + 1;
            }
            let tv = TypedValue::U16(out);
            proof {
                assert(tv.elems() =~= Seq::new(ems.len(), |j: int| elem_of(ems[j], kind).unwrap()));
            }
            Ok(tv)
        },
        DataType::U32 => {
            let mut out: Vec<u32> = Vec::new();
            let mut i: usize = 0;
            while i < n
                invariant
                    i <= n,
                    n == ems.len(),
                    ems == views_of(els@),
                    n == els@.len(),
                    elements_of(raw@) == Some(ems),
                    out@.len() == i,
                    kind == DataType::U32,
                    forall|j: int| 0 <= j < i ==> elem_of(ems[j], DataType::U32) == Some(
                        ElemVal::I(out@[j] as int),
                    ),
                decreases n - i,
            {
                match parse_elem_unsigned(&els[i], 0xffffffff) {
                    Some(v) => out.push(v as u32),
                    None => {
                        proof {
                            assert(elem_of(ems[i as int], kind) is None);
                        }
                        return Err(CliError::MalformedValue);
                    },
                }
                i = i + 1;
            }
            let tv = TypedValue::U32(out);
            proof {
                assert(tv.elems() =~= Seq::new(ems.len(), |j: int| elem_of(ems[j], kind).unwrap()));
            }
            Ok(tv)
        },
        DataType::U64 => {
            let mut out: Vec<u64> = Vec::new();
            let mut i: usize = 0;
            while i < n
                invariant
                    i <= n,
                    n == ems.len(),
                    ems == views_of(els@),
                    n == els@.len(),
                    elements_of(raw@) == Some(ems),
                    out@.len() == i,
                    kind == DataType::U64,
                    forall|j: int| 0 <= j < i ==> elem_of(ems[j], DataType::U64) == Some(
                        ElemVal::I(out@[j] as int),
                    ),
                decreases n - i,
            {
                match parse_elem_unsigned(&els[i], 0xffffffffffffffff) {
                    Some(v) => out.push(v),
                    None => {
                        proof {
                            assert(elem_of(ems[i as int], kind) is None);
                        }
                        return Err(CliError::MalformedValue);
                    },
                }
                i = i + 1;
            }
            let tv = TypedValue::U64(out);
            proof {
                assert(tv.elems() =~= Seq::new(ems.len(), |j: int| elem_of(ems[j], kind).unwrap()));
            }
            Ok(tv)
        },
        DataType::I8 => {
            let mut out: Vec<i8> = Vec::new();
            let mut i: usize = 0;
            while i < n
                invariant
                    i <= n,
                    n == ems.len(),
                    ems == views_of(els@),
                    n == els@.len(),
                    elements_of(raw@) == Some(ems),
                    out@.len() == i,
                    kind == DataType::I8,
                    forall|j: int| 0 <= j < i ==> elem_of(ems[j], DataType::I8) == Some(
                        ElemVal::I(out@[j] as int),
                    ),
                decreases n - i,
            {
                match parse_elem_signed(&els[i], -0x80, 0x7f) {
                    Some(v) => out.push(v as i8),
                    None => {
                        proof {
                            assert(elem_of(ems[i as int], kind) is None);
                        }
                        return Err(CliError::MalformedValue);
                    },
                }
                i = i + 1;
            }
            let tv = TypedValue::I8(out);
            proof {
                assert(tv.elems() =~= Seq::new(ems.len(), |j: int| elem_of(ems[j], kind).unwrap()));
            }
            Ok(tv)
        },
        DataType::I16 => {
            let mut out: Vec<i16> = Vec::new();
            let mut i: usize = 0;
            while i < n
                invariant
                    i <= n,
                    n == ems.len(),
                    ems == views_of(els@),
                    n == els@.len(),
                    elements_of(raw@) == Some(ems),
                    out@.len() == i,
                    kind == DataType::I16,
                    forall|j: int| 0 <= j < i ==> elem_of(ems[j], DataType::I16) == Some(
                        ElemVal::I(out@[j] as int),
                    ),
                decreases n - i,
            {
                match parse_elem_signed(&els[i], -0x8000, 0x7fff) {
                    Some(v) => out.push(v as i16),
                    None => {
                        proof {
                            assert(elem_of(ems[i as int], kind) is None);
                        }
                        return Err(CliError::MalformedValue);
                    },
                }
                i = i + 1;
            }
            let tv = TypedValue::I16(out);
            proof {
                assert(tv.elems() =~= Seq::new(ems.len(), |j: int| elem_of(ems[j], kind).unwrap()));
            }
            Ok(tv)
        },
        DataType::I32 => {
            let mut out: Vec<i32> = Vec::new();
            let mut i: usize = 0;
            while i < n
                invariant
                    i <= n,
                    n == ems.len(),
                    ems == views_of(els@),
                    n == els@.len(),
                    elements_of(raw@) == Some(ems),
                    out@.len() == i,
                    kind == DataType::I32,
                    forall|j: int| 0 <= j < i ==> elem_of(ems[j], DataType::I32) == Some(
                        ElemVal::I(out@[j] as int),
                    ),
                decreases n - i,
            {
                match parse_elem_signed(&els[i], -0x80000000, 0x7fffffff) {
                    Some(v) => out.push(v as i32),
                    None => {
                        proof {
                            assert(elem_of(ems[i as int], kind) is None);
                        }
                        return Err(CliError::MalformedValue);
                    },
                }
                i = i + 1;
            }
            let tv = TypedValue::I32(out);
            proof {
                assert(tv.elems() =~= Seq::new(ems.len(), |j: int| elem_of(ems[j], kind).unwrap()));
            }
            Ok(tv)
        },
        DataType::I64 => {
            let mut out: Vec<i64> = Vec::new();
            let mut i: usize = 0;
            while i < n
                invariant
                    i <= n,
                    n == ems.len(),
                    ems == views_of(els@),
                    n == els@.len(),
                    elements_of(raw@) == Some(ems),
                    out@.len() == i,
                    kind == DataType::I64,
                    forall|j: int| 0 <= j < i ==> elem_of(ems[j], DataType::I64) == Some(
                        ElemVal::I(out@[j] as int),
                    ),
                decreases n - i,
            {
                match parse_elem_signed(&els[i], -0x8000000000000000, 0x7fffffffffffffff) {
                    Some(v) => out.push(v),
                    None => {
                        proof {
                            assert(elem_of(ems[i as int], kind) is None);
                        }
                        return Err(CliError::MalformedValue);
                    },
                }
                i = i + 1;
            }
            let tv = TypedValue::I64(out);
            proof {
                assert(tv.elems() =~= Seq::new(ems.len(), |j: int| elem_of(ems[j], kind).unwrap()));
            }
            Ok(tv)
        },
        DataType::F32 => {
            let mut out: Vec<String> = Vec::new();
            let mut i: usize = 0;
            while i < n
                invariant
                    i <= n,
                    n == ems.len(),
                    ems == views_of(els@),
                    n == els@.len(),
                    elements_of(raw@) == Some(ems),
                    out@.len() == i,
                    kind == DataType::F32,
                    forall|j: int| 0 <= j < i ==> elem_of(ems[j], DataType::F32) == Some(
                        ElemVal::F(out@[j]@),
                    ),
                    forall|j: int| 0 <= j < i ==> is_float_lit(out@[j]@),
                decreases n - i,
            {
                if !check_float_lit(&els[i]) {
                    proof {
                        assert(elem_of(ems[i as int], kind) is None);
                    }
                    return Err(CliError::MalformedValue);
                }
                let s: String = chars_to_string(&els[i]);
                out.push(s);
                i = i + 1;
            }
            let tv = TypedValue::F32(out);
            proof {
                assert(tv.elems() =~= Seq::new(ems.len(), |j: int| elem_of(ems[j], kind).unwrap()));
            }
            Ok(tv)
        },
        DataType::F64 => {
            let mut out: Vec<String> = Vec::new();
            let mut i: usize = 0;
            while i < n
                invariant
                    i <= n,
                    n == ems.len(),
                    ems == views_of(els@),
                    n == els@.len(),
                    elements_of(raw@) == Some(ems),
                    out@.len() == i,
                    kind == DataType::F64,
                    forall|j: int| 0 <= j < i ==> elem_of(ems[j], DataType::F64) == Some(
                        ElemVal::F(out@[j]@),
                    ),
                    forall|j: int| 0 <= j < i ==> is_float_lit(out@[j]@),
                decreases n - i,
            {
                if !check_float_lit(&els[i]) {
                    proof {
                        assert(elem_of(ems[i as int], kind) is None);
                    }
                    return Err(CliError::MalformedValue);
                }
                let s: String = chars_to_string(&els[i]);
                out.push(s);
                i = i + 1;
            }
            let tv = TypedValue::F64(out);
            proof {
                assert(tv.elems() =~= Seq::new(ems.len(), |j: int| elem_of(ems[j], kind).unwrap()));
            }
            Ok(tv)
        },
    }
}

} // verus!
