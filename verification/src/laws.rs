//! Laws of the value codec, proved from the definitions the contracts use:
//! how scalars and bracketed vectors parse, that whitespace never matters,
//! and that stray brackets are always malformed.

use vstd::prelude::*;
use crate::codec::{elements_of, elem_of, parse_spec, split_commas, lemma_split_commas_len};
use crate::kinds::DataType;
use crate::text::{
    is_ws, strip_ws, lemma_strip_ws_concat, lemma_strip_ws_all_ws, lemma_strip_ws_no_ws,
};
use crate::value::ElemVal;

verus! {

/// Stripping whitespace introduces no new characters.
pub proof fn lemma_strip_ws_subset(s: Seq<char>, c: char)
    requires
        strip_ws(s).contains(c),
    ensures
        s.contains(c),
    decreases s.len(),
{
    if s.len() > 0 {
        if is_ws(s.last()) {
            lemma_strip_ws_subset(s.drop_last(), c);
            let j = choose|j: int| 0 <= j < s.drop_last().len() && s.drop_last()[j] == c;
            assert(s[j] == c);
        } else {
            let st = strip_ws(s.drop_last());
            let t = st.push(s.last());
            let j = choose|j: int| 0 <= j < t.len() && t[j] == c;
            if j == st.len() {
                assert(s[s.len() - 1] == c);
            } else {
                assert(st[j] == c);
                lemma_strip_ws_subset(s.drop_last(), c);
                let j2 = choose|j2: int| 0 <= j2 < s.drop_last().len() && s.drop_last()[j2] == c;
                assert(s[j2] == c);
            }
        }
    }
}

/// A character absent from two strings is absent from their concatenation.
pub proof fn lemma_not_contains_concat(a: Seq<char>, b: Seq<char>, c: char)
    requires
        !a.contains(c),
        !b.contains(c),
    ensures
        !(a + b).contains(c),
{
    if (a + b).contains(c) {
        let j = choose|j: int| 0 <= j < (a + b).len() && (a + b)[j] == c;
        if j < a.len() {
            assert(a[j] == c);
        } else {
            assert(b[j - a.len()] == c);
        }
    }
}

/// A valid scalar literal parses to exactly its one element's value, and a
/// malformed scalar to nothing: the result of `parse` on bracket-free input
/// is the element's own reading, as a one-element vector.
pub proof fn lemma_parse_scalar(raw: Seq<char>, k: DataType)
    requires
        strip_ws(raw).len() > 0,
        !strip_ws(raw).contains('['),
        !strip_ws(raw).contains(']'),
    ensures
        parse_spec(raw, k) == (match elem_of(strip_ws(raw), k) {
            Some(e) => Some(seq![e]),
            None => None::<Seq<ElemVal>>,
        }),
{
    let t = strip_ws(raw);
    if t.len() >= 2 && t[0] == '[' && t[t.len() - 1] == ']' {
        assert(t.contains('[')) by {
            assert(t[0] == '[');
        }
    }
    assert(elements_of(raw) == Some(seq![t]));
    let els = seq![t];
    match elem_of(t, k) {
        Some(e) => {
            assert forall|i: int| 0 <= i < els.len() implies elem_of(#[trigger] els[i], k)
                is Some by {
                assert(els[i] == t);
            }
            assert(Seq::new(els.len(), |i: int| elem_of(els[i], k).unwrap()) =~= seq![e]);
        },
        None => {
            assert(els[0] == t && elem_of(els[0], k) is None);
        },
    }
}

/// Two literals that agree after whitespace stripping parse alike, to the
/// same value or to the same failure.
pub proof fn lemma_parse_ws_insensitive(a: Seq<char>, b: Seq<char>, k: DataType)
    requires
        strip_ws(a) == strip_ws(b),
    ensures
        parse_spec(a, k) == parse_spec(b, k),
{
}

/// Surrounding whitespace never changes what a literal parses to; malformed
/// input in particular fails the same way under any padding.
pub proof fn lemma_parse_padded(pad_l: Seq<char>, s: Seq<char>, pad_r: Seq<char>, k: DataType)
    requires
        forall|i: int| 0 <= i < pad_l.len() ==> is_ws(pad_l[i]),
        forall|i: int| 0 <= i < pad_r.len() ==> is_ws(pad_r[i]),
    ensures
        parse_spec(pad_l + s + pad_r, k) == parse_spec(s, k),
{
    lemma_strip_ws_concat(pad_l + s, pad_r);
    lemma_strip_ws_concat(pad_l, s);
    lemma_strip_ws_all_ws(pad_l);
    lemma_strip_ws_all_ws(pad_r);
    assert(strip_ws(pad_l + s + pad_r) =~= strip_ws(s));
    lemma_parse_ws_insensitive(pad_l + s + pad_r, s, k);
}

/// A bracket that is not the single outer pair of a clean vector literal is
/// malformed, whatever the kind: nested and unmatched brackets never parse.
pub proof fn lemma_brackets_malformed(raw: Seq<char>, k: DataType)
    requires
        strip_ws(raw).contains('[') || strip_ws(raw).contains(']'),
        !({
            let t = strip_ws(raw);
            t.len() >= 2 && t[0] == '[' && t[t.len() - 1] == ']' && !t.subrange(
                1,
                t.len() - 1,
            ).contains('[') && !t.subrange(1, t.len() - 1).contains(']')
        }),
    ensures
        parse_spec(raw, k) is None,
{
}

/// Extending a split by comma-free text grows its last piece.
pub proof fn lemma_split_commas_extend(x: Seq<char>, y: Seq<char>)
    requires
        !y.contains(','),
    ensures
        split_commas(x + y) == ({
            let r = split_commas(x);
            r.update(r.len() - 1, r.last() + y)
        }),
    decreases y.len(),
{
    lemma_split_commas_len(x);
    let r = split_commas(x);
    if y.len() == 0 {
        assert(x + y =~= x);
        assert(r.last() + y =~= r.last());
        assert(r.update(r.len() - 1, r.last() + y) =~= r);
    } else {
        assert(!y.drop_last().contains(',')) by {
            if y.drop_last().contains(',') {
                let j = choose|j: int| 0 <= j < y.drop_last().len() && y.drop_last()[j] == ',';
                assert(y[j] == ',');
            }
        }
        lemma_split_commas_extend(x, y.drop_last());
        assert((x + y).drop_last() =~= x + y.drop_last());
        assert((x + y).last() == y.last());
        assert(y.last() != ',') by {
            assert(y[y.len() - 1] == y.last());
        }
        let rp = split_commas(x + y.drop_last());
        assert(rp == r.update(r.len() - 1, r.last() + y.drop_last()));
        assert(rp.len() == r.len());
        assert(rp.last() == r.last() + y.drop_last());
        assert(split_commas(x + y) == rp.update(rp.len() - 1, rp.last().push(y.last())));
        assert((r.last() + y.drop_last()).push(y.last()) =~= r.last() + y);
        assert(rp.update(rp.len() - 1, r.last() + y) =~= r.update(r.len() - 1, r.last() + y));
    }
}

/// Appending a comma opens a new, empty last piece.
pub proof fn lemma_split_commas_comma(x: Seq<char>)
    ensures
        split_commas(x + seq![',']) == split_commas(x).push(Seq::<char>::empty()),
{
    assert((x + seq![',']).drop_last() =~= x);
    assert((x + seq![',']).last() == ',');
}

/// A comma-separated triple of comma-free pieces splits into those pieces.
pub proof fn lemma_split_three(a: Seq<char>, b: Seq<char>, c: Seq<char>)
    requires
        !a.contains(','),
        !b.contains(','),
        !c.contains(','),
    ensures
        split_commas(a + seq![','] + b + seq![','] + c) == seq![a, b, c],
{
    assert(Seq::<char>::empty() + a =~= a);
    lemma_split_commas_extend(Seq::<char>::empty(), a);
    assert(split_commas(Seq::<char>::empty()) == seq![Seq::<char>::empty()]);
    assert(split_commas(a) =~= seq![Seq::<char>::empty()].update(0, Seq::<char>::empty() + a));
    assert(split_commas(a) =~= seq![a]);
    lemma_split_commas_comma(a);
    assert(split_commas(a + seq![',']) =~= seq![a, Seq::<char>::empty()]);
    lemma_split_commas_extend(a + seq![','], b);
    assert(split_commas(a + seq![','] + b) =~= seq![a, Seq::<char>::empty() + b]);
    assert(Seq::<char>::empty() + b =~= b);
    assert(split_commas(a + seq![','] + b) =~~= seq![a, b]);
    lemma_split_commas_comma(a + seq![','] + b);
    assert(split_commas(a + seq![','] + b + seq![',']) =~~= seq![a, b, Seq::<char>::empty()]);
    lemma_split_commas_extend(a + seq![','] + b + seq![','], c);
    assert(split_commas(a + seq![','] + b + seq![','] + c) =~~= seq![a, b, Seq::<char>::empty() + c]);
    assert(Seq::<char>::empty() + c =~= c);
    assert(split_commas(a + seq![','] + b + seq![','] + c) =~~= seq![a, b, c]);
}

/// A scalar literal whose stripped text is empty parses to nothing.
pub proof fn lemma_parse_empty(raw: Seq<char>, k: DataType)
    requires
        strip_ws(raw).len() == 0,
    ensures
        parse_spec(raw, k) is None,
{
}

/// A bracketed triple parses to exactly the three elements' values, each
/// read as it would be alone; if any element alone is malformed, so is the
/// whole vector.
pub proof fn lemma_parse_vector3(v1: Seq<char>, v2: Seq<char>, v3: Seq<char>, k: DataType)
    requires
        !v1.contains('[') && !v1.contains(']') && !v1.contains(','),
        !v2.contains('[') && !v2.contains(']') && !v2.contains(','),
        !v3.contains('[') && !v3.contains(']') && !v3.contains(','),
    ensures
        parse_spec(seq!['['] + v1 + seq![','] + v2 + seq![','] + v3 + seq![']'], k) == (if parse_spec(
            v1,
            k,
        ) is Some && parse_spec(v2, k) is Some && parse_spec(v3, k) is Some {
            Some(
                parse_spec(v1, k).unwrap() + parse_spec(v2, k).unwrap() + parse_spec(v3, k).unwrap(),
            )
        } else {
            None::<Seq<ElemVal>>
        }),
{
    let raw = seq!['['] + v1 + seq![','] + v2 + seq![','] + v3 + seq![']'];
    let w1 = strip_ws(v1);
    let w2 = strip_ws(v2);
    let w3 = strip_ws(v3);

    // Stripped pieces inherit the absence of brackets and commas.
    assert(!w1.contains('[') && !w1.contains(']') && !w1.contains(',')) by {
        if w1.contains('[') {
            lemma_strip_ws_subset(v1, '[');
        }
        if w1.contains(']') {
            lemma_strip_ws_subset(v1, ']');
        }
        if w1.contains(',') {
            lemma_strip_ws_subset(v1, ',');
        }
    }
    assert(!w2.contains('[') && !w2.contains(']') && !w2.contains(',')) by {
        if w2.contains('[') {
            lemma_strip_ws_subset(v2, '[');
        }
        if w2.contains(']') {
            lemma_strip_ws_subset(v2, ']');
        }
        if w2.contains(',') {
            lemma_strip_ws_subset(v2, ',');
        }
    }
    assert(!w3.contains('[') && !w3.contains(']') && !w3.contains(',')) by {
        if w3.contains('[') {
            lemma_strip_ws_subset(v3, '[');
        }
        if w3.contains(']') {
            lemma_strip_ws_subset(v3, ']');
        }
        if w3.contains(',') {
            lemma_strip_ws_subset(v3, ',');
        }
    }

    // The whole literal strips to `[` w1 `,` w2 `,` w3 `]`.
    let inner = w1 + seq![','] + w2 + seq![','] + w3;
    let t = seq!['['] + inner + seq![']'];
    assert(strip_ws(raw) =~= t) by {
        lemma_strip_ws_no_ws(seq!['[']);
        lemma_strip_ws_no_ws(seq![']']);
        lemma_strip_ws_no_ws(seq![',']);
        lemma_strip_ws_concat(seq!['['] + v1 + seq![','] + v2 + seq![','] + v3, seq![']']);
        lemma_strip_ws_concat(seq!['['] + v1 + seq![','] + v2 + seq![','], v3);
        lemma_strip_ws_concat(seq!['['] + v1 + seq![','] + v2, seq![',']);
        lemma_strip_ws_concat(seq!['['] + v1 + seq![','], v2);
        lemma_strip_ws_concat(seq!['['] + v1, seq![',']);
        lemma_strip_ws_concat(seq!['['], v1);
    }

    assert(t.len() >= 2);
    assert(t[0] == '[');
    assert(t[t.len() - 1] == ']');
    assert(t.subrange(1, t.len() - 1) =~= inner);
    assert(!inner.contains('[') && !inner.contains(']')) by {
        lemma_not_contains_concat(w1, seq![','], '[');
        lemma_not_contains_concat(w1 + seq![','], w2, '[');
        lemma_not_contains_concat(w1 + seq![','] + w2, seq![','], '[');
        lemma_not_contains_concat(w1 + seq![','] + w2 + seq![','], w3, '[');
        lemma_not_contains_concat(w1, seq![','], ']');
        lemma_not_contains_concat(w1 + seq![','], w2, ']');
        lemma_not_contains_concat(w1 + seq![','] + w2, seq![','], ']');
        lemma_not_contains_concat(w1 + seq![','] + w2 + seq![','], w3, ']');
        assert(!seq![','].contains('[')) by {
            if seq![','].contains('[') {
                let j = choose|j: int| 0 <= j < 1 && seq![','][j] == '[';
                assert(seq![','][j] == ',');
            }
        }
        assert(!seq![','].contains(']')) by {
            if seq![','].contains(']') {
                let j = choose|j: int| 0 <= j < 1 && seq![','][j] == ']';
                assert(seq![','][j] == ',');
            }
        }
    }
    lemma_split_three(w1, w2, w3);
    let parts = seq![w1, w2, w3];
    assert(split_commas(inner) == parts);

    // Each piece alone parses as a scalar of its stripped text.
    if w1.len() > 0 {
        lemma_parse_scalar(v1, k);
    } else {
        lemma_parse_empty(v1, k);
    }
    if w2.len() > 0 {
        lemma_parse_scalar(v2, k);
    } else {
        lemma_parse_empty(v2, k);
    }
    if w3.len() > 0 {
        lemma_parse_scalar(v3, k);
    } else {
        lemma_parse_empty(v3, k);
    }

    if w1.len() == 0 || w2.len() == 0 || w3.len() == 0 {
        // An empty piece is an empty element: the vector is malformed, and
        // so is that piece alone.
        assert(exists|i: int| 0 <= i < parts.len() && parts[i].len() == 0) by {
            if w1.len() == 0 {
                assert(parts[0].len() == 0);
            } else if w2.len() == 0 {
                assert(parts[1].len() == 0);
            } else {
                assert(parts[2].len() == 0);
            }
        }
        assert(elements_of(raw) is None);
    } else {
        assert(!(exists|i: int| 0 <= i < parts.len() && #[trigger] parts[i].len() == 0)) by {
            assert(parts[0].len() > 0 && parts[1].len() > 0 && parts[2].len() > 0);
        }
        assert(elements_of(raw) == Some(parts));
        if elem_of(w1, k) is Some && elem_of(w2, k) is Some && elem_of(w3, k) is Some {
            assert forall|i: int| 0 <= i < parts.len() implies elem_of(
                #[trigger] parts[i],
                k,
            ) is Some by {
                assert(parts[0] == w1 && parts[1] == w2 && parts[2] == w3);
            }
            let es = Seq::new(parts.len(), |i: int| elem_of(parts[i], k).unwrap());
            assert(parse_spec(raw, k) == Some(es));
            assert(es =~= seq![elem_of(w1, k).unwrap()] + seq![elem_of(w2, k).unwrap()] + seq![
                elem_of(w3, k).unwrap(),
            ]);
        } else {
            assert(exists|i: int| 0 <= i < parts.len() && elem_of(#[trigger] parts[i], k) is None)
                by {
                if elem_of(w1, k) is None {
                    assert(elem_of(parts[0], k) is None);
                } else if elem_of(w2, k) is None {
                    assert(elem_of(parts[1], k) is None);
                } else {
                    assert(elem_of(parts[2], k) is None);
                }
            }
            assert(parse_spec(raw, k) is None);
        }
    }
}

} // verus!
