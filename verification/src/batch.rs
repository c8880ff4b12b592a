//! The batch planner: tabular rows become per-row transport actions, in row
//! order, with a fixed pause after each row. The first malformed row aborts
//! the whole batch and is reported by its 1-based index; rows before it are
//! still dispatched, rows after it never are.

use vstd::prelude::*;
use vstd::string::StringExecFns;
use crate::codec::{parse_spec, parse_value_str};
use crate::dispatch::{request_shape, request_plan, Action};
use crate::kinds::DataType;
use crate::text::{strip_ws, strip_chars, str_chars, chars_to_string};

verus! {

/// One row of a write batch: a parameter name, its declared kind, and the
/// value literal. A read batch row is the parameter name alone.
#[derive(Debug, Clone)]
pub struct ParameterRow {
    pub parameter: String,
    pub datatype: String,
    pub value: String,
}

/// The kind a row declares, read from its whitespace-stripped name.
pub open spec fn row_kind(row: ParameterRow) -> Option<DataType> {
    DataType::of_name_spec(strip_ws(row.datatype@))
}

/// Whether a row's declared kind and value literal are both well formed.
pub open spec fn row_ok(row: ParameterRow) -> bool {
    &&& row_kind(row) is Some
    &&& parse_spec(row.value@, row_kind(row).unwrap()) is Some
}

/// The index of the first malformed row, if any.
pub open spec fn first_bad_row(rows: Seq<ParameterRow>) -> Option<int>
    decreases rows.len(),
{
    if rows.len() == 0 {
        None
    } else if !row_ok(rows[0]) {
        Some(0int)
    } else {
        match first_bad_row(rows.subrange(1, rows.len() as int)) {
            Some(i) => Some(i + 1),
            None => None,
        }
    }
}

/// A batch whose rows are all well formed has no first malformed row.
pub proof fn lemma_first_bad_row_none(rows: Seq<ParameterRow>)
    requires
        forall|j: int| 0 <= j < rows.len() ==> row_ok(#[trigger] rows[j]),
    ensures
        first_bad_row(rows) is None,
    decreases rows.len(),
{
    if rows.len() > 0 {
        let rest = rows.subrange(1, rows.len() as int);
        assert forall|j: int| 0 <= j < rest.len() implies row_ok(#[trigger] rest[j]) by {
            assert(rest[j] == rows[j + 1]);
        }
        lemma_first_bad_row_none(rest);
    }
}

/// The first malformed row is the first index whose row is not well formed.
pub proof fn lemma_first_bad_row_at(rows: Seq<ParameterRow>, i: int)
    requires
        0 <= i < rows.len(),
        !row_ok(rows[i]),
        forall|j: int| 0 <= j < i ==> row_ok(#[trigger] rows[j]),
    ensures
        first_bad_row(rows) == Some(i),
    decreases i,
{
    if i > 0 {
        let rest = rows.subrange(1, rows.len() as int);
        assert(rest[i - 1] == rows[i]);
        assert forall|j: int| 0 <= j < i - 1 implies row_ok(#[trigger] rest[j]) by {
            assert(rest[j] == rows[j + 1]);
        }
        lemma_first_bad_row_at(rest, i - 1);
    }
}

/// The two actions a well-formed write row plans: the unicast reply carrying
/// its parsed value, then the inter-row pause.
pub open spec fn set_row_planned(
    acts: Seq<Action>,
    j: int,
    dest: u8,
    row: ParameterRow,
    delay_ms: u64,
) -> bool {
    &&& acts[2 * j] matches Action::SendResponse { dest: d, key: k, value: v } && d == dest && k@
        == row.parameter@ && v.wf() && Some(v.kind_of()) == row_kind(row) && parse_spec(
        row.value@,
        v.kind_of(),
    ) == Some(v.elems())
    &&& acts[2 * j + 1] == (Action::Wait { millis: delay_ms })
}

/// Plans a write batch: per well-formed row, in row order, a unicast reply
/// to `dest` followed by the inter-row pause. The rows before the first
/// malformed one are planned; that row is reported by its 1-based index and
/// nothing after it is planned. A batch with no malformed row reports no
/// error.
pub fn plan_set_batch(dest: u8, rows: &Vec<ParameterRow>, delay_ms: u64) -> (r: (
    Vec<Action>,
    Option<usize>,
))
    ensures
        ({
            let planned = if first_bad_row(rows@) is Some {
                first_bad_row(rows@).unwrap()
            } else {
                rows@.len() as int
            };
            &&& r.1 == (match first_bad_row(rows@) {
                Some(b) => Some((b + 1) as usize),
                None => None::<usize>,
            })
            &&& r.0@.len() == 2 * planned
            &&& forall|j: int|
                0 <= j < planned ==> set_row_planned(r.0@, j, dest, rows@[j], delay_ms)
        }),
{
    let mut acts: Vec<Action> = Vec::new();
    let mut idx: usize = 0;
    while idx < rows.len()
        invariant
            idx <= rows@.len(),
            forall|j: int| 0 <= j < idx ==> row_ok(#[trigger] rows@[j]),
            acts@.len() == 2 * idx,
            forall|j: int| 0 <= j < idx ==> set_row_planned(acts@, j, dest, rows@[j], delay_ms),
        decreases rows@.len() - idx,
    {
        let row: &ParameterRow = &rows[idx];
        let dt_chars: Vec<char> = str_chars(row.datatype.as_str());
        let dt_stripped: Vec<char> = strip_chars(&dt_chars);
        let dt_name: String = chars_to_string(&dt_stripped);
        let kind: DataType = match DataType::from_name(dt_name.as_str()) {
            Some(k) => k,
            None => {
                proof {
                    assert(!row_ok(rows@[idx as int]));
                    lemma_first_bad_row_at(rows@, idx as int);
                }
                return (acts, Some(idx + 1));
            },
        };
        let value = match parse_value_str(row.value.as_str(), kind) {
            Ok(v) => v,
            Err(_) => {
                proof {
                    assert(!row_ok(rows@[idx as int]));
                    lemma_first_bad_row_at(rows@, idx as int);
                }
                return (acts, Some(idx + 1));
            },
        };
        let ghost old_acts: Seq<Action> = acts@;
        acts.push(Action::SendResponse {
            dest,
            key: String::from_str(row.parameter.as_str()),
            value,
        });
        acts.push(Action::Wait { millis: delay_ms });
        proof {
            assert(row_ok(rows@[idx as int]));
            assert(set_row_planned(acts@, idx as int, dest, rows@[idx as int], delay_ms));
            assert forall|j: int| 0 <= j < idx + 1 implies set_row_planned(
                acts@,
                j,
                dest,
                rows@[j],
                delay_ms,
            ) by {
                if j < idx {
                    assert(set_row_planned(old_acts, j, dest, rows@[j], delay_ms));
                    assert(acts@[2 * j] == old_acts[2 * j]);
                    assert(acts@[2 * j + 1] == old_acts[2 * j + 1]);
                }
            }
        }
        idx = idx + 1;
    }
    proof {
        lemma_first_bad_row_none(rows@);
    }
    (acts, None)
}

/// The four actions one read row plans: the single-shot exchange for its
/// key, settle pause included.
pub open spec fn read_row_planned(
    acts: Seq<Action>,
    j: int,
    dest: u8,
    key: Seq<char>,
    settle_ms: u64,
) -> bool {
    request_shape(acts.subrange(4 * j, 4 * j + 4), dest, key, settle_ms)
}

/// Plans a read batch: per key, in row order, the single-shot exchange
/// against `dest`. A read row holds only a parameter name, so no row of a
/// read batch can be malformed.
pub fn plan_read_batch(dest: u8, keys: &Vec<String>, settle_ms: u64) -> (acts: Vec<Action>)
    ensures
        acts@.len() == 4 * keys@.len(),
        forall|j: int|
            0 <= j < keys@.len() ==> read_row_planned(acts@, j, dest, keys@[j]@, settle_ms),
{
    let mut acts: Vec<Action> = Vec::new();
    let mut idx: usize = 0;
    while idx < keys.len()
        invariant
            idx <= keys@.len(),
            acts@.len() == 4 * idx,
            forall|j: int| 0 <= j < idx ==> read_row_planned(acts@, j, dest, keys@[j]@, settle_ms),
        decreases keys@.len() - idx,
    {
        let ghost old_acts: Seq<Action> = acts@;
        let mut chunk: Vec<Action> = request_plan(dest, keys[idx].as_str(), settle_ms);
        let ghost chunk_view: Seq<Action> = chunk@;
        acts.append(&mut chunk);
        proof {
            assert(acts@ == old_acts + chunk_view);
            assert(acts@.subrange(4 * idx as int, 4 * idx as int + 4) =~= chunk_view);
            assert forall|j: int| 0 <= j < idx + 1 implies read_row_planned(
                acts@,
                j,
                dest,
                keys@[j]@,
                settle_ms,
            ) by {
                if j < idx {
                    assert(acts@.subrange(4 * j, 4 * j + 4) =~= old_acts.subrange(4 * j, 4 * j + 4));
                }
            }
        }
        idx = idx + 1;
    }
    acts
}

/// A batch whose second of three rows is malformed plans exactly the first
/// row's actions, reports index 2, and never reaches the third row.
pub proof fn lemma_batch_aborts_at_second_row(rows: Seq<ParameterRow>)
    requires
        rows.len() == 3,
        row_ok(rows[0]),
        !row_ok(rows[1]),
    ensures
        first_bad_row(rows) == Some(1int),
{
    lemma_first_bad_row_at(rows, 1);
}

} // verus!
