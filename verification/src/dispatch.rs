//! The command dispatcher: one resolved command plus its optional arguments
//! becomes the exact list of transport actions to perform, or an error
//! raised before any transport call.

use vstd::prelude::*;
use vstd::string::StringExecFns;
use crate::codec::{parse_spec, parse_value_str};
use crate::errors::CliError;
use crate::kinds::DataType;
use crate::value::TypedValue;

verus! {

/// The seven operations one invocation can select.
#[derive(Clone, Copy, Debug, PartialEq, Eq, Structural)]
pub enum Command {
    Start,
    Stop,
    SetParam,
    ReadParam,
    Message,
    Request,
    Response,
}

/// One call against the transport collaborator, or a timed pause between
/// calls. The executor performs these in order and nothing else.
#[derive(Debug, Clone)]
pub enum Action {
    /// Enable every known node over the broadcast primitive.
    EnableAll,
    /// Enable exactly one node.
    Enable { node: u8 },
    /// Disable every known node over the broadcast primitive.
    DisableAll,
    /// Disable exactly one node.
    Disable { node: u8 },
    /// Publish a broadcast key/value message; no reply is expected.
    Publish { key: String, value: TypedValue },
    /// Send a unicast request for a key.
    SendRequest { dest: u8, key: String },
    /// Send a unicast reply carrying a value.
    SendResponse { dest: u8, key: String, value: TypedValue },
    /// Sleep for the given settle or inter-row interval.
    Wait { millis: u64 },
    /// Drain the receive buffer into decoded observations.
    Pump,
    /// Take whatever observations have been decoded.
    TakeObservations,
}

/// The view of an optional string argument.
pub open spec fn view_opt(s: Option<&str>) -> Option<Seq<char>> {
    match s {
        Some(x) => Some(x@),
        None => None,
    }
}

/// What a successful dispatch hands the executor, per command.
pub open spec fn dispatch_ok(
    cmd: Command,
    dest: Option<u8>,
    key: Option<Seq<char>>,
    value: Option<Seq<char>>,
    type_: Option<DataType>,
    settle_ms: u64,
    acts: Seq<Action>,
) -> bool {
    match cmd {
        Command::Start => acts.len() == 1 && acts[0] == (match dest {
            Some(d) => Action::Enable { node: d },
            None => Action::EnableAll,
        }),
        Command::Stop => acts.len() == 1 && acts[0] == (match dest {
            Some(d) => Action::Disable { node: d },
            None => Action::DisableAll,
        }),
        Command::Message => {
            &&& key is Some && value is Some && type_ is Some
            &&& acts.len() == 1
            &&& acts[0] matches Action::Publish { key: pk, value: pv } && pk@ == key.unwrap()
                && pv.wf() && pv.kind_of() == type_.unwrap() && parse_spec(
                value.unwrap(),
                type_.unwrap(),
            ) == Some(pv.elems())
        },
        Command::Request => {
            &&& dest is Some && key is Some
            &&& request_shape(acts, dest.unwrap(), key.unwrap(), settle_ms)
        },
        Command::Response => {
            &&& dest is Some && key is Some && value is Some && type_ is Some
            &&& acts.len() == 1
            &&& acts[0] matches Action::SendResponse { dest: d, key: k, value: v } && d
                == dest.unwrap() && k@ == key.unwrap() && v.wf() && v.kind_of() == type_.unwrap()
                && parse_spec(value.unwrap(), type_.unwrap()) == Some(v.elems())
        },
        _ => false,
    }
}

/// The single-shot exchange: send the request, wait the settle interval,
/// drain the bus, take what arrived.
pub open spec fn request_shape(acts: Seq<Action>, dest: u8, key: Seq<char>, settle_ms: u64) -> bool {
    &&& acts.len() == 4
    &&& acts[0] matches Action::SendRequest { dest: d, key: k } && d == dest && k@ == key
    &&& acts[1] == (Action::Wait { millis: settle_ms })
    &&& acts[2] == Action::Pump
    &&& acts[3] == Action::TakeObservations
}

/// When and with which error a dispatch is rejected, per command; nothing is
/// handed to the transport in that case.
pub open spec fn dispatch_err(
    cmd: Command,
    dest: Option<u8>,
    key: Option<Seq<char>>,
    value: Option<Seq<char>>,
    type_: Option<DataType>,
    e: CliError,
) -> bool {
    match cmd {
        Command::Start => false,
        Command::Stop => false,
        Command::Message => if key is None || value is None || type_ is None {
            e == CliError::MissingArgument
        } else {
            e == CliError::MalformedValue && parse_spec(value.unwrap(), type_.unwrap()) is None
        },
        Command::Request => e == CliError::MissingArgument && (dest is None || key is None),
        Command::Response => if dest is None || key is None || value is None || type_ is None {
            e == CliError::MissingArgument
        } else {
            e == CliError::MalformedValue && parse_spec(value.unwrap(), type_.unwrap()) is None
        },
        _ => false,
    }
}

/// The fixed settle interval after a request, and the inter-row pause of a
/// batch, in milliseconds.
pub const DEFAULT_DELAY_MS: u64 = 100;

/// Builds the action list of the single-shot request/reply exchange.
pub fn request_plan(dest: u8, key: &str, settle_ms: u64) -> (acts: Vec<Action>)
    ensures
        request_shape(acts@, dest, key@, settle_ms),
{
    let owned: String = String::from_str(key);
    let mut acts: Vec<Action> = Vec::new();
    acts.push(Action::SendRequest { dest, key: owned });
    acts.push(Action::Wait { millis: settle_ms });
    acts.push(Action::Pump);
    acts.push(Action::TakeObservations);
    acts
}

/// Maps one non-batch command and its arguments to transport actions.
/// Required arguments are checked first: a missing one is rejected, and a
/// malformed value is rejected, before any action is produced. Extraneous
/// arguments are ignored, not rejected.
pub fn dispatch_single(
    cmd: Command,
    dest: Option<u8>,
    key: Option<&str>,
    value: Option<&str>,
    type_: Option<DataType>,
    settle_ms: u64,
) -> (r: Result<Vec<Action>, CliError>)
    requires
        cmd != Command::SetParam,
        cmd != Command::ReadParam,
    ensures
        match r {
            Ok(acts) => dispatch_ok(
                cmd,
                dest,
                view_opt(key),
                view_opt(value),
                type_,
                settle_ms,
                acts@,
            ),
            Err(e) => dispatch_err(cmd, dest, view_opt(key), view_opt(value), type_, e),
        },
{
    match cmd {
        Command::Start => {
            let mut acts: Vec<Action> = Vec::new();
            match dest {
                Some(d) => acts.push(Action::Enable { node: d }),
                None => acts.push(Action::EnableAll),
            }
            Ok(acts)
        },
        Command::Stop => {
            let mut acts: Vec<Action> = Vec::new();
            match dest {
                Some(d) => acts.push(Action::Disable { node: d }),
                None => acts.push(Action::DisableAll),
            }
            Ok(acts)
        },
        Command::Message => {
            let (k, v, dt): (&str, &str, DataType) = match (key, value, type_) {
                (Some(k), Some(v), Some(dt)) => (k, v, dt),
                _ => {
                    return Err(CliError::MissingArgument);
                },
            };
            let parsed: TypedValue = match parse_value_str(v, dt) {
                Ok(p) => p,
                Err(e) => {
                    return Err(e);
                },
            };
            let mut acts: Vec<Action> = Vec::new();
            acts.push(Action::Publish { key: String::from_str(k), value: parsed });
            Ok(acts)
        },
        Command::Request => {
            let (d, k): (u8, &str) = match (dest, key) {
                (Some(d), Some(k)) => (d, k),
                _ => {
                    return Err(CliError::MissingArgument);
                },
            };
            Ok(request_plan(d, k, settle_ms))
        },
        Command::Response => {
            let (d, k, v, dt): (u8, &str, &str, DataType) = match (dest, key, value, type_) {
                (Some(d), Some(k), Some(v), Some(dt)) => (d, k, v, dt),
                _ => {
                    return Err(CliError::MissingArgument);
                },
            };
            let parsed: TypedValue = match parse_value_str(v, dt) {
                Ok(p) => p,
                Err(e) => {
                    return Err(e);
                },
            };
            let mut acts: Vec<Action> = Vec::new();
            acts.push(Action::SendResponse { dest: d, key: String::from_str(k), value: parsed });
            Ok(acts)
        },
        Command::SetParam => Err(CliError::MissingArgument),
        Command::ReadParam => Err(CliError::MissingArgument),
    }
}

/// How many broadcast drive actions a list holds.
pub open spec fn count_broadcast(acts: Seq<Action>) -> int
    decreases acts.len(),
{
    if acts.len() == 0 {
        0
    } else {
        count_broadcast(acts.drop_last()) + (if acts.last() == Action::EnableAll || acts.last()
            == Action::DisableAll {
            1int
        } else {
            0int
        })
    }
}

/// How many single-node drive actions a list holds.
pub open spec fn count_unicast_drive(acts: Seq<Action>) -> int
    decreases acts.len(),
{
    if acts.len() == 0 {
        0
    } else {
        count_unicast_drive(acts.drop_last()) + (if acts.last() matches Action::Enable { .. }
            || acts.last() matches Action::Disable { .. } {
            1int
        } else {
            0int
        })
    }
}

/// A `Start` or `Stop` dispatched without a destination drives the broadcast
/// primitive exactly once and a single node never.
pub proof fn lemma_broadcast_only(cmd: Command, settle_ms: u64, acts: Seq<Action>)
    requires
        cmd == Command::Start || cmd == Command::Stop,
        dispatch_ok(cmd, None, None, None, None, settle_ms, acts),
    ensures
        count_broadcast(acts) == 1,
        count_unicast_drive(acts) == 0,
{
    let rest = acts.drop_last();
    assert(rest.len() == 0);
    assert(count_broadcast(rest) == 0);
    assert(count_unicast_drive(rest) == 0);
    assert(acts.last() == acts[0]);
}

} // verus!
