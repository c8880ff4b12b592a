//! The reply half of the single-shot exchange: once the transport has been
//! drained, the observations that match the requested key are extracted, and
//! the absence of any match is an explicit outcome, not an error.

use vstd::prelude::*;
use crate::text::str_eq;
use crate::value::TypedValue;

verus! {

/// One decoded reply frame: a key and its typed value. The transport
/// produces these; this layer only consumes them.
#[derive(Debug, Clone)]
pub struct KeyValueObservation {
    pub key: String,
    pub data: TypedValue,
}

/// What a read-type exchange yields: the matching observations, or an
/// explicit no-data outcome when none arrived within the settle window.
#[derive(Debug)]
pub enum ReadOutcome {
    Data(Vec<KeyValueObservation>),
    NoData,
}

/// The observations whose key equals `key`, in arrival order.
pub open spec fn matching(obs: Seq<KeyValueObservation>, key: Seq<char>) -> Seq<
    KeyValueObservation,
>
    decreases obs.len(),
{
    if obs.len() == 0 {
        Seq::empty()
    } else if obs[0].key@ == key {
        seq![obs[0]] + matching(obs.subrange(1, obs.len() as int), key)
    } else {
        matching(obs.subrange(1, obs.len() as int), key)
    }
}

/// Extracts the observations matching `key` from what the transport handed
/// back. No reply at all, and no matching reply, both yield the explicit
/// no-data outcome; a matching reply is returned as it arrived, in order.
pub fn extract_reply(key: &str, obs: Option<Vec<KeyValueObservation>>) -> (r: ReadOutcome)
    ensures
        match obs {
            None => r is NoData,
            Some(v) => if matching(v@, key@).len() == 0 {
                r is NoData
            } else {
                r matches ReadOutcome::Data(d) && d@ == matching(v@, key@)
            },
        },
{
    let mut v: Vec<KeyValueObservation> = match obs {
        None => {
            return ReadOutcome::NoData;
        },
        Some(v) => v,
    };
    let ghost orig: Seq<KeyValueObservation> = v@;
    let mut out: Vec<KeyValueObservation> = Vec::new();
    while v.len() > 0
        invariant
            matching(orig, key@) == out@ + matching(v@, key@),
        decreases v@.len(),
    {
        let ghost prev: Seq<KeyValueObservation> = v@;
        let o: KeyValueObservation = v.remove(0);
        proof {
            assert(prev[0] == o);
            assert(prev.subrange(1, prev.len() as int) =~= v@);
        }
        if str_eq(o.key.as_str(), key) {
            out.push(o);
            proof {
                assert(out@ + matching(v@, key@) =~= matching(orig, key@));
            }
        } else {
            proof {
                assert(out@ + matching(v@, key@) =~= matching(orig, key@));
            }
        }
    }
    proof {
        assert(matching(v@, key@) =~= Seq::<KeyValueObservation>::empty());
        assert(out@ =~= matching(orig, key@));
    }
    if out.len() == 0 {
        ReadOutcome::NoData
    } else {
        ReadOutcome::Data(out)
    }
}

} // verus!
