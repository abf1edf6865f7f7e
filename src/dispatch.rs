//! One step of the dispatch loop: from record numbers to signals, and from
//! a signal to every endpoint registered for it.

use vstd::prelude::*;
use crate::channel::send_signal;
use crate::signal::{is_supported, raw_of, signal_of, Signal};

verus! {

/// Whether every number of `ns` is supported.
pub open spec fn all_supported(ns: Seq<i32>) -> bool {
    forall|i: int| 0 <= i < ns.len() ==> is_supported(#[trigger] ns[i])
}

/// The signals that the numbers `ns` stand for, or the first number that
/// stands for none. An unsupported number can only come from a corrupted
/// relay, which the caller treats as fatal.
pub fn decode_numbers(ns: &Vec<i32>) -> (r: Result<Vec<Signal>, i32>)
    ensures
        r is Ok <==> all_supported(ns@),
        r matches Ok(v) ==> v@.len() == ns@.len() && forall|i: int|
            0 <= i < ns@.len() ==> signal_of(ns@[i]) == Some(#[trigger] v@[i]) && raw_of(v@[i]) == ns@[i],
        r matches Err(n) ==> exists|k: int|
            0 <= k < ns@.len() && ns@[k] == n && !is_supported(n) && all_supported(ns@.subrange(0, k)),
{
    let mut v: Vec<Signal> = Vec::new();
    let mut i: usize = 0;
    while i < ns.len()
        invariant
            i <= ns@.len(),
            v@.len() == i,
            all_supported(ns@.subrange(0, i as int)),
            forall|j: int| 0 <= j < i ==> signal_of(ns@[j]) == Some(#[trigger] v@[j]) && raw_of(v@[j]) == ns@[j],
        decreases ns@.len() - i,
    {
        let n = ns[i];
        match Signal::try_new(n) {
            Some(s) => {
                v.push(s);
                proof {
                    assert forall|j: int| 0 <= j < i + 1 implies is_supported(#[trigger] ns@.subrange(0, i + 1)[j]) by {
                        if j < i {
                            assert(ns@.subrange(0, i + 1)[j] == ns@.subrange(0, i as int)[j]);
                        }
                    }
                }
            },
            None => {
                return Err(n);
            },
        }
        i = i + 1;
    }
    proof {
        assert(ns@.subrange(0, i as int) =~= ns@);
    }
    Ok(v)
}

/// How many of `outcomes` are `true`.
pub open spec fn true_count(outcomes: Seq<bool>) -> nat
    decreases outcomes.len(),
{
    if outcomes.len() == 0 {
        0
    } else {
        true_count(outcomes.drop_last()) + if outcomes.last() {
            1nat
        } else {
            0nat
        }
    }
}

/// Sends `s` to every endpoint of `endpoints`, in order, and returns the
/// outcome of each send: `true` where it was queued, `false` where its
/// receiver is gone. A failed send does not stop delivery to the others.
pub fn fan_out(endpoints: &Vec<std::sync::mpsc::Sender<Signal>>, s: Signal) -> (r: Vec<bool>)
    ensures
        r@.len() == endpoints@.len(),
{
    let mut outcomes: Vec<bool> = Vec::new();
    let mut i: usize = 0;
    while i < endpoints.len()
        invariant
            i <= endpoints@.len(),
            outcomes@.len() == i,
        decreases endpoints@.len() - i,
    {
        let ok = send_signal(&endpoints[i], s);
        outcomes.push(ok);
        i = i + 1;
    }
    outcomes
}

/// How many sends of a fan-out reached their receiver.
pub fn delivered_count(outcomes: &Vec<bool>) -> (r: usize)
    ensures
        r == true_count(outcomes@),
{
    let mut n: usize = 0;
    let mut i: usize = 0;
    while i < outcomes.len()
        invariant
            i <= outcomes@.len(),
            n == true_count(outcomes@.subrange(0, i as int)),
            n <= i,
        decreases outcomes@.len() - i,
    {
        proof {
            assert(outcomes@.subrange(0, i + 1).drop_last() =~= outcomes@.subrange(0, i as int));
        }
        if outcomes[i] {
            n = n + 1;
        }
        i = i + 1;
    }
    proof {
        assert(outcomes@.subrange(0, i as int) =~= outcomes@);
    }
    n
}

} // verus!
