//! Which consumer endpoints want which signal.
//!
//! Each endpoint is stored once; every signal keeps the positions of the
//! endpoints registered for it, in order of registration. Nothing is ever
//! removed: a subscription lasts as long as the registry.

use vstd::prelude::*;
use crate::signal::{index_of, lemma_index_injective, Signal, SIGNAL_COUNT};

verus! {

/// `after` is `before` with `tx` stored once more and listed last, once,
/// under each signal of `signals`; every other signal keeps its endpoints.
/// With no signal listed, nothing is stored and `after` keeps what `before`
/// had.
pub open spec fn registered<E>(before: Registry<E>, after: Registry<E>, tx: E, signals: Seq<Signal>) -> bool {
    &&& after.wf()
    &&& after.endpoints() == if signals.len() == 0 {
        before.endpoints()
    } else {
        before.endpoints().push(tx)
    }
    &&& forall|s: Signal|
        #[trigger] after.subscribers(s) == if signals.contains(s) {
            before.subscribers(s).push(tx)
        } else {
            before.subscribers(s)
        }
}

/// Two subscriptions to the same signal are both listed, each once and in
/// the order they were made, so every occurrence reaches both.
pub proof fn lemma_two_subscribers_both_listed<E>(
    r0: Registry<E>,
    r1: Registry<E>,
    r2: Registry<E>,
    t1: E,
    t2: E,
    a: Signal,
)
    requires
        registered(r0, r1, t1, seq![a]),
        registered(r1, r2, t2, seq![a]),
    ensures
        r2.subscribers(a) == r0.subscribers(a).push(t1).push(t2),
        forall|s: Signal| s != a ==> #[trigger] r2.subscribers(s) == r0.subscribers(s),
{
    assert(seq![a].contains(a)) by {
        assert(seq![a][0] == a);
    }
    assert forall|s: Signal| s != a implies #[trigger] r2.subscribers(s) == r0.subscribers(s) by {
        assert(!seq![a].contains(s));
        assert(r1.subscribers(s) == r0.subscribers(s));
    }
}

/// One subscription to two signals lists its endpoint once under each of
/// them, also when the two are the same signal.
pub proof fn lemma_one_subscriber_two_signals<E>(r0: Registry<E>, r1: Registry<E>, t: E, a: Signal, b: Signal)
    requires
        registered(r0, r1, t, seq![a, b]),
    ensures
        r1.subscribers(a) == r0.subscribers(a).push(t),
        r1.subscribers(b) == r0.subscribers(b).push(t),
{
    assert(seq![a, b][0] == a);
    assert(seq![a, b][1] == b);
    assert(seq![a, b].contains(a));
    assert(seq![a, b].contains(b));
}

/// The subscriptions of one process, keyed by signal.
pub struct Registry<E> {
    endpoints: Vec<E>,
    slots: Vec<Vec<usize>>,
}

impl<E> Registry<E> {
    /// Every endpoint ever registered, oldest first.
    pub closed spec fn endpoints(&self) -> Seq<E> {
        self.endpoints@
    }

    /// Positions in `endpoints()` of the endpoints registered for the
    /// signal with index `k`.
    closed spec fn slot(&self, k: int) -> Seq<usize> {
        self.slots@[k]@
    }

    /// The endpoints registered for `s`, in order of registration.
    pub closed spec fn subscribers(&self, s: Signal) -> Seq<E> {
        self.slot(index_of(s) as int).map_values(|i: usize| self.endpoints@[i as int])
    }

    /// One slot per signal, each pointing at stored endpoints only.
    pub closed spec fn wf(&self) -> bool {
        &&& self.slots@.len() == SIGNAL_COUNT
        &&& forall|k: int, j: int|
            0 <= k < SIGNAL_COUNT && 0 <= j < self.slot(k).len() ==> #[trigger] self.slot(k)[j]
                < self.endpoints@.len()
    }

    /// A registry with no subscription.
    pub fn new() -> (r: Registry<E>)
        ensures
            r.wf(),
            r.endpoints() == Seq::<E>::empty(),
            forall|s: Signal| #[trigger] r.subscribers(s) == Seq::<E>::empty(),
    {
        let mut slots: Vec<Vec<usize>> = Vec::new();
        let mut k: usize = 0;
        while k < SIGNAL_COUNT
            invariant
                k <= SIGNAL_COUNT,
                slots@.len() == k,
                forall|j: int| 0 <= j < k ==> (#[trigger] slots@[j])@.len() == 0,
            decreases SIGNAL_COUNT - k,
        {
            slots.push(Vec::new());
            k = k + 1;
        }
        let r = Registry { endpoints: Vec::new(), slots };
        assert forall|s: Signal| #[trigger] r.subscribers(s) == Seq::<E>::empty() by {
            lemma_index_injective(s, s);
            assert(r.subscribers(s) =~= Seq::<E>::empty());
        }
        r
    }

    /// Registers `tx` once under each signal of `signals`; a signal named
    /// twice still gets one entry. With no signal listed, `tx` is dropped
    /// and the registry is left as it was.
    pub fn register(&mut self, tx: E, signals: &[Signal])
        requires
            old(self).wf(),
            old(self).endpoints().len() < usize::MAX,
        ensures
            registered(*old(self), *final(self), tx, signals@),
    {
        if signals.len() == 0 {
            return;
        }
        let idx = self.endpoints.len();
        let ghost before = *self;
        self.endpoints.push(tx);
        proof {
            assert forall|k: int, i: int|
                0 <= k < SIGNAL_COUNT && 0 <= i < self.slot(k).len() implies #[trigger] self.slot(k)[i]
                < self.endpoints@.len() by {
                assert(self.slot(k) == before.slot(k));
                assert(before.slot(k)[i] < before.endpoints@.len());
            }
            assert(signals@.subrange(0, 0) =~= Seq::<Signal>::empty());
        }
        let mut j: usize = 0;
        while j < signals.len()
            invariant
                j <= signals.len(),
                self.endpoints@ == before.endpoints@.push(tx),
                idx == before.endpoints@.len(),
                self.slots@.len() == SIGNAL_COUNT,
                before.wf(),
                forall|k: int, i: int|
                    0 <= k < SIGNAL_COUNT && 0 <= i < self.slot(k).len() ==> #[trigger] self.slot(k)[i]
                        < self.endpoints@.len(),
                forall|s: Signal|
                    #[trigger] self.slot(index_of(s) as int) == if signals@.subrange(0, j as int).contains(s) {
                        before.slot(index_of(s) as int).push(idx)
                    } else {
                        before.slot(index_of(s) as int)
                    },
            decreases signals.len() - j,
        {
            let sig = signals[j];
            let k = sig.index();
            let n = self.slots[k].len();
            let seen = n > 0 && self.slots[k][n - 1] == idx;
            let ghost pre = signals@.subrange(0, j as int);
            proof {
                assert(signals@.subrange(0, j + 1) =~= pre.push(sig));
                assert forall|s: Signal| #[trigger] pre.push(sig).contains(s) == (pre.contains(s) || s == sig) by {
                    if pre.contains(s) {
                        let i = choose|i: int| 0 <= i < pre.len() && pre[i] == s;
                        assert(pre.push(sig)[i] == s);
                    }
                    if s == sig {
                        assert(pre.push(sig)[pre.len() as int] == s);
                    }
                    if pre.push(sig).contains(s) {
                        let i = choose|i: int| 0 <= i < pre.len() + 1 && pre.push(sig)[i] == s;
                        if i < pre.len() {
                            assert(pre[i] == s);
                        }
                    }
                }
                assert(self.slot(index_of(sig) as int) == if pre.contains(sig) {
                    before.slot(index_of(sig) as int).push(idx)
                } else {
                    before.slot(index_of(sig) as int)
                });
                if !pre.contains(sig) && n > 0 {
                    assert(before.slot(k as int)[n - 1] < before.endpoints@.len());
                }
            }
            if !seen {
                let ghost prev = *self;
                proof {
                    assert(!pre.contains(sig));
                }
                self.slots[k].push(idx);
                proof {
                    assert(self.slots@ == prev.slots@.update(k as int, self.slots@[k as int]));
                    assert(self.slot(k as int) == prev.slot(k as int).push(idx));
                    assert forall|k2: int, i: int|
                        0 <= k2 < SIGNAL_COUNT && 0 <= i < self.slot(k2).len() implies #[trigger] self.slot(k2)[i]
                        < self.endpoints@.len() by {
                        if k2 != k as int {
                            assert(self.slot(k2) == prev.slot(k2));
                            assert(prev.slot(k2)[i] < prev.endpoints@.len());
                        } else if i < n {
                            assert(self.slot(k2)[i] == prev.slot(k2)[i]);
                            assert(prev.slot(k2)[i] < prev.endpoints@.len());
                        }
                    }
                    assert forall|s: Signal| #[trigger] self.slot(index_of(s) as int) == if signals@.subrange(0, j + 1).contains(s) {
                        before.slot(index_of(s) as int).push(idx)
                    } else {
                        before.slot(index_of(s) as int)
                    } by {
                        lemma_index_injective(s, sig);
                        assert(prev.slot(index_of(s) as int) == if pre.contains(s) {
                            before.slot(index_of(s) as int).push(idx)
                        } else {
                            before.slot(index_of(s) as int)
                        });
                        if index_of(s) != k {
                            assert(self.slot(index_of(s) as int) == prev.slot(index_of(s) as int));
                        }
                    }
                }
            } else {
                proof {
                    assert(pre.contains(sig));
                    assert forall|s: Signal| #[trigger] self.slot(index_of(s) as int) == if signals@.subrange(0, j + 1).contains(s) {
                        before.slot(index_of(s) as int).push(idx)
                    } else {
                        before.slot(index_of(s) as int)
                    } by {
                        lemma_index_injective(s, sig);
                    }
                }
            }
            j = j + 1;
        }
        proof {
            assert(signals@.subrange(0, j as int) =~= signals@);
            assert forall|s: Signal| #[trigger] self.subscribers(s) == if signals@.contains(s) {
                before.subscribers(s).push(tx)
            } else {
                before.subscribers(s)
            } by {
                lemma_index_injective(s, s);
                let k = index_of(s) as int;
                if signals@.contains(s) {
                    assert(self.subscribers(s) =~= before.subscribers(s).push(tx));
                } else {
                    assert(self.subscribers(s) =~= before.subscribers(s));
                }
            }
        }
    }
    /// How many endpoints have been registered, under any signal.
    pub fn endpoint_count(&self) -> (r: usize)
        ensures
            r == self.endpoints().len(),
    {
        self.endpoints.len()
    }

    /// How many endpoints are registered for `s`.
    pub fn count(&self, s: Signal) -> (r: usize)
        requires
            self.wf(),
        ensures
            r == self.subscribers(s).len(),
    {
        self.slots[s.index()].len()
    }

    /// Whether any endpoint is registered for `s`.
    pub fn is_registered(&self, s: Signal) -> (r: bool)
        requires
            self.wf(),
        ensures
            r == (self.subscribers(s).len() > 0),
    {
        self.count(s) > 0
    }
}

impl<E: Clone> Registry<E> {
    /// Copies of the endpoints registered for `s`, in order of registration,
    /// so that sending can happen after the lock on the registry is released.
    /// The result is empty when nothing is registered for `s`.
    pub fn snapshot(&self, s: Signal) -> (r: Vec<E>)
        requires
            self.wf(),
        ensures
            r@.len() == self.subscribers(s).len(),
            forall|i: int| 0 <= i < r@.len() ==> cloned(self.subscribers(s)[i], #[trigger] r@[i]),
    {
        let k = s.index();
        let slot = &self.slots[k];
        let mut r: Vec<E> = Vec::new();
        let mut i: usize = 0;
        while i < slot.len()
            invariant
                self.wf(),
                k == index_of(s),
                slot@ == self.slot(k as int),
                i <= slot@.len(),
                r@.len() == i,
                forall|j: int| 0 <= j < i ==> cloned(self.subscribers(s)[j], #[trigger] r@[j]),
            decreases slot@.len() - i,
        {
            let p = slot[i];
            proof {
                assert(self.slot(k as int)[i as int] < self.endpoints@.len());
            }
            let e = self.endpoints[p].clone();
            r.push(e);
            i = i + 1;
        }
        r
    }
}

} // verus!
