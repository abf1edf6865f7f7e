//! The record format of the self-pipe, and reassembly of records from
//! reads that may end in the middle of one.
//!
//! A record is the raw signal number as a four-byte little-endian integer.
//! The handler writes one record per signal; the reading side may receive
//! any split of the byte stream, and `RecordBuffer` joins the pieces.

use vstd::prelude::*;
use crate::signal::{is_supported, signal_of, Signal};

verus! {

/// Number of bytes in one record.
pub const RECORD_LEN: usize = 4;

/// The bytes of the record that carries `n`.
pub open spec fn record_of(n: i32) -> Seq<u8> {
    let u = n as u32;
    seq![(u & 0xff) as u8, ((u >> 8u32) & 0xff) as u8, ((u >> 16u32) & 0xff) as u8, ((u >> 24u32) & 0xff) as u8]
}

/// The number that four record bytes carry.
pub open spec fn value_of(b0: u8, b1: u8, b2: u8, b3: u8) -> i32 {
    ((b0 as u32) | ((b1 as u32) << 8u32) | ((b2 as u32) << 16u32) | ((b3 as u32) << 24u32)) as i32
}

/// The number that a record carries.
pub open spec fn record_value(b: Seq<u8>) -> i32
    recommends
        b.len() == RECORD_LEN,
{
    value_of(b[0], b[1], b[2], b[3])
}

/// The byte stream made of the records of `ns`, in order.
pub open spec fn records_of(ns: Seq<i32>) -> Seq<u8>
    decreases ns.len(),
{
    if ns.len() == 0 {
        Seq::empty()
    } else {
        records_of(ns.drop_last()) + record_of(ns.last())
    }
}

/// Reading back the record of a number gives the number.
pub proof fn lemma_value_of_record(n: i32)
    ensures
        record_of(n).len() == RECORD_LEN,
        record_value(record_of(n)) == n,
{
    let u = n as u32;
    assert(((((u & 0xff) as u8) as u32) | (((((u >> 8u32) & 0xff) as u8) as u32) << 8u32)
        | (((((u >> 16u32) & 0xff) as u8) as u32) << 16u32) | (((((u >> 24u32) & 0xff) as u8) as u32) << 24u32)) == u)
        by (bit_vector);
    assert((u as i32) == n) by (bit_vector)
        requires u == n as u32;
}

/// Any four bytes are the record of the number they carry.
pub proof fn lemma_record_of_value(b0: u8, b1: u8, b2: u8, b3: u8)
    ensures
        record_of(value_of(b0, b1, b2, b3)) == seq![b0, b1, b2, b3],
{
    let u = (b0 as u32) | ((b1 as u32) << 8u32) | ((b2 as u32) << 16u32) | ((b3 as u32) << 24u32);
    assert(((u as i32) as u32) == u) by (bit_vector);
    assert((u & 0xff) as u8 == b0 && ((u >> 8u32) & 0xff) as u8 == b1 && ((u >> 16u32) & 0xff) as u8 == b2
        && ((u >> 24u32) & 0xff) as u8 == b3) by (bit_vector)
        requires u == (b0 as u32) | ((b1 as u32) << 8u32) | ((b2 as u32) << 16u32) | ((b3 as u32) << 24u32);
    assert(record_of(value_of(b0, b1, b2, b3)) =~= seq![b0, b1, b2, b3]);
}

/// Decoding the record of a signal's raw number gives that signal.
pub proof fn lemma_record_round_trip(s: Signal)
    ensures
        signal_of(record_value(record_of(crate::signal::raw_of(s)))) == Some(s),
{
    lemma_value_of_record(crate::signal::raw_of(s));
    crate::signal::lemma_signal_round_trip(s);
}

/// Each number takes exactly one record's worth of bytes.
pub proof fn lemma_records_of_len(ns: Seq<i32>)
    ensures
        records_of(ns).len() == RECORD_LEN * ns.len(),
    decreases ns.len(),
{
    if ns.len() > 0 {
        lemma_records_of_len(ns.drop_last());
        lemma_value_of_record(ns.last());
    }
}

/// The `i`-th record of the stream is the record of the `i`-th number.
pub proof fn lemma_records_of_index(ns: Seq<i32>, i: int)
    requires
        0 <= i < ns.len(),
    ensures
        records_of(ns).len() == RECORD_LEN * ns.len(),
        records_of(ns).subrange(RECORD_LEN * i, RECORD_LEN * i + RECORD_LEN) == record_of(ns[i]),
    decreases ns.len(),
{
    lemma_records_of_len(ns);
    let front = ns.drop_last();
    lemma_records_of_len(front);
    lemma_value_of_record(ns.last());
    if i < ns.len() - 1 {
        lemma_records_of_index(front, i);
        assert(records_of(ns).subrange(RECORD_LEN * i, RECORD_LEN * i + RECORD_LEN)
            =~= records_of(front).subrange(RECORD_LEN * i, RECORD_LEN * i + RECORD_LEN));
    } else {
        assert(records_of(ns).subrange(RECORD_LEN * i, RECORD_LEN * i + RECORD_LEN) =~= record_of(ns.last()));
    }
}

/// Splitting a stream of whole records into records and a short remainder
/// gives back exactly the numbers written, in the order they were written,
/// and no remainder.
pub proof fn lemma_relay_keeps_order(ns: Seq<i32>, out: Seq<i32>, rest: Seq<u8>)
    requires
        records_of(ns) == records_of(out) + rest,
        rest.len() < RECORD_LEN,
    ensures
        out == ns,
        rest.len() == 0,
{
    lemma_records_of_len(ns);
    lemma_records_of_len(out);
    assert(out.len() == ns.len());
    assert forall|i: int| 0 <= i < ns.len() implies out[i] == ns[i] by {
        lemma_records_of_index(ns, i);
        lemma_records_of_index(out, i);
        assert(records_of(ns).subrange(RECORD_LEN * i, RECORD_LEN * i + RECORD_LEN)
            =~= records_of(out).subrange(RECORD_LEN * i, RECORD_LEN * i + RECORD_LEN));
        lemma_value_of_record(ns[i]);
        lemma_value_of_record(out[i]);
    }
    assert(out =~= ns);
}

/// The record that carries `n`.
pub fn encode_record(n: i32) -> (r: [u8; 4])
    ensures
        r@ == record_of(n),
{
    let u = n as u32;
    let r = [(u & 0xff) as u8, ((u >> 8u32) & 0xff) as u8, ((u >> 16u32) & 0xff) as u8, ((u >> 24u32) & 0xff) as u8];
    assert(r@ =~= record_of(n));
    r
}

/// The number that the record `b` carries.
pub fn record_number(b: &[u8; 4]) -> (r: i32)
    ensures
        r == record_value(b@),
{
    ((b[0] as u32) | ((b[1] as u32) << 8u32) | ((b[2] as u32) << 16u32) | ((b[3] as u32) << 24u32)) as i32
}

/// The signal that the record `b` carries, or `None` when its number is unsupported.
pub fn decode_record(b: &[u8; 4]) -> (r: Option<Signal>)
    ensures
        r == signal_of(record_value(b@)),
        r is Some <==> is_supported(record_value(b@)),
{
    Signal::try_new(record_number(b))
}

/// What the dispatch loop does after one read of the relay.
#[derive(Clone, Copy, Debug, PartialEq, Eq, Structural)]
pub enum ReadStep {
    /// This many bytes arrived: hand them to the record buffer.
    Data(usize),
    /// The write end is closed: the loop ends.
    End,
    /// The read was interrupted or found nothing yet: read again.
    Retry,
    /// Any other read error: the relay is broken, which is fatal.
    Fatal,
}

/// The step that follows a read returning `n` (a byte count, or a negative
/// value for an error), where `retryable` says whether that error was an
/// interruption or a would-block.
pub open spec fn read_step_of(n: isize, retryable: bool) -> ReadStep {
    if n > 0 {
        ReadStep::Data(n as usize)
    } else if n == 0 {
        ReadStep::End
    } else if retryable {
        ReadStep::Retry
    } else {
        ReadStep::Fatal
    }
}

/// Decides what follows a read of the relay that returned `n`.
pub fn read_step(n: isize, retryable: bool) -> (r: ReadStep)
    ensures
        r == read_step_of(n, retryable),
{
    if n > 0 {
        ReadStep::Data(n as usize)
    } else if n == 0 {
        ReadStep::End
    } else if retryable {
        ReadStep::Retry
    } else {
        ReadStep::Fatal
    }
}

/// Bytes read from the relay that do not yet make a whole record.
pub struct RecordBuffer {
    pending: Vec<u8>,
}

impl RecordBuffer {
    /// The bytes held back, waiting for the rest of their record.
    pub closed spec fn pending(&self) -> Seq<u8> {
        self.pending@
    }

    /// Fewer bytes are held back than a record has.
    pub open spec fn wf(&self) -> bool {
        self.pending().len() < RECORD_LEN
    }

    /// A buffer that holds nothing.
    pub fn new() -> (r: RecordBuffer)
        ensures
            r.wf(),
            r.pending() == Seq::<u8>::empty(),
    {
        RecordBuffer { pending: Vec::new() }
    }

    /// Takes the next piece of the byte stream and returns the numbers of
    /// the records it completes, in order; the bytes of an unfinished
    /// record are kept for the next call.
    pub fn push_bytes(&mut self, chunk: &[u8]) -> (r: Vec<i32>)
        requires
            old(self).wf(),
        ensures
            final(self).wf(),
            old(self).pending() + chunk@ == records_of(r@) + final(self).pending(),
    {
        let mut r: Vec<i32> = Vec::new();
        let mut i: usize = 0;
        while i < chunk.len()
            invariant
                self.wf(),
                i <= chunk.len(),
                old(self).pending() + chunk@.subrange(0, i as int) == records_of(r@) + self.pending(),
            decreases chunk.len() - i,
        {
            let b = chunk[i];
            let ghost before = records_of(r@);
            let ghost held = self.pending();
            proof {
                assert(chunk@.subrange(0, i + 1) =~= chunk@.subrange(0, i as int).push(b));
                assert(old(self).pending() + chunk@.subrange(0, i + 1)
                    =~= (old(self).pending() + chunk@.subrange(0, i as int)).push(b));
                assert((before + held).push(b) =~= before + held.push(b));
            }
            if self.pending.len() == 3 {
                let rec: [u8; 4] = [self.pending[0], self.pending[1], self.pending[2], b];
                let n = record_number(&rec);
                proof {
                    lemma_record_of_value(rec[0], rec[1], rec[2], rec[3]);
                    assert(self.pending().push(b) =~= record_of(n));
                    assert(records_of(r@.push(n)) == records_of(r@) + record_of(n)) by {
                        assert(r@.push(n).drop_last() =~= r@);
                    }
                }
                r.push(n);
                self.pending = Vec::new();
                proof {
                    assert(records_of(r@) + self.pending() =~= before + held.push(b));
                }
            } else {
                self.pending.push(b);
            }
            i = i + 1;
        }
        proof {
            assert(chunk@.subrange(0, i as int) =~= chunk@);
        }
        r
    }
}

} // verus!
