//! The sample source: line framing, timestamp unwrapping and fan-out.
//!
//! Bytes read from the device accumulate in a buffer. Each complete
//! CRLF-terminated line is parsed as a record; malformed lines are dropped
//! silently. The device's 32-bit microsecond counter wraps, so consecutive
//! raw timestamps are unwrapped into a monotonic 64-bit timeline by adding
//! the 32-bit wrapping difference each step. Every parsed record is then
//! published to all subscribers.
//!
//! Reading the serial port itself is process code; it hands the raw bytes to
//! `process_buffer` together with a wall-clock stamp for the batch.

use std::sync::mpsc;
use vstd::prelude::*;

use crate::pubsub::PubSub;
use crate::record::spec_from;
use crate::record::Record;

verus! {

/// A startup failure, described in words.
pub struct SeismometerError {
    pub description: String,
}

impl SeismometerError {
    pub fn new(description: &str) -> (e: SeismometerError)
        ensures
            e.description@ == description@,
    {
        SeismometerError { description: description.to_owned() }
    }
}

/// The 32-bit wrapping difference `raw - previous`, widened.
pub open spec fn spec_wrapping_delta(previous: u32, raw: u32) -> u64 {
    if raw >= previous {
        (raw - previous) as u64
    } else {
        (raw + 0x1_0000_0000 - previous) as u64
    }
}

/// One unwrap step: the unwrapped time advances by the wrapping difference
/// of the raw counters, saturating at the top of the 64-bit range.
pub open spec fn spec_unwrap_step(previous: u32, unwrapped: u64, raw: u32) -> u64 {
    if unwrapped + spec_wrapping_delta(previous, raw) <= u64::MAX {
        (unwrapped + spec_wrapping_delta(previous, raw)) as u64
    } else {
        u64::MAX
    }
}

/// The unwrapped time after feeding a whole stream of raw timestamps.
pub open spec fn spec_unwrap_stream(previous: u32, unwrapped: u64, raws: Seq<u32>) -> u64
    decreases raws.len(),
{
    if raws.len() == 0 {
        unwrapped
    } else {
        spec_unwrap_stream(
            raws[0],
            spec_unwrap_step(previous, unwrapped, raws[0]),
            raws.drop_first(),
        )
    }
}

/// The raw counter remembered after feeding a stream.
pub open spec fn spec_previous_after(previous: u32, raws: Seq<u32>) -> u32 {
    if raws.len() == 0 {
        previous
    } else {
        raws.last()
    }
}

proof fn lemma_unwrap_stream_ge(previous: u32, unwrapped: u64, raws: Seq<u32>)
    ensures
        spec_unwrap_stream(previous, unwrapped, raws) >= unwrapped,
    decreases raws.len(),
{
    if raws.len() > 0 {
        lemma_unwrap_stream_ge(
            raws[0],
            spec_unwrap_step(previous, unwrapped, raws[0]),
            raws.drop_first(),
        );
    }
}

proof fn lemma_unwrap_stream_append(previous: u32, unwrapped: u64, a: Seq<u32>, b: Seq<u32>)
    ensures
        spec_unwrap_stream(previous, unwrapped, a + b) == spec_unwrap_stream(
            spec_previous_after(previous, a),
            spec_unwrap_stream(previous, unwrapped, a),
            b,
        ),
    decreases a.len(),
{
    if a.len() == 0 {
        assert(a + b =~= b);
    } else {
        assert((a + b)[0] == a[0]);
        assert((a + b).drop_first() =~= a.drop_first() + b);
        lemma_unwrap_stream_append(
            a[0],
            spec_unwrap_step(previous, unwrapped, a[0]),
            a.drop_first(),
            b,
        );
        if a.len() > 1 {
            assert(a.drop_first().last() == a.last());
        }
    }
}

/// Whatever raw timestamps the device sends, the unwrapped timeline never
/// decreases: the unwrapped time after any prefix of the stream is at most
/// the unwrapped time after any longer prefix.
pub proof fn lemma_unwrapped_monotonic(
    previous: u32,
    unwrapped: u64,
    raws: Seq<u32>,
    i: int,
    j: int,
)
    requires
        0 <= i <= j <= raws.len(),
    ensures
        spec_unwrap_stream(previous, unwrapped, raws.take(i)) <= spec_unwrap_stream(
            previous,
            unwrapped,
            raws.take(j),
        ),
{
    assert(raws.take(j) =~= raws.take(i) + raws.subrange(i, j));
    lemma_unwrap_stream_append(previous, unwrapped, raws.take(i), raws.subrange(i, j));
    lemma_unwrap_stream_ge(
        spec_previous_after(previous, raws.take(i)),
        spec_unwrap_stream(previous, unwrapped, raws.take(i)),
        raws.subrange(i, j),
    );
}

/// Index of the first newline byte, or -1.
pub open spec fn spec_find_newline(s: Seq<u8>) -> int
    decreases s.len(),
{
    if s.len() == 0 {
        -1
    } else if s[0] == 10 {
        0
    } else if spec_find_newline(s.drop_first()) < 0 {
        -1
    } else {
        spec_find_newline(s.drop_first()) + 1
    }
}

pub proof fn lemma_find_newline_props(s: Seq<u8>)
    ensures
        -1 <= spec_find_newline(s) < s.len(),
        spec_find_newline(s) >= 0 ==> s[spec_find_newline(s)] == 10,
        forall|i: int|
            0 <= i < s.len() && (spec_find_newline(s) < 0 || i < spec_find_newline(s))
                ==> #[trigger] s[i] != 10,
    decreases s.len(),
{
    if s.len() > 0 && s[0] != 10 {
        lemma_find_newline_props(s.drop_first());
        assert forall|i: int|
            0 <= i < s.len() && (spec_find_newline(s) < 0 || i < spec_find_newline(s)) implies
        #[trigger] s[i] != 10 by {
            if i >= 1 {
                assert(s[i] == s.drop_first()[i - 1]);
            }
        }
    }
}

/// What one pass over a buffer produces: the records published, the bytes
/// left over (no complete line remains in them), and the updated unwrapper
/// state.
#[verifier::ext_equal]
pub ghost struct SourceStep {
    pub records: Seq<Record>,
    pub rest: Seq<u8>,
    pub previous_raw: u32,
    pub unwrapped: u64,
}

/// A parsed record stamped with its unwrapped time and the batch wall clock.
pub open spec fn spec_stamp(r: Record, timestamp_us: u64, wall_us: u64) -> Record {
    Record { timestamp_us, timestamp_wall_us: wall_us, ..r }
}

/// The wire carries the low 32 bits of the device counter.
pub open spec fn spec_raw_of(r: Record) -> u32 {
    (r.timestamp_us % 0x1_0000_0000) as u32
}

/// One pass over the buffer: while a newline is present, parse the bytes
/// before it (dropping the final carriage return; a line shorter than that
/// or one that does not parse is discarded), unwrap the timestamp, publish,
/// and continue after the newline.
pub open spec fn spec_process(buffer: Seq<u8>, previous: u32, unwrapped: u64, wall_us: u64) -> (
    SourceStep)
    decreases buffer.len(),
    via spec_process_decreases
{
    let nl = spec_find_newline(buffer);
    if nl < 0 {
        SourceStep { records: Seq::empty(), rest: buffer, previous_raw: previous, unwrapped }
    } else if nl == 0 {
        spec_process(buffer.skip(1), previous, unwrapped, wall_us)
    } else {
        let rest = buffer.skip(nl + 1);
        match spec_from(buffer.take(nl - 1)) {
            Ok(rec) => {
                let raw = spec_raw_of(rec);
                let unw = spec_unwrap_step(previous, unwrapped, raw);
                let tail = spec_process(rest, raw, unw, wall_us);
                SourceStep {
                    records: seq![spec_stamp(rec, unw, wall_us)] + tail.records,
                    rest: tail.rest,
                    previous_raw: tail.previous_raw,
                    unwrapped: tail.unwrapped,
                }
            },
            Err(_) => spec_process(rest, previous, unwrapped, wall_us),
        }
    }
}

#[via_fn]
proof fn spec_process_decreases(buffer: Seq<u8>, previous: u32, unwrapped: u64, wall_us: u64) {
    lemma_find_newline_props(buffer);
}

fn find_newline(buffer: &Vec<u8>) -> (r: Option<usize>)
    ensures
        match r {
            Some(p) => p as int == spec_find_newline(buffer@),
            None => spec_find_newline(buffer@) == -1,
        },
{
    let mut k: usize = 0;
    while k < buffer.len()
        invariant
            0 <= k <= buffer@.len(),
            forall|i: int| 0 <= i < k ==> #[trigger] buffer@[i] != 10,
        decreases buffer@.len() - k,
    {
        if buffer[k] == 10 {
            proof {
                lemma_find_newline_props(buffer@);
            }
            return Some(k);
        }
        k = k + 1;
    }
    proof {
        lemma_find_newline_props(buffer@);
    }
    None
}

/// The sample source. Process code owns the serial port and hands raw bytes
/// to `process_buffer`; `published` is the (ghost) history of every record
/// published to the subscribers.
pub struct Seismometer {
    pub pub_sub: PubSub<Record>,
    pub buffer: Vec<u8>,
    pub previous_timestamp_us: u32,
    pub unwrapped_timestamp_us: u64,
    pub published: Ghost<Seq<Record>>,
}

impl Seismometer {
    /// A source with an empty buffer and the unwrapper at the session start.
    pub fn new() -> (s: Seismometer)
        ensures
            s.pub_sub.senders@.len() == 0,
            s.buffer@ == Seq::<u8>::empty(),
            s.previous_timestamp_us == 0,
            s.unwrapped_timestamp_us == 0,
            s.published@ == Seq::<Record>::empty(),
    {
        Seismometer {
            pub_sub: PubSub::new(),
            buffer: Vec::new(),
            previous_timestamp_us: 0,
            unwrapped_timestamp_us: 0,
            published: Ghost(Seq::empty()),
        }
    }

    /// Register one consumer inbox; to observe every record, subscribe
    /// before the first bytes are processed.
    pub fn subscribe(&mut self) -> (receiver: mpsc::Receiver<Record>)
        ensures
            final(self).pub_sub.senders@.len() == old(self).pub_sub.senders@.len() + 1,
            final(self).buffer == old(self).buffer,
            final(self).previous_timestamp_us == old(self).previous_timestamp_us,
            final(self).unwrapped_timestamp_us == old(self).unwrapped_timestamp_us,
            final(self).published == old(self).published,
    {
        self.pub_sub.subscribe()
    }

    /// Parse and publish every complete line in the buffer, as
    /// `spec_process` lays the pass out. Afterwards no newline remains
    /// buffered, and the unwrapped clock has not decreased.
    pub fn process_buffer(&mut self, wall_us: u64)
        ensures
            final(self).buffer@ == spec_process(
                old(self).buffer@,
                old(self).previous_timestamp_us,
                old(self).unwrapped_timestamp_us,
                wall_us,
            ).rest,
            final(self).previous_timestamp_us == spec_process(
                old(self).buffer@,
                old(self).previous_timestamp_us,
                old(self).unwrapped_timestamp_us,
                wall_us,
            ).previous_raw,
            final(self).unwrapped_timestamp_us == spec_process(
                old(self).buffer@,
                old(self).previous_timestamp_us,
                old(self).unwrapped_timestamp_us,
                wall_us,
            ).unwrapped,
            final(self).published@ == old(self).published@ + spec_process(
                old(self).buffer@,
                old(self).previous_timestamp_us,
                old(self).unwrapped_timestamp_us,
                wall_us,
            ).records,
            final(self).unwrapped_timestamp_us >= old(self).unwrapped_timestamp_us,
            final(self).pub_sub == old(self).pub_sub,
            spec_find_newline(final(self).buffer@) == -1,
    {
        let ghost st = spec_process(
            old(self).buffer@,
            old(self).previous_timestamp_us,
            old(self).unwrapped_timestamp_us,
            wall_us,
        );
        loop
            invariant
                st == spec_process(
                    old(self).buffer@,
                    old(self).previous_timestamp_us,
                    old(self).unwrapped_timestamp_us,
                    wall_us,
                ),
                spec_process(
                    self.buffer@,
                    self.previous_timestamp_us,
                    self.unwrapped_timestamp_us,
                    wall_us,
                ).rest == st.rest,
                spec_process(
                    self.buffer@,
                    self.previous_timestamp_us,
                    self.unwrapped_timestamp_us,
                    wall_us,
                ).previous_raw == st.previous_raw,
                spec_process(
                    self.buffer@,
                    self.previous_timestamp_us,
                    self.unwrapped_timestamp_us,
                    wall_us,
                ).unwrapped == st.unwrapped,
                old(self).published@ + st.records == self.published@ + spec_process(
                    self.buffer@,
                    self.previous_timestamp_us,
                    self.unwrapped_timestamp_us,
                    wall_us,
                ).records,
                self.unwrapped_timestamp_us >= old(self).unwrapped_timestamp_us,
                self.pub_sub == old(self).pub_sub,
            ensures
                spec_find_newline(self.buffer@) == -1,
                spec_process(
                    self.buffer@,
                    self.previous_timestamp_us,
                    self.unwrapped_timestamp_us,
                    wall_us,
                ).rest == st.rest,
                spec_process(
                    self.buffer@,
                    self.previous_timestamp_us,
                    self.unwrapped_timestamp_us,
                    wall_us,
                ).previous_raw == st.previous_raw,
                spec_process(
                    self.buffer@,
                    self.previous_timestamp_us,
                    self.unwrapped_timestamp_us,
                    wall_us,
                ).unwrapped == st.unwrapped,
                old(self).published@ + st.records == self.published@ + spec_process(
                    self.buffer@,
                    self.previous_timestamp_us,
                    self.unwrapped_timestamp_us,
                    wall_us,
                ).records,
                self.unwrapped_timestamp_us >= old(self).unwrapped_timestamp_us,
                self.pub_sub == old(self).pub_sub,
            decreases self.buffer@.len(),
        {
            let ghost pre_buf = self.buffer@;
            let ghost pre_prev = self.previous_timestamp_us;
            let ghost pre_unw = self.unwrapped_timestamp_us;
            let ghost pre_pub = self.published@;
            let pos = match find_newline(&self.buffer) {
                Some(p) => p,
                None => { break },
            };
            proof {
                lemma_find_newline_props(pre_buf);
            }

            if pos == 0 {
                let end = self.buffer.len();
                let mut rest: Vec<u8> = Vec::new();
                rest.extend_from_slice(&self.buffer.as_slice()[1..end]);
                self.buffer = rest;
                proof {
                    assert(self.buffer@ =~= pre_buf.skip(1));
                }
            } else {
                let parsed = Record::from(&self.buffer.as_slice()[0..pos - 1]);
                proof {
                    assert(pre_buf.subrange(0, pos - 1) =~= pre_buf.take(pos - 1));
                }
                match parsed {
                    Ok(rec) => {
                        let raw: u32 = (rec.timestamp_us % 0x1_0000_0000u64) as u32;
                        let delta: u64 = if raw >= self.previous_timestamp_us {
                            (raw - self.previous_timestamp_us) as u64
                        } else {
                            raw as u64 + 0x1_0000_0000u64 - self.previous_timestamp_us as u64
                        };
                        let unw = self.unwrapped_timestamp_us.saturating_add(delta);
                        let mut out = rec;
                        out.timestamp_us = unw;
                        out.timestamp_wall_us = wall_us;
                        self.previous_timestamp_us = raw;
                        self.unwrapped_timestamp_us = unw;
                        self.pub_sub.publish(out);
                        self.published = Ghost(self.published@.push(out));
                        proof {
                            assert(raw == spec_raw_of(rec));
                            assert(delta == spec_wrapping_delta(pre_prev, raw));
                            assert(unw == spec_unwrap_step(pre_prev, pre_unw, raw));
                            assert(out == spec_stamp(rec, unw, wall_us));
                        }
                    },
                    Err(_) => {},
                }
                let end = self.buffer.len();
                let mut rest: Vec<u8> = Vec::new();
                rest.extend_from_slice(&self.buffer.as_slice()[pos + 1..end]);
                self.buffer = rest;
                proof {
                    assert(self.buffer@ =~= pre_buf.skip(pos + 1));
                    if parsed is Ok {
                        let rec = parsed->Ok_0;
                        let raw = spec_raw_of(rec);
                        let unw = spec_unwrap_step(pre_prev, pre_unw, raw);
                        let tail = spec_process(self.buffer@, raw, unw, wall_us);
                        assert(spec_process(pre_buf, pre_prev, pre_unw, wall_us)
                            =~= (SourceStep {
                            records: seq![spec_stamp(rec, unw, wall_us)] + tail.records,
                            rest: tail.rest,
                            previous_raw: tail.previous_raw,
                            unwrapped: tail.unwrapped,
                        }));
                        assert(pre_pub + spec_process(pre_buf, pre_prev, pre_unw, wall_us).records
                            =~= self.published@ + tail.records);
                    }
                }
            }
        }
    }
}

} // verus!
