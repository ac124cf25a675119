//! The decoder adapter: drives an externally supplied instruction-decoding
//! capability over a byte slice, anchoring each decoded record at a chosen
//! start virtual address and capping the cumulative bytes consumed. The
//! capability is the single source of instruction semantics; the adapter's
//! only added value is start-address anchoring and length-capping, which
//! hold for every answer the capability may give.

use vstd::prelude::*;

use crate::errors::CoreError;

verus! {

/// The external decoding capability: given the bytes from the current
/// position onward, yields how many bytes the next instruction occupies
/// and its mnemonic-and-operand text, or nothing when the bytes cannot
/// be decoded. Implementations live outside the core.
pub trait InstructionDecoder {
    fn decode_one(&mut self, bytes: &[u8]) -> Option<(usize, Vec<u8>)>;
}

/// One raw answer of the decoding capability, before anchoring.
#[derive(Debug)]
pub struct RawRecord {
    pub consumed: usize,
    pub text: Vec<u8>,
}

/// One decoded instruction: its anchored address, its byte length, and
/// the capability's mnemonic-and-operand text.
#[derive(Debug)]
pub struct Instruction {
    pub address: u64,
    pub byte_length: u64,
    pub mnemonic_and_operands: Vec<u8>,
}

/// A finite decoded sequence; `ended_early` reports that decoding stopped
/// short of the requested byte length.
#[derive(Debug)]
pub struct DecodedStream {
    pub instructions: Vec<Instruction>,
    pub ended_early: bool,
}

/// Total bytes covered by the instructions.
pub open spec fn total_len(instrs: Seq<Instruction>) -> int
    decreases instrs.len(),
{
    if instrs.len() == 0 {
        0
    } else {
        total_len(instrs.drop_last()) + instrs.last().byte_length
    }
}

/// Every instruction's address is the start address plus the bytes covered
/// before it, and each instruction covers at least one byte.
pub open spec fn stream_anchored(instrs: Seq<Instruction>, start: u64) -> bool {
    &&& forall|i: int|
        0 <= i < instrs.len() ==> (#[trigger] instrs[i]).address == start + total_len(
            instrs.take(i),
        )
    &&& forall|i: int| 0 <= i < instrs.len() ==> (#[trigger] instrs[i]).byte_length > 0
}

/// How many leading records the cap admits: a record is taken while it
/// consumes at least one byte and fits in the bytes remaining under the
/// cap.
pub open spec fn fit_count(records: Seq<RawRecord>, rem: int) -> int
    decreases records.len(),
{
    if records.len() == 0 {
        0
    } else if records[0].consumed == 0 || records[0].consumed > rem {
        0
    } else {
        1 + fit_count(records.skip(1), rem - records[0].consumed)
    }
}

/// The bytes consumed by the first `k` records.
pub open spec fn consumed_sum(records: Seq<RawRecord>, k: int) -> int
    decreases k,
{
    if k <= 0 {
        0
    } else {
        consumed_sum(records, k - 1) + records[k - 1].consumed
    }
}

/// The anchored stream the records determine under `start` and `max`:
/// exactly the admitted prefix, each instruction carrying the record's
/// length and text at the cumulative address, ended early exactly when the
/// admitted records cover fewer than `max` bytes.
pub open spec fn stream_matches(
    s: DecodedStream,
    records: Seq<RawRecord>,
    start: u64,
    max: u64,
) -> bool {
    let k = fit_count(records, max as int);
    &&& s.instructions@.len() == k
    &&& forall|i: int|
        0 <= i < k ==> (#[trigger] s.instructions@[i]).byte_length == records[i].consumed
    &&& forall|i: int|
        0 <= i < k ==> (#[trigger] s.instructions@[i]).mnemonic_and_operands@ == records[i].text@
    &&& forall|i: int|
        0 <= i < k ==> (#[trigger] s.instructions@[i]).address == start + consumed_sum(records, i)
    &&& s.ended_early == (consumed_sum(records, k) < max)
}

/// Anchors a sequence of raw capability answers at `start`, admitting
/// records only while the cumulative consumed bytes stay within
/// `max_length`. Pure: the result is a function of the records, the start
/// address and the cap alone.
pub fn anchor_records(records: &Vec<RawRecord>, start: u64, max_length: u64) -> (r: DecodedStream)
    requires
        start + max_length <= u64::MAX,
    ensures
        stream_matches(r, records@, start, max_length),
        stream_anchored(r.instructions@, start),
        total_len(r.instructions@) <= max_length,
        total_len(r.instructions@) == consumed_sum(records@, fit_count(records@, max_length as int)),
{
    let mut instrs: Vec<Instruction> = Vec::new();
    let mut acc: u64 = 0;
    let mut j: usize = 0;
    let mut stopped = false;
    proof {
        assert(records@.skip(0) =~= records@);
    }
    while j < records.len() && !stopped
        invariant
            start + max_length <= u64::MAX,
            0 <= j <= records@.len(),
            acc <= max_length,
            acc == consumed_sum(records@, j as int),
            instrs@.len() == j,
            fit_count(records@, max_length as int) == if stopped {
                j as int
            } else {
                j + fit_count(records@.skip(j as int), max_length - acc)
            },
            forall|i: int|
                0 <= i < j ==> (#[trigger] instrs@[i]).byte_length == records@[i].consumed,
            forall|i: int|
                0 <= i < j ==> (#[trigger] instrs@[i]).mnemonic_and_operands@ == records@[i].text@,
            forall|i: int|
                0 <= i < j ==> (#[trigger] instrs@[i]).address == start + consumed_sum(
                    records@,
                    i,
                ),
            forall|i: int| 0 <= i < j ==> (#[trigger] instrs@[i]).byte_length > 0,
            total_len(instrs@) == acc,
            stream_anchored(instrs@, start),
        decreases records@.len() - j, if stopped {
            0int
        } else {
            1int
        },
    {
        proof {
            assert(records@.skip(j as int)[0] == records@[j as int]);
            assert(records@.skip(j as int).skip(1) =~= records@.skip(j + 1));
        }
        let c64: u64 = records[j].consumed as u64;
        if records[j].consumed == 0 || c64 > max_length - acc {
            stopped = true;
        } else {
            let inst = Instruction {
                address: start + acc,
                byte_length: c64,
                mnemonic_and_operands: vstd::slice::slice_to_vec(records[j].text.as_slice()),
            };
            let ghost prev = instrs@;
            instrs.push(inst);
            acc = acc + c64;
            j = j + 1;
            proof {
                assert(instrs@.drop_last() =~= prev);
                assert forall|i: int| 0 <= i < j implies (#[trigger] instrs@[i]).address == start
                    + consumed_sum(records@, i) by {
                    if i < j - 1 {
                        assert(instrs@[i] == prev[i]);
                    }
                }
                assert forall|i: int| 0 <= i < instrs@.len() implies (#[trigger] instrs@[i]).address
                    == start + total_len(instrs@.take(i)) by {
                    assert(instrs@.take(i) =~= prev.take(i));
                    if i < instrs@.len() - 1 {
                        assert(instrs@[i] == prev[i]);
                    } else {
                        assert(total_len(instrs@.take(i)) == total_len(prev));
                    }
                }
            }
        }
    }
    proof {
        if !stopped {
            assert(j == records@.len());
            assert(records@.skip(j as int) =~= Seq::<RawRecord>::empty());
        }
    }
    DecodedStream { instructions: instrs, ended_early: acc < max_length }
}

/// Two anchored streams built from the same records, start address and cap
/// agree instruction by instruction: decoding is deterministic in the
/// capability's answers.
pub proof fn lemma_anchor_deterministic(
    s1: DecodedStream,
    s2: DecodedStream,
    records: Seq<RawRecord>,
    start: u64,
    max: u64,
)
    requires
        stream_matches(s1, records, start, max),
        stream_matches(s2, records, start, max),
    ensures
        s1.instructions@.len() == s2.instructions@.len(),
        s1.ended_early == s2.ended_early,
        forall|i: int|
            0 <= i < s1.instructions@.len() ==> (#[trigger] s1.instructions@[i]).address
                == s2.instructions@[i].address && s1.instructions@[i].byte_length
                == s2.instructions@[i].byte_length && s1.instructions@[i].mnemonic_and_operands@
                == s2.instructions@[i].mnemonic_and_operands@,
{
}

/// Drives the decoding capability over `bytes`, anchored at
/// `start_virtual_address` and capped at `max_length` consumed bytes.
///
/// Whatever the capability answers, the resulting stream is anchored (each
/// address is the start plus the bytes covered before it), covers at most
/// `max_length` bytes, and `ended_early` reports falling short of the cap.
/// `DecodeFailure` exactly when decoding stopped short with zero
/// instructions produced; partial results are otherwise retained.
pub fn decode<D: InstructionDecoder>(
    decoder: &mut D,
    bytes: &[u8],
    start_virtual_address: u64,
    max_length: u64,
) -> (r: Result<DecodedStream, CoreError>)
    requires
        start_virtual_address + max_length <= u64::MAX,
    ensures
        r matches Ok(s) ==> stream_anchored(s.instructions@, start_virtual_address) && total_len(
            s.instructions@,
        ) <= max_length && s.ended_early == (total_len(s.instructions@) < max_length) && (
        s.instructions@.len() > 0 || !s.ended_early),
        r matches Err(e) ==> e == CoreError::DecodeFailure,
        max_length == 0 ==> (r matches Ok(s) && s.instructions@.len() == 0 && !s.ended_early),
        bytes@.len() == 0 && max_length > 0 ==> r == Err::<DecodedStream, CoreError>(
            CoreError::DecodeFailure,
        ),
{
    let mut records: Vec<RawRecord> = Vec::new();
    let mut pos: usize = 0;
    let mut failed = false;
    while pos < bytes.len() && !failed
        invariant
            0 <= pos <= bytes@.len(),
            bytes@.len() == 0 ==> records@.len() == 0,
        decreases bytes@.len() - pos, if failed {
            0int
        } else {
            1int
        },
    {
        let rest = vstd::slice::slice_subrange(bytes, pos, bytes.len());
        match decoder.decode_one(rest) {
            Some((consumed, text)) => {
                if consumed == 0 || consumed > bytes.len() - pos {
                    failed = true;
                } else {
                    pos = pos + consumed;
                    records.push(RawRecord { consumed, text });
                }
            },
            None => {
                failed = true;
            },
        }
    }
    let stream = anchor_records(&records, start_virtual_address, max_length);
    proof {
        if max_length == 0 {
            assert(fit_count(records@, 0) == 0);
            assert(consumed_sum(records@, 0) == 0);
        }
        if records@.len() == 0 {
            assert(fit_count(records@, max_length as int) == 0);
            assert(consumed_sum(records@, 0) == 0);
        }
    }
    if stream.instructions.len() == 0 && stream.ended_early {
        return Err(CoreError::DecodeFailure);
    }
    proof {
        if total_len(stream.instructions@) == max_length {
            assert(!stream.ended_early);
        }
    }
    Ok(stream)
}

} // verus!
