//! The alignment engine: resolves the symbol in the instrumented binary's
//! debug metadata, determines the comparable byte range of the reference
//! binary, decodes both ranges anchored at the *same* virtual address so
//! that relative control-flow targets print identically, and formats both
//! instruction streams.
//!
//! The shared anchor is a heuristic, not a correctness guarantee: when the
//! size table supplies no explicit reference address, the instrumented
//! binary's address is used as a best-effort guess that the two layouts
//! are close.

use vstd::prelude::*;

use crate::decode::{decode, lemma_anchor_deterministic, stream_anchored, stream_matches,
    total_len, DecodedStream, InstructionDecoder, Instruction, RawRecord};
use crate::errors::CoreError;
use crate::image::Image;
use crate::render::{format_spec, format_stream, hidden_lit_count, lemma_format_redacts,
    DisasmOpts};
use crate::symbols::{resolve, resolve_spec, table_lookup, SymbolSizeTable};

verus! {

/// The resolved (address, byte-length) pair for the instrumented binary's
/// function, retained across recompute runs solely to display a delta.
#[derive(Clone, Copy, Debug, PartialEq, Eq, Structural)]
pub struct ComparisonResult {
    pub offset: u64,
    pub length: u64,
}

/// Where and how much to disassemble on each side: the shared anchor
/// address (the instrumented function's relative virtual address), the
/// reference binary's own start address, and the one byte length both
/// streams use.
#[derive(Clone, Copy, Debug, PartialEq, Eq, Structural)]
pub struct ComparePlan {
    pub rva: u64,
    pub reference_va: u64,
    pub length: u64,
}

/// The plan the metadata text, the size table and the truncation policy
/// determine.
///
/// The symbol must resolve in the metadata; the length is the metadata's
/// when reported, else the table's, and with neither the symbol counts as
/// not found (an unbounded scan is never performed). When truncation to
/// the reference length is requested and the table knows that length, it
/// replaces the instrumented one. The reference start address is the
/// table's explicit address when present, else the shared anchor itself.
pub open spec fn plan_spec(
    text: Seq<u8>,
    name: Seq<u8>,
    table: SymbolSizeTable,
    truncate_to_original: bool,
) -> Result<ComparePlan, CoreError> {
    match resolve_spec(text, name) {
        None => Err(CoreError::SymbolNotFound),
        Some(e) => {
            let rva = e.0;
            let looked = table_lookup(table.entries@, name);
            let table_addr = match looked {
                Some(t) => t.0,
                None => None,
            };
            let table_size = match looked {
                Some(t) => t.1,
                None => None,
            };
            let base_len = match e.1 {
                Some(l) => Some(l),
                None => table_size,
            };
            match base_len {
                None => Err(CoreError::SymbolNotFound),
                Some(l0) => {
                    let length = if truncate_to_original {
                        match table_size {
                            Some(r) => r,
                            None => l0,
                        }
                    } else {
                        l0
                    };
                    let reference_va = match table_addr {
                        Some(a) => a,
                        None => rva,
                    };
                    Ok(ComparePlan { rva, reference_va, length })
                },
            }
        },
    }
}

/// Computes the comparison plan from the metadata text, the symbol name,
/// the size table and the truncation policy.
pub fn plan_compare(
    text: &[u8],
    name: &[u8],
    table: &SymbolSizeTable,
    truncate_to_original: bool,
) -> (r: Result<ComparePlan, CoreError>)
    ensures
        r == plan_spec(text@, name@, *table, truncate_to_original),
{
    let info = match resolve(text, name) {
        Ok(info) => info,
        Err(e) => {
            return Err(e);
        },
    };
    let looked = table.lookup(name);
    let table_addr = match looked {
        Some(t) => t.0,
        None => None,
    };
    let table_size = match looked {
        Some(t) => t.1,
        None => None,
    };
    let base_len = match info.length {
        Some(l) => Some(l),
        None => table_size,
    };
    let l0 = match base_len {
        Some(l0) => l0,
        None => {
            return Err(CoreError::SymbolNotFound);
        },
    };
    let length = if truncate_to_original {
        match table_size {
            Some(r) => r,
            None => l0,
        }
    } else {
        l0
    };
    let reference_va = match table_addr {
        Some(a) => a,
        None => info.relative_virtual_address,
    };
    Ok(ComparePlan { rva: info.relative_virtual_address, reference_va, length })
}

/// Everything one comparison run emits: the two decoded streams, their
/// formatted lines, and the resolved (offset, length) pair.
#[derive(Debug)]
pub struct CompareOutput {
    pub compare_stream: DecodedStream,
    pub reference_stream: DecodedStream,
    pub compare_lines: Vec<Vec<u8>>,
    pub orig_lines: Vec<Vec<u8>>,
    pub result: ComparisonResult,
}

/// Every stage before the decoder can do its work: the shared length does
/// not run the anchor past the address space, and both byte ranges can be
/// translated and read.
pub open spec fn ranges_ok(instrumented: Image, reference: Image, p: ComparePlan) -> bool {
    &&& p.rva + p.length <= u64::MAX
    &&& instrumented.can_extract(p.rva, p.length)
    &&& reference.can_extract(p.reference_va, p.length)
}

/// The lines are exactly the stream's instructions, each formatted under
/// the policy.
pub open spec fn lines_match(lines: Seq<Vec<u8>>, instrs: Seq<Instruction>, opts: DisasmOpts) -> bool {
    lines.map_values(|l: Vec<u8>| l@) == instrs.map_values(
        |inst: Instruction| format_spec(inst.address, inst.mnemonic_and_operands@, opts),
    )
}

/// Runs one comparison: resolve, plan, extract both byte ranges, decode
/// both anchored at the shared address, format both streams.
///
/// Both streams are decoded with the same anchor virtual address and the
/// same byte-length cap, and errors of the deterministic stages are exact:
/// a failed plan propagates unchanged, a range that cannot be translated
/// or read on either side is an `IOFailure`, and only the decoding
/// capability's answers decide between success and `DecodeFailure`.
pub fn compare<D: InstructionDecoder>(
    decoder: &mut D,
    instrumented: &Image,
    metadata_text: &[u8],
    reference: &Image,
    symbol_name: &[u8],
    size_table: &SymbolSizeTable,
    opts: &DisasmOpts,
    truncate_to_original: bool,
) -> (r: Result<CompareOutput, CoreError>)
    requires
        instrumented.wf(),
        reference.wf(),
    ensures
        plan_spec(metadata_text@, symbol_name@, *size_table, truncate_to_original) matches Err(e)
            ==> r == Err::<CompareOutput, CoreError>(e),
        plan_spec(metadata_text@, symbol_name@, *size_table, truncate_to_original) matches Ok(p)
            ==> match r {
            Ok(out) => {
                &&& out.result == ComparisonResult { offset: p.rva, length: p.length }
                &&& stream_anchored(out.compare_stream.instructions@, p.rva)
                &&& stream_anchored(out.reference_stream.instructions@, p.rva)
                &&& total_len(out.compare_stream.instructions@) <= p.length
                &&& total_len(out.reference_stream.instructions@) <= p.length
                &&& out.compare_stream.ended_early == (total_len(out.compare_stream.instructions@)
                    < p.length)
                &&& out.reference_stream.ended_early == (total_len(
                    out.reference_stream.instructions@,
                ) < p.length)
                &&& (out.compare_stream.instructions@.len() > 0 || !out.compare_stream.ended_early)
                &&& (out.reference_stream.instructions@.len() > 0
                    || !out.reference_stream.ended_early)
                &&& lines_match(out.compare_lines@, out.compare_stream.instructions@, *opts)
                &&& lines_match(out.orig_lines@, out.reference_stream.instructions@, *opts)
            },
            Err(e) => e == CoreError::IOFailure || e == CoreError::DecodeFailure,
        },
        plan_spec(metadata_text@, symbol_name@, *size_table, truncate_to_original) matches Ok(p)
            ==> {
            &&& (ranges_ok(*instrumented, *reference, p) ==> (r is Ok || r == Err::<
                CompareOutput,
                CoreError,
            >(CoreError::DecodeFailure)))
            &&& (!ranges_ok(*instrumented, *reference, p) ==> r == Err::<
                CompareOutput,
                CoreError,
            >(CoreError::IOFailure))
        },
{
    let plan = match plan_compare(metadata_text, symbol_name, size_table, truncate_to_original) {
        Ok(plan) => plan,
        Err(e) => {
            return Err(e);
        },
    };
    if plan.length > u64::MAX - plan.rva {
        return Err(CoreError::IOFailure);
    }
    let compare_bytes = match instrumented.extract_range(plan.rva, plan.length) {
        Ok(b) => b,
        Err(e) => {
            return Err(e);
        },
    };
    let orig_bytes = match reference.extract_range(plan.reference_va, plan.length) {
        Ok(b) => b,
        Err(e) => {
            return Err(e);
        },
    };
    proof {
        assert(instrumented.can_extract(plan.rva, plan.length));
        assert(reference.can_extract(plan.reference_va, plan.length));
        assert(ranges_ok(*instrumented, *reference, plan));
    }
    let compare_stream = match decode(
        decoder,
        compare_bytes.as_slice(),
        plan.rva,
        plan.length,
    ) {
        Ok(s) => s,
        Err(e) => {
            return Err(e);
        },
    };
    let reference_stream = match decode(decoder, orig_bytes.as_slice(), plan.rva, plan.length) {
        Ok(s) => s,
        Err(e) => {
            return Err(e);
        },
    };
    let compare_lines = format_stream(&compare_stream.instructions, opts);
    let orig_lines = format_stream(&reference_stream.instructions, opts);
    Ok(
        CompareOutput {
            compare_stream,
            reference_stream,
            compare_lines,
            orig_lines,
            result: ComparisonResult { offset: plan.rva, length: plan.length },
        },
    )
}

/// Determinism law: two decodings of the same capability answers under
/// the same anchor address and cap, formatted under the same options,
/// yield byte-identical output lines.
pub proof fn lemma_pipeline_deterministic(
    s1: DecodedStream,
    s2: DecodedStream,
    records: Seq<RawRecord>,
    start: u64,
    max: u64,
    l1: Seq<Vec<u8>>,
    l2: Seq<Vec<u8>>,
    opts: DisasmOpts,
)
    requires
        stream_matches(s1, records, start, max),
        stream_matches(s2, records, start, max),
        lines_match(l1, s1.instructions@, opts),
        lines_match(l2, s2.instructions@, opts),
    ensures
        l1.map_values(|l: Vec<u8>| l@) == l2.map_values(|l: Vec<u8>| l@),
{
    lemma_anchor_deterministic(s1, s2, records, start, max);
    let f = |inst: Instruction| format_spec(inst.address, inst.mnemonic_and_operands@, opts);
    assert forall|i: int| 0 <= i < s1.instructions@.len() implies #[trigger] s1.instructions@.map_values(
        f,
    )[i] == s2.instructions@.map_values(f)[i] by {
        assert(s1.instructions@.map_values(f)[i] == f(s1.instructions@[i]));
        assert(s2.instructions@.map_values(f)[i] == f(s2.instructions@[i]));
    }
    assert(s1.instructions@.map_values(f) =~= s2.instructions@.map_values(f));
}

/// Truncation law: when truncation to the reference length is requested
/// and the size table knows that length, the plan's byte length — the cap
/// on both streams' consumed bytes — is exactly the reference length.
pub proof fn lemma_truncate_to_reference(text: Seq<u8>, name: Seq<u8>, table: SymbolSizeTable)
    requires
        resolve_spec(text, name) is Some,
        table_lookup(table.entries@, name) matches Some(t) && t.1 is Some,
    ensures
        plan_spec(text, name, table, true) matches Ok(p) && p.length == table_lookup(
            table.entries@,
            name,
        )->Some_0.1->Some_0,
{
}

/// Redaction law over a whole output: every line of a stream formatted
/// under a policy that hides memory displacements carries no
/// memory-displacement literal, and every line under one that hides
/// immediates carries no immediate literal.
pub proof fn lemma_lines_redacted(lines: Seq<Vec<u8>>, instrs: Seq<Instruction>, opts: DisasmOpts)
    requires
        lines_match(lines, instrs, opts),
    ensures
        !opts.show_mem_disp ==> forall|i: int|
            0 <= i < lines.len() ==> hidden_lit_count((#[trigger] lines[i])@, 0, true) == 0,
        !opts.show_imms ==> forall|i: int|
            0 <= i < lines.len() ==> hidden_lit_count((#[trigger] lines[i])@, 0, false) == 0,
{
    assert(lines.map_values(|l: Vec<u8>| l@).len() == instrs.map_values(
        |inst: Instruction| format_spec(inst.address, inst.mnemonic_and_operands@, opts),
    ).len());
    assert forall|i: int| 0 <= i < lines.len() implies hidden_lit_count(
        (#[trigger] lines[i])@,
        0,
        true,
    ) == (if opts.show_mem_disp {
        hidden_lit_count(lines[i]@, 0, true)
    } else {
        0int
    }) && hidden_lit_count(lines[i]@, 0, false) == (if opts.show_imms {
        hidden_lit_count(lines[i]@, 0, false)
    } else {
        0int
    }) by {
        assert(lines.map_values(|l: Vec<u8>| l@)[i] == lines[i]@);
        assert(instrs.map_values(
            |inst: Instruction| format_spec(inst.address, inst.mnemonic_and_operands@, opts),
        )[i] == format_spec(instrs[i].address, instrs[i].mnemonic_and_operands@, opts));
        lemma_format_redacts(instrs[i].address, instrs[i].mnemonic_and_operands@, opts);
    }
}

} // verus!
