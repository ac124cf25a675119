//! The full-binary driver: walks every entry of the persisted symbol-size
//! table in stored order, disassembles each resolvable function of one
//! binary, and collects all output lines behind per-function header lines.
//! Entries the reference binary has no known length for are skipped and
//! counted; entries that fail are surfaced by name, counting as neither
//! written nor skipped.

use vstd::prelude::*;

use crate::decode::{decode, InstructionDecoder};
use crate::errors::CoreError;
use crate::image::Image;
use crate::render::{format_stream, hex16, hex16_bytes, DisasmOpts, TAB};
use crate::symbols::{resolve, resolve_spec, SizeEntry, SymbolSizeTable};

verus! {

pub const EQUALS_SIGN: u8 = 61;
pub const SPACE: u8 = 32;

/// What became of one table entry during a full-binary run.
#[derive(Clone, Copy, Debug, PartialEq, Eq, Structural)]
pub enum EntryOutcome {
    Written,
    Skipped,
    Failed,
}

/// An entry the run passes over rather than processing: on the reference
/// side, one without an explicit length (the reference binary has no
/// other source of function boundaries).
pub open spec fn entry_skipped(e: SizeEntry, for_reference: bool) -> bool {
    for_reference && e.size is None
}

/// Where and how much an entry would disassemble, when the inputs decide
/// it: on the reference side its explicit address and length; on the
/// instrumented side the resolved address, with the length from the
/// metadata or, failing that, from the entry, the entry's length taking
/// precedence under truncation. `None` when no address or no length is
/// known.
pub open spec fn entry_plan_spec(
    e: SizeEntry,
    text: Seq<u8>,
    for_reference: bool,
    truncate_to_original: bool,
) -> Option<(u64, u64)> {
    if for_reference {
        match (e.address, e.size) {
            (Some(a), Some(l)) => Some((a, l)),
            _ => None,
        }
    } else {
        match resolve_spec(text, e.name@) {
            None => None,
            Some(res) => {
                let base_len = match res.1 {
                    Some(l) => Some(l),
                    None => e.size,
                };
                match base_len {
                    None => None,
                    Some(l) => {
                        let length = if truncate_to_original {
                            match e.size {
                                Some(r) => r,
                                None => l,
                            }
                        } else {
                            l
                        };
                        Some((res.0, length))
                    },
                }
            },
        }
    }
}

/// How many of the outcomes are the given one.
pub open spec fn outcome_count(outcomes: Seq<EntryOutcome>, which: EntryOutcome) -> int
    decreases outcomes.len(),
{
    if outcomes.len() == 0 {
        0
    } else {
        outcome_count(outcomes.drop_last(), which) + if outcomes.last() == which {
            1int
        } else {
            0int
        }
    }
}

/// The names of the entries that failed, in table order.
pub open spec fn failed_names(entries: Seq<SizeEntry>, outcomes: Seq<EntryOutcome>) -> Seq<Seq<u8>>
    recommends
        entries.len() == outcomes.len(),
    decreases entries.len(),
{
    if entries.len() == 0 || outcomes.len() == 0 {
        Seq::<Seq<u8>>::empty()
    } else {
        failed_names(entries.drop_last(), outcomes.drop_last()) + if outcomes.last()
            == EntryOutcome::Failed {
            seq![entries.last().name@]
        } else {
            Seq::<Seq<u8>>::empty()
        }
    }
}

/// Everything a full-binary run yields: the combined output lines, what
/// became of each table entry in order, how many functions were written,
/// how many entries were skipped for want of a length, and the names of
/// the entries that failed.
#[derive(Debug)]
pub struct GenerateOutput {
    pub lines: Vec<Vec<u8>>,
    pub outcomes: Vec<EntryOutcome>,
    pub count_written: usize,
    pub count_skipped: usize,
    pub failed: Vec<Vec<u8>>,
}

/// Computes one entry's disassembly address and length, when the entry,
/// the metadata and the policy decide them.
fn plan_entry(
    e: &SizeEntry,
    text: &[u8],
    for_reference: bool,
    truncate_to_original: bool,
) -> (r: Option<(u64, u64)>)
    ensures
        r == entry_plan_spec(*e, text@, for_reference, truncate_to_original),
{
    if for_reference {
        match (e.address, e.size) {
            (Some(a), Some(l)) => Some((a, l)),
            _ => None,
        }
    } else {
        match resolve(text, e.name.as_slice()) {
            Err(_) => None,
            Ok(info) => {
                let base_len = match info.length {
                    Some(l) => Some(l),
                    None => e.size,
                };
                match base_len {
                    None => None,
                    Some(l) => {
                        let length = if truncate_to_original {
                            match e.size {
                                Some(r) => r,
                                None => l,
                            }
                        } else {
                            l
                        };
                        Some((info.relative_virtual_address, length))
                    },
                }
            },
        }
    }
}

/// Disassembles one function of one binary and formats its lines,
/// anchored at the function's own address. Succeeds only on an
/// extractable range; an unextractable one is exactly an `IOFailure`, and
/// beyond that only the decoding capability decides.
fn disasm_block<D: InstructionDecoder>(
    decoder: &mut D,
    image: &Image,
    va: u64,
    length: u64,
    opts: &DisasmOpts,
) -> (r: Result<Vec<Vec<u8>>, CoreError>)
    requires
        image.wf(),
    ensures
        r is Ok ==> va + length <= u64::MAX && image.can_extract(va, length),
        !(va + length <= u64::MAX && image.can_extract(va, length)) ==> r == Err::<
            Vec<Vec<u8>>,
            CoreError,
        >(CoreError::IOFailure),
        r matches Err(e) ==> e == CoreError::IOFailure || e == CoreError::DecodeFailure,
{
    if length > u64::MAX - va {
        return Err(CoreError::IOFailure);
    }
    let bytes = match image.extract_range(va, length) {
        Ok(b) => b,
        Err(e) => {
            return Err(e);
        },
    };
    proof {
        assert(image.can_extract(va, length));
    }
    let stream = match decode(decoder, bytes.as_slice(), va, length) {
        Ok(s) => s,
        Err(e) => {
            return Err(e);
        },
    };
    Ok(format_stream(&stream.instructions, opts))
}

/// The header line written before each function's block.
pub open spec fn header_spec(name: Seq<u8>, va: u64) -> Seq<u8> {
    seq![EQUALS_SIGN, EQUALS_SIGN, SPACE] + name + seq![TAB] + hex16(va)
}

fn header_line(name: &[u8], va: u64) -> (r: Vec<u8>)
    ensures
        r@ == header_spec(name@, va),
{
    let mut line: Vec<u8> = Vec::new();
    line.push(EQUALS_SIGN);
    line.push(EQUALS_SIGN);
    line.push(SPACE);
    let mut name_copy = vstd::slice::slice_to_vec(name);
    line.append(&mut name_copy);
    line.push(TAB);
    let mut addr = hex16_bytes(va);
    let ghost addr_view = addr@;
    line.append(&mut addr);
    proof {
        assert(line@ =~= header_spec(name@, va));
    }
    line
}

/// Iterates every size-table entry in stored order and appends each
/// disassembled function, behind a header line, to one combined output.
///
/// Exactly the reference-side entries without a length are skipped.
/// An entry whose address or length no source supplies fails, as does one
/// whose range cannot be translated or read; an entry with an extractable
/// range fails only through the decoding capability. `failed` holds
/// exactly the names of the failed entries, in table order.
pub fn generate_all<D: InstructionDecoder>(
    decoder: &mut D,
    image: &Image,
    metadata_text: &[u8],
    size_table: &SymbolSizeTable,
    for_reference: bool,
    opts: &DisasmOpts,
    truncate_to_original: bool,
) -> (r: GenerateOutput)
    requires
        image.wf(),
    ensures
        r.outcomes@.len() == size_table.entries@.len(),
        forall|k: int|
            0 <= k < r.outcomes@.len() ==> ((#[trigger] r.outcomes@[k] == EntryOutcome::Skipped)
                <==> entry_skipped(size_table.entries@[k], for_reference)),
        forall|k: int|
            0 <= k < r.outcomes@.len() && !entry_skipped(size_table.entries@[k], for_reference)
                && entry_plan_spec(
                #[trigger] size_table.entries@[k],
                metadata_text@,
                for_reference,
                truncate_to_original,
            ) is None ==> r.outcomes@[k] == EntryOutcome::Failed,
        forall|k: int|
            0 <= k < r.outcomes@.len() && !entry_skipped(size_table.entries@[k], for_reference)
                && (entry_plan_spec(
                #[trigger] size_table.entries@[k],
                metadata_text@,
                for_reference,
                truncate_to_original,
            ) matches Some(p) && !(p.0 + p.1 <= u64::MAX && image.can_extract(p.0, p.1))) ==> r.outcomes@[k]
                == EntryOutcome::Failed,
        forall|k: int|
            0 <= k < r.outcomes@.len() && #[trigger] r.outcomes@[k] == EntryOutcome::Written ==> (
            entry_plan_spec(
                size_table.entries@[k],
                metadata_text@,
                for_reference,
                truncate_to_original,
            ) matches Some(p) && p.0 + p.1 <= u64::MAX && image.can_extract(p.0, p.1)),
        r.count_written == outcome_count(r.outcomes@, EntryOutcome::Written),
        r.count_skipped == outcome_count(r.outcomes@, EntryOutcome::Skipped),
        r.failed@.len() == outcome_count(r.outcomes@, EntryOutcome::Failed),
        r.failed@.map_values(|v: Vec<u8>| v@) == failed_names(size_table.entries@, r.outcomes@),
        r.count_written + r.count_skipped + r.failed@.len() == size_table.entries@.len(),
        !for_reference ==> r.count_skipped == 0,
        r.lines@.len() >= r.count_written,
{
    let mut lines: Vec<Vec<u8>> = Vec::new();
    let mut outcomes: Vec<EntryOutcome> = Vec::new();
    let mut count_written: usize = 0;
    let mut count_skipped: usize = 0;
    let mut failed: Vec<Vec<u8>> = Vec::new();
    let mut j: usize = 0;
    let ghost entries = size_table.entries@;
    proof {
        assert(entries.take(0) =~= Seq::<SizeEntry>::empty());
    }
    while j < size_table.entries.len()
        invariant
            0 <= j <= entries.len(),
            entries == size_table.entries@,
            image.wf(),
            outcomes@.len() == j,
            count_written == outcome_count(outcomes@, EntryOutcome::Written),
            count_skipped == outcome_count(outcomes@, EntryOutcome::Skipped),
            failed@.len() == outcome_count(outcomes@, EntryOutcome::Failed),
            count_written + count_skipped + failed@.len() == j,
            failed@.map_values(|v: Vec<u8>| v@) == failed_names(entries.take(j as int), outcomes@),
            forall|k: int|
                0 <= k < j ==> ((#[trigger] outcomes@[k] == EntryOutcome::Skipped) <==> entry_skipped(
                    entries[k],
                    for_reference,
                )),
            forall|k: int|
                0 <= k < j && !entry_skipped(entries[k], for_reference) && entry_plan_spec(
                    #[trigger] entries[k],
                    metadata_text@,
                    for_reference,
                    truncate_to_original,
                ) is None ==> outcomes@[k] == EntryOutcome::Failed,
            forall|k: int|
                0 <= k < j && !entry_skipped(entries[k], for_reference) && (entry_plan_spec(
                    #[trigger] entries[k],
                    metadata_text@,
                    for_reference,
                    truncate_to_original,
                ) matches Some(p) && !(p.0 + p.1 <= u64::MAX && image.can_extract(p.0, p.1)))
                    ==> outcomes@[k] == EntryOutcome::Failed,
            forall|k: int|
                0 <= k < j && #[trigger] outcomes@[k] == EntryOutcome::Written ==> (entry_plan_spec(
                    entries[k],
                    metadata_text@,
                    for_reference,
                    truncate_to_original,
                ) matches Some(p) && p.0 + p.1 <= u64::MAX && image.can_extract(p.0, p.1)),
            !for_reference ==> count_skipped == 0,
            lines@.len() >= count_written,
        decreases entries.len() - j,
    {
        let entry = &size_table.entries[j];
        let ghost prev_outcomes = outcomes@;
        let ghost prev_failed = failed@;
        let skip_this = if for_reference {
            entry.size.is_none()
        } else {
            false
        };
        if skip_this {
            outcomes.push(EntryOutcome::Skipped);
            count_skipped = count_skipped + 1;
        } else {
            match plan_entry(entry, metadata_text, for_reference, truncate_to_original) {
                None => {
                    failed.push(vstd::slice::slice_to_vec(entry.name.as_slice()));
                    outcomes.push(EntryOutcome::Failed);
                },
                Some((va, length)) => {
                    match disasm_block(decoder, image, va, length, opts) {
                        Ok(mut block) => {
                            lines.push(header_line(entry.name.as_slice(), va));
                            lines.append(&mut block);
                            count_written = count_written + 1;
                            outcomes.push(EntryOutcome::Written);
                        },
                        Err(_) => {
                            failed.push(vstd::slice::slice_to_vec(entry.name.as_slice()));
                            outcomes.push(EntryOutcome::Failed);
                        },
                    }
                },
            }
        }
        j = j + 1;
        proof {
            assert(outcomes@.drop_last() =~= prev_outcomes);
            assert(entries.take(j as int).drop_last() =~= entries.take(j - 1));
            assert(entries.take(j as int).last() == entries[j - 1]);
            assert forall|k: int| 0 <= k < j - 1 implies outcomes@[k] == prev_outcomes[k] by {}
            if outcomes@.last() == EntryOutcome::Failed {
                assert(failed@.drop_last() =~= prev_failed);
                assert(failed@.map_values(|v: Vec<u8>| v@) =~= prev_failed.map_values(
                    |v: Vec<u8>| v@,
                ) + seq![entries[j - 1].name@]);
            } else {
                assert(failed@.map_values(|v: Vec<u8>| v@) =~= failed_names(
                    entries.take(j as int),
                    outcomes@,
                ));
            }
            assert(failed@.map_values(|v: Vec<u8>| v@) =~= failed_names(
                entries.take(j as int),
                outcomes@,
            ));
        }
    }
    proof {
        assert(entries.take(entries.len() as int) =~= entries);
    }
    GenerateOutput { lines, outcomes, count_written, count_skipped, failed }
}

} // verus!
