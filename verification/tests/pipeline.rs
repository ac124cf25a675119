use devilution_comparer::decode::{anchor_records, decode, InstructionDecoder, RawRecord};
use devilution_comparer::driver::{generate_all, EntryOutcome};
use devilution_comparer::engine::{compare, plan_compare, ComparePlan, ComparisonResult};
use devilution_comparer::errors::CoreError;
use devilution_comparer::image::{parse_section_table, read_bytes, Image, Section, SectionMap};
use devilution_comparer::recompute::{delta_u64, Delta, RecomputeState};
use devilution_comparer::render::{hex16_bytes, redact, DisasmOpts};
use devilution_comparer::symbols::{SizeEntry, SymbolSizeTable};

/// Decodes every position as one fixed-size instruction with fixed text.
struct FixedDecoder {
    size: usize,
    text: Vec<u8>,
}

impl InstructionDecoder for FixedDecoder {
    fn decode_one(&mut self, bytes: &[u8]) -> Option<(usize, Vec<u8>)> {
        if bytes.is_empty() {
            None
        } else {
            Some((self.size, self.text.clone()))
        }
    }
}

/// Rejects every byte sequence.
struct FailingDecoder;

impl InstructionDecoder for FailingDecoder {
    fn decode_one(&mut self, _bytes: &[u8]) -> Option<(usize, Vec<u8>)> {
        None
    }
}

fn test_image(va: u64, size: u64, file_offset: u64, file_len: usize) -> Image {
    Image {
        bytes: vec![0x90; file_len],
        sections: SectionMap {
            sections: vec![Section { virtual_address: va, virtual_size: size, file_offset }],
        },
    }
}

fn show_all() -> DisasmOpts {
    DisasmOpts { print_adresses: true, show_mem_disp: true, show_imms: true }
}

#[test]
fn translate_inside_section() {
    let map = SectionMap {
        sections: vec![Section { virtual_address: 0x1000, virtual_size: 0x100, file_offset: 0x400 }],
    };
    assert_eq!(map.translate(0x1050), Ok(0x450));
    assert_eq!(map.translate(0x1000), Ok(0x400));
    assert_eq!(map.translate(0x10FF), Ok(0x4FF));
}

#[test]
fn translate_outside_sections_fails() {
    let map = SectionMap {
        sections: vec![Section { virtual_address: 0x1000, virtual_size: 0x100, file_offset: 0x400 }],
    };
    assert_eq!(map.translate(0xFFF), Err(CoreError::IOFailure));
    assert_eq!(map.translate(0x1100), Err(CoreError::IOFailure));
}

#[test]
fn read_bytes_in_and_out_of_range() {
    let data = vec![1u8, 2, 3, 4, 5];
    assert_eq!(read_bytes(&data, 1, 3), Ok(vec![2, 3, 4]));
    assert_eq!(read_bytes(&data, 3, 3), Err(CoreError::IOFailure));
}

#[test]
fn anchor_records_caps_and_anchors() {
    let records = vec![
        RawRecord { consumed: 2, text: b"a".to_vec() },
        RawRecord { consumed: 3, text: b"b".to_vec() },
    ];
    let stream = anchor_records(&records, 0x10, 4);
    assert_eq!(stream.instructions.len(), 1);
    assert_eq!(stream.instructions[0].address, 0x10);
    assert_eq!(stream.instructions[0].byte_length, 2);
    assert_eq!(stream.instructions[0].mnemonic_and_operands, b"a".to_vec());
    assert!(stream.ended_early);
}

#[test]
fn decode_fixed_width_stream() {
    let bytes = vec![0u8; 8];
    let mut dec = FixedDecoder { size: 4, text: b"insn".to_vec() };
    let stream = decode(&mut dec, &bytes, 0x401000, 8).unwrap();
    assert_eq!(stream.instructions.len(), 2);
    assert_eq!(stream.instructions[0].address, 0x401000);
    assert_eq!(stream.instructions[1].address, 0x401004);
    assert!(!stream.ended_early);
}

#[test]
fn decode_failure_with_zero_instructions() {
    let bytes = vec![0u8; 8];
    let mut dec = FailingDecoder;
    assert_eq!(decode(&mut dec, &bytes, 0, 8).unwrap_err(), CoreError::DecodeFailure);
}

#[test]
fn decode_truncates_total_consumed() {
    let bytes = vec![0u8; 16];
    let mut dec = FixedDecoder { size: 4, text: b"insn".to_vec() };
    let stream = decode(&mut dec, &bytes, 0, 6).unwrap();
    let total: u64 = stream.instructions.iter().map(|i| i.byte_length).sum();
    assert!(total <= 6);
    assert_eq!(stream.instructions.len(), 1);
    assert!(stream.ended_early);
}

#[test]
fn redact_hides_memory_displacement() {
    let out = redact(b"mov eax, [ebp+0x8]", false, true);
    assert_eq!(out, b"mov eax, [ebp+<disp>]".to_vec());
}

#[test]
fn redact_hides_immediate() {
    let out = redact(b"add eax, 0x10", true, false);
    assert_eq!(out, b"add eax, <imm>".to_vec());
}

#[test]
fn redact_policies_are_independent() {
    let text = b"mov dword [0x437f10], 0x5";
    let mem_only = redact(text, false, true);
    assert_eq!(mem_only, b"mov dword [<disp>], 0x5".to_vec());
    let imm_only = redact(text, true, false);
    assert_eq!(imm_only, b"mov dword [0x437f10], <imm>".to_vec());
    let both = redact(text, false, false);
    assert_eq!(both, b"mov dword [<disp>], <imm>".to_vec());
}

#[test]
fn redact_keeps_everything_when_shown() {
    let text = b"lea esi, [esi+0x0]";
    assert_eq!(redact(text, true, true), text.to_vec());
}

#[test]
fn hex16_fixed_width() {
    assert_eq!(hex16_bytes(0x401000), b"0000000000401000".to_vec());
    assert_eq!(hex16_bytes(u64::MAX), b"ffffffffffffffff".to_vec());
}

#[test]
fn format_prefixes_address_column() {
    let records = vec![RawRecord { consumed: 2, text: b"jmp 0x401010".to_vec() }];
    let stream = anchor_records(&records, 0x401000, 2);
    let opts = show_all();
    let line = devilution_comparer::render::format(&stream.instructions[0], &opts);
    assert_eq!(line, b"0000000000401000\tjmp 0x401010".to_vec());
}

#[test]
fn format_without_address_column() {
    let records = vec![RawRecord { consumed: 2, text: b"ret".to_vec() }];
    let stream = anchor_records(&records, 0x401000, 2);
    let opts = DisasmOpts { print_adresses: false, show_mem_disp: true, show_imms: true };
    let line = devilution_comparer::render::format(&stream.instructions[0], &opts);
    assert_eq!(line, b"ret".to_vec());
}

#[test]
fn decode_then_format_is_deterministic() {
    let records = vec![
        RawRecord { consumed: 2, text: b"mov eax, [ebp+0x8]".to_vec() },
        RawRecord { consumed: 1, text: b"ret".to_vec() },
    ];
    let opts = DisasmOpts { print_adresses: true, show_mem_disp: false, show_imms: false };
    let one: Vec<Vec<u8>> = anchor_records(&records, 0x500, 3)
        .instructions
        .iter()
        .map(|i| devilution_comparer::render::format(i, &opts))
        .collect();
    let two: Vec<Vec<u8>> = anchor_records(&records, 0x500, 3)
        .instructions
        .iter()
        .map(|i| devilution_comparer::render::format(i, &opts))
        .collect();
    assert_eq!(one, two);
}

#[test]
fn plan_uses_metadata_length_first() {
    let text = b"foo 0x401000 0x20\n";
    let table = SymbolSizeTable {
        entries: vec![SizeEntry { name: b"foo".to_vec(), address: Some(0x1234), size: Some(0x40) }],
    };
    let plan = plan_compare(text, b"foo", &table, false).unwrap();
    assert_eq!(plan, ComparePlan { rva: 0x401000, reference_va: 0x1234, length: 0x20 });
}

#[test]
fn plan_truncates_to_reference_length() {
    let text = b"foo 0x401000 0x20\n";
    let table = SymbolSizeTable {
        entries: vec![SizeEntry { name: b"foo".to_vec(), address: None, size: Some(0x18) }],
    };
    let plan = plan_compare(text, b"foo", &table, true).unwrap();
    assert_eq!(plan, ComparePlan { rva: 0x401000, reference_va: 0x401000, length: 0x18 });
}

#[test]
fn plan_falls_back_to_table_length() {
    let text = b"foo 0x401000\n";
    let table = SymbolSizeTable {
        entries: vec![SizeEntry { name: b"foo".to_vec(), address: None, size: Some(0x30) }],
    };
    let plan = plan_compare(text, b"foo", &table, false).unwrap();
    assert_eq!(plan.length, 0x30);
}

#[test]
fn plan_without_any_length_fails() {
    let text = b"foo 0x401000\n";
    let table = SymbolSizeTable { entries: vec![] };
    assert_eq!(plan_compare(text, b"foo", &table, false), Err(CoreError::SymbolNotFound));
}

#[test]
fn compare_end_to_end_shared_anchor() {
    let text = b"foo 0x401000 0x20\n";
    let table = SymbolSizeTable { entries: vec![] };
    let instrumented = test_image(0x401000, 0x100, 0, 0x100);
    let reference = test_image(0x401000, 0x100, 0, 0x100);
    let mut dec = FixedDecoder { size: 4, text: b"insn".to_vec() };
    let opts = show_all();
    let out = compare(
        &mut dec,
        &instrumented,
        text,
        &reference,
        b"foo",
        &table,
        &opts,
        false,
    )
    .unwrap();
    assert_eq!(out.result, ComparisonResult { offset: 0x401000, length: 0x20 });
    assert_eq!(out.compare_lines.len(), 8);
    assert_eq!(out.orig_lines.len(), 8);
    // both streams anchored at the same virtual address
    assert!(out.compare_lines[0].starts_with(b"0000000000401000\t"));
    assert!(out.orig_lines[0].starts_with(b"0000000000401000\t"));
    assert_eq!(out.compare_lines, out.orig_lines);
}

#[test]
fn compare_missing_symbol_everywhere_fails() {
    let text = b"foo 0x401000 0x20\n";
    let table = SymbolSizeTable { entries: vec![] };
    let instrumented = test_image(0x401000, 0x100, 0, 0x100);
    let reference = test_image(0x401000, 0x100, 0, 0x100);
    let mut dec = FixedDecoder { size: 4, text: b"insn".to_vec() };
    let opts = show_all();
    let err = compare(
        &mut dec,
        &instrumented,
        text,
        &reference,
        b"bar",
        &table,
        &opts,
        false,
    )
    .unwrap_err();
    assert_eq!(err, CoreError::SymbolNotFound);
}

#[test]
fn generate_all_counts_reference_entries() {
    let image = test_image(0x1000, 0x100, 0, 0x100);
    let table = SymbolSizeTable {
        entries: vec![
            SizeEntry { name: b"alpha".to_vec(), address: Some(0x1000), size: Some(0x8) },
            SizeEntry { name: b"beta".to_vec(), address: Some(0x1010), size: None },
            SizeEntry { name: b"gamma".to_vec(), address: None, size: Some(0x8) },
        ],
    };
    let mut dec = FixedDecoder { size: 4, text: b"insn".to_vec() };
    let opts = show_all();
    let out = generate_all(&mut dec, &image, b"", &table, true, &opts, false);
    assert_eq!(out.count_written, 1);
    assert_eq!(out.count_skipped, 1);
    assert_eq!(out.failed, vec![b"gamma".to_vec()]);
    assert_eq!(
        out.outcomes,
        vec![EntryOutcome::Written, EntryOutcome::Skipped, EntryOutcome::Failed]
    );
    assert_eq!(
        out.count_written + out.count_skipped + out.failed.len(),
        table.entries.len()
    );
}

#[test]
fn generate_all_instrumented_resolves_metadata() {
    let image = test_image(0x1000, 0x100, 0, 0x100);
    let text = b"alpha 0x1000 0x8\n";
    let table = SymbolSizeTable {
        entries: vec![
            SizeEntry { name: b"alpha".to_vec(), address: None, size: None },
            SizeEntry { name: b"missing".to_vec(), address: None, size: None },
        ],
    };
    let mut dec = FixedDecoder { size: 4, text: b"insn".to_vec() };
    let opts = show_all();
    let out = generate_all(&mut dec, &image, text, &table, false, &opts, false);
    assert_eq!(out.count_written, 1);
    assert_eq!(out.count_skipped, 0);
    assert_eq!(out.failed, vec![b"missing".to_vec()]);
    assert_eq!(out.outcomes, vec![EntryOutcome::Written, EntryOutcome::Failed]);
    // a header line precedes the function's block
    assert!(out.lines[0].starts_with(b"== alpha\t"));
}

#[test]
fn delta_exact_signed_difference() {
    assert_eq!(delta_u64(7, 5), Delta { negative: false, magnitude: 2 });
    assert_eq!(delta_u64(5, 7), Delta { negative: true, magnitude: 2 });
    assert_eq!(delta_u64(5, 5), Delta { negative: false, magnitude: 0 });
}

#[test]
fn record_run_reports_deltas_against_last_success() {
    let mut state = RecomputeState::new();
    let first = state
        .record_run(&Ok(ComparisonResult { offset: 0x100, length: 0x20 }))
        .unwrap();
    assert_eq!(first.offset_delta, None);
    assert_eq!(first.length_delta, None);

    // a failing run leaves the retained result untouched
    assert!(state.record_run(&Err(CoreError::IOFailure)).is_none());

    let second = state
        .record_run(&Ok(ComparisonResult { offset: 0x110, length: 0x18 }))
        .unwrap();
    assert_eq!(second.offset, 0x110);
    assert_eq!(
        second.offset_delta,
        Some(Delta { negative: false, magnitude: 0x10 })
    );
    assert_eq!(
        second.length_delta,
        Some(Delta { negative: true, magnitude: 8 })
    );
}

#[test]
fn compare_address_outside_sections_is_io_failure() {
    // metadata points at an address no section of the images contains
    let text = b"foo 0x900000 0x20\n";
    let table = SymbolSizeTable { entries: vec![] };
    let instrumented = test_image(0x401000, 0x100, 0, 0x100);
    let reference = test_image(0x401000, 0x100, 0, 0x100);
    let mut dec = FixedDecoder { size: 4, text: b"insn".to_vec() };
    let opts = show_all();
    let err = compare(
        &mut dec,
        &instrumented,
        text,
        &reference,
        b"foo",
        &table,
        &opts,
        false,
    )
    .unwrap_err();
    assert_eq!(err, CoreError::IOFailure);
}

#[test]
fn compare_read_past_image_end_is_io_failure() {
    // the section covers the range but the file buffer is shorter
    let text = b"foo 0x401000 0x80\n";
    let table = SymbolSizeTable { entries: vec![] };
    let instrumented = test_image(0x401000, 0x100, 0, 0x40);
    let reference = test_image(0x401000, 0x100, 0, 0x40);
    let mut dec = FixedDecoder { size: 4, text: b"insn".to_vec() };
    let opts = show_all();
    let err = compare(
        &mut dec,
        &instrumented,
        text,
        &reference,
        b"foo",
        &table,
        &opts,
        false,
    )
    .unwrap_err();
    assert_eq!(err, CoreError::IOFailure);
}

#[test]
fn compare_undecodable_bytes_is_decode_failure() {
    let text = b"foo 0x401000 0x20\n";
    let table = SymbolSizeTable { entries: vec![] };
    let instrumented = test_image(0x401000, 0x100, 0, 0x100);
    let reference = test_image(0x401000, 0x100, 0, 0x100);
    let mut dec = FailingDecoder;
    let opts = show_all();
    let err = compare(
        &mut dec,
        &instrumented,
        text,
        &reference,
        b"foo",
        &table,
        &opts,
        false,
    )
    .unwrap_err();
    assert_eq!(err, CoreError::DecodeFailure);
}

#[test]
fn compare_uses_explicit_reference_address() {
    // the reference image holds the function at a different address,
    // supplied by the size table; the output stays anchored at the rva
    let text = b"foo 0x401000 0x8\n";
    let table = SymbolSizeTable {
        entries: vec![SizeEntry { name: b"foo".to_vec(), address: Some(0x501000), size: None }],
    };
    let instrumented = test_image(0x401000, 0x100, 0, 0x100);
    let reference = test_image(0x501000, 0x100, 0, 0x100);
    let mut dec = FixedDecoder { size: 4, text: b"insn".to_vec() };
    let opts = show_all();
    let out = compare(
        &mut dec,
        &instrumented,
        text,
        &reference,
        b"foo",
        &table,
        &opts,
        false,
    )
    .unwrap();
    assert_eq!(out.result, ComparisonResult { offset: 0x401000, length: 0x8 });
    assert!(out.orig_lines[0].starts_with(b"0000000000401000\t"));
}

#[test]
fn generate_all_truncates_to_table_length() {
    // the entry's own length wins under truncation on the instrumented side
    let image = test_image(0x1000, 0x100, 0, 0x100);
    let text = b"alpha 0x1000 0x10\n";
    let table = SymbolSizeTable {
        entries: vec![SizeEntry { name: b"alpha".to_vec(), address: None, size: Some(0x4) }],
    };
    let mut dec = FixedDecoder { size: 4, text: b"insn".to_vec() };
    let opts = show_all();
    let out = generate_all(&mut dec, &image, text, &table, false, &opts, true);
    assert_eq!(out.count_written, 1);
    // one header line plus exactly one 4-byte instruction
    assert_eq!(out.lines.len(), 2);
}

#[test]
fn decode_empty_cap_and_empty_bytes() {
    let mut dec = FixedDecoder { size: 4, text: b"insn".to_vec() };
    let stream = decode(&mut dec, &[], 0x10, 0).unwrap();
    assert_eq!(stream.instructions.len(), 0);
    assert!(!stream.ended_early);
    assert_eq!(decode(&mut dec, &[], 0x10, 4).unwrap_err(), CoreError::DecodeFailure);
}

fn pe_bytes(rows: &[(u32, u32, u32)]) -> Vec<u8> {
    // minimal headers: header pointer at 0x3C, signature, section count,
    // empty optional header, then one forty-byte row per section
    let pe: usize = 0x40;
    let table = pe + 24;
    let mut b = vec![0u8; table + rows.len() * 40];
    b[0x3C..0x40].copy_from_slice(&(pe as u32).to_le_bytes());
    b[pe..pe + 4].copy_from_slice(&0x4550u32.to_le_bytes());
    b[pe + 6..pe + 8].copy_from_slice(&(rows.len() as u16).to_le_bytes());
    b[pe + 20..pe + 22].copy_from_slice(&0u16.to_le_bytes());
    for (k, (vsize, va, raw)) in rows.iter().enumerate() {
        let base = table + k * 40;
        b[base + 8..base + 12].copy_from_slice(&vsize.to_le_bytes());
        b[base + 12..base + 16].copy_from_slice(&va.to_le_bytes());
        b[base + 20..base + 24].copy_from_slice(&raw.to_le_bytes());
    }
    b
}

#[test]
fn parse_section_table_reads_declared_rows() {
    let bytes = pe_bytes(&[(0x100, 0x1000, 0x400), (0x200, 0x2000, 0x600)]);
    let map = parse_section_table(&bytes).unwrap();
    assert_eq!(map.sections.len(), 2);
    assert_eq!(map.sections[0].virtual_address, 0x1000);
    assert_eq!(map.sections[0].virtual_size, 0x100);
    assert_eq!(map.sections[0].file_offset, 0x400);
    assert_eq!(map.sections[1].virtual_address, 0x2000);
}

#[test]
fn parse_section_table_rejects_bad_signature() {
    let mut bytes = pe_bytes(&[(0x100, 0x1000, 0x400)]);
    bytes[0x40] = 0;
    assert_eq!(parse_section_table(&bytes).unwrap_err(), CoreError::IOFailure);
    assert_eq!(parse_section_table(b"short").unwrap_err(), CoreError::IOFailure);
}

#[test]
fn parse_section_table_rejects_overlapping_sections() {
    let bytes = pe_bytes(&[(0x100, 0x1000, 0x400), (0x200, 0x1080, 0x600)]);
    assert_eq!(parse_section_table(&bytes).unwrap_err(), CoreError::IOFailure);
}
