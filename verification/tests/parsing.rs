use devilution_comparer::errors::CoreError;
use devilution_comparer::offsets::{is_vaild_number, parse_offset};
use devilution_comparer::symbols::{resolve, SizeEntry, SymbolSizeTable};

#[test]
fn parse_offset_decimal() {
    assert_eq!(parse_offset(b"123"), Some(123));
    assert_eq!(parse_offset(b"0"), Some(0));
}

#[test]
fn parse_offset_hex() {
    assert_eq!(parse_offset(b"0x1F"), Some(0x1F));
    assert_eq!(parse_offset(b"0xdeadBEEF"), Some(0xdead_beef));
    assert_eq!(parse_offset(b"0x401000"), Some(0x401000));
}

#[test]
fn parse_offset_rejects_garbage() {
    assert_eq!(parse_offset(b""), None);
    assert_eq!(parse_offset(b"0x"), None);
    assert_eq!(parse_offset(b"12a"), None);
    assert_eq!(parse_offset(b"0xZZ"), None);
    assert_eq!(parse_offset(b"-5"), None);
}

#[test]
fn parse_offset_bounds() {
    assert_eq!(parse_offset(b"0xFFFFFFFFFFFFFFFF"), Some(u64::MAX));
    assert_eq!(parse_offset(b"18446744073709551615"), Some(u64::MAX));
    assert_eq!(parse_offset(b"18446744073709551616"), None);
    assert_eq!(parse_offset(b"0x10000000000000000"), None);
}

#[test]
fn is_vaild_number_matches_parse() {
    assert!(is_vaild_number(b"0x10"));
    assert!(is_vaild_number(b"42"));
    assert!(!is_vaild_number(b"forty"));
    assert!(!is_vaild_number(b""));
}

#[test]
fn resolve_finds_entry_with_length() {
    let text = b"foo 0x401000 0x20\nbar 0x500 16\n";
    let info = resolve(text, b"foo").unwrap();
    assert_eq!(info.relative_virtual_address, 0x401000);
    assert_eq!(info.length, Some(0x20));
    assert_eq!(info.name, b"foo".to_vec());
}

#[test]
fn resolve_finds_entry_without_length() {
    let text = b"baz 0x10\n";
    let info = resolve(text, b"baz").unwrap();
    assert_eq!(info.relative_virtual_address, 0x10);
    assert_eq!(info.length, None);
}

#[test]
fn resolve_missing_symbol_not_found() {
    let text = b"foo 0x401000 0x20\n";
    let err = resolve(text, b"bar").unwrap_err();
    assert_eq!(err, CoreError::SymbolNotFound);
}

#[test]
fn resolve_first_match_wins() {
    let text = b"foo 0x100 0x10\nfoo 0x200 0x20\n";
    let info = resolve(text, b"foo").unwrap();
    assert_eq!(info.relative_virtual_address, 0x100);
    assert_eq!(info.length, Some(0x10));
}

#[test]
fn resolve_ignores_malformed_lines() {
    let text = b"not an entry line at all\nfoo 0xQQ 3\nfoo 0x300\n";
    let info = resolve(text, b"foo").unwrap();
    assert_eq!(info.relative_virtual_address, 0x300);
}

#[test]
fn size_table_lookup_exact_match() {
    let table = SymbolSizeTable {
        entries: vec![
            SizeEntry { name: b"foo".to_vec(), address: Some(0x400), size: Some(0x20) },
            SizeEntry { name: b"bar".to_vec(), address: None, size: None },
        ],
    };
    assert_eq!(table.lookup(b"foo"), Some((Some(0x400), Some(0x20))));
    assert_eq!(table.lookup(b"bar"), Some((None, None)));
    assert_eq!(table.lookup(b"baz"), None);
}
