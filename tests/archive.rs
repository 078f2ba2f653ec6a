use std::io::Write;

use stock_restore::archive::{candidate_names, junk_entry, loosely_matches, resolve_entry, Archive, ArchiveError};
use stock_restore::domain::Domain;
use stock_restore::text::chars_of;

fn zip_of(entries: &[(&str, &[u8])]) -> Vec<u8> {
    let mut w = zip::ZipWriter::new(std::io::Cursor::new(Vec::new()));
    for (name, data) in entries {
        w.start_file(name.to_string(), zip::write::SimpleFileOptions::default())
            .unwrap();
        w.write_all(data).unwrap();
    }
    w.finish().unwrap().into_inner()
}

fn names(list: &[&str]) -> Vec<String> {
    list.iter().map(|s| s.to_string()).collect()
}

#[test]
fn candidates_in_order_of_preference() {
    assert_eq!(
        candidate_names(Domain::Holdings),
        names(&["databases/holdings.db", "holdings.db", "databases/holdings", "holdings"])
    );
}

#[test]
fn nested_entry_without_extension_resolves_by_fallback() {
    let entries = names(&["backup/holdings"]);
    assert_eq!(resolve_entry(&entries, Domain::Holdings), Some(0));
}

#[test]
fn exact_candidates_win_over_earlier_loose_matches() {
    let entries = names(&["old/holdings.db", "holdings", "holdings.db"]);
    assert_eq!(resolve_entry(&entries, Domain::Holdings), Some(2));
    let entries = names(&["holdings", "databases/holdings"]);
    assert_eq!(resolve_entry(&entries, Domain::Holdings), Some(1));
    let entries = names(&["holdings.db", "databases/holdings.db"]);
    assert_eq!(resolve_entry(&entries, Domain::Holdings), Some(1));
}

#[test]
fn first_loose_match_is_taken() {
    let entries = names(&["x/orders.db", "y/orders.db"]);
    assert_eq!(resolve_entry(&entries, Domain::Orders), Some(0));
}

#[test]
fn junk_and_other_extensions_do_not_resolve() {
    let entries = names(&["__MACOSX/holdings.db", "holdings.txt", "notes/.DS_Store"]);
    assert_eq!(resolve_entry(&entries, Domain::Holdings), None);
    assert!(junk_entry(&chars_of("__MACOSX/holdings.db")));
    assert!(junk_entry(&chars_of("a/.DS_Store")));
    assert!(!junk_entry(&chars_of("holdings.db")));
    assert!(!loosely_matches("holdings.txt", Domain::Holdings));
    assert!(loosely_matches("backup/holdings", Domain::Holdings));
    assert!(loosely_matches("my_holdings.db", Domain::Holdings));
    assert!(!loosely_matches("orders.db", Domain::Holdings));
}

#[test]
fn a_dot_in_a_directory_is_no_extension() {
    let entries = names(&["my.backup/holdings"]);
    assert_eq!(resolve_entry(&entries, Domain::Holdings), Some(0));
    assert!(loosely_matches("my.backup/holdings", Domain::Holdings));
    assert!(!loosely_matches("my.backup/holdings.bak", Domain::Holdings));
    assert!(!loosely_matches("holdings.bak", Domain::Holdings));
    assert!(loosely_matches("a.b/c.d/holdings.db", Domain::Holdings));
}

#[test]
fn a_damaged_entry_cannot_be_read() {
    let mut w = zip::ZipWriter::new(std::io::Cursor::new(Vec::new()));
    let stored = zip::write::SimpleFileOptions::default()
        .compression_method(zip::CompressionMethod::Stored);
    w.start_file("orders.db", stored).unwrap();
    w.write_all(b"ORDERS-PAYLOAD").unwrap();
    let mut bytes = w.finish().unwrap().into_inner();
    let at = bytes
        .windows(14)
        .position(|win| win == b"ORDERS-PAYLOAD")
        .unwrap();
    bytes[at] = b'X';
    let mut archive = Archive::open(bytes).unwrap();
    assert_eq!(archive.resolve(Domain::Orders), Some(0));
    assert!(matches!(archive.read(0), Err(ArchiveError::Unreadable)));
}

#[test]
fn empty_archive_resolves_nothing() {
    let entries: Vec<String> = Vec::new();
    assert_eq!(resolve_entry(&entries, Domain::AppConfig), None);
}

#[test]
fn garbage_is_a_corrupt_archive() {
    let r = Archive::open(b"definitely not a zip".to_vec());
    assert!(matches!(r, Err(ArchiveError::Corrupt)));
}

#[test]
fn archive_lists_reads_and_resolves_entries() {
    let bytes = zip_of(&[("readme.txt", b"hello"), ("backup/orders", b"ORDERS")]);
    let mut archive = Archive::open(bytes).unwrap();
    assert_eq!(archive.len(), 2);
    assert_eq!(archive.entry_names(), names(&["readme.txt", "backup/orders"]));
    assert_eq!(archive.resolve(Domain::Orders), Some(1));
    assert_eq!(archive.resolve(Domain::Holdings), None);
    assert_eq!(archive.read(1).unwrap(), b"ORDERS".to_vec());
    assert_eq!(archive.read(0).unwrap(), b"hello".to_vec());
    assert!(matches!(archive.read(2), Err(ArchiveError::Unreadable)));
}
