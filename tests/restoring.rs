use std::io::Write;

use stock_restore::restore::{
    conclude, plan_restore, settle_imported, settle_unimported, DomainResult, Outcome, RestoreError, Task,
};
use stock_restore::domain::Domain;
use stock_restore::snapshot::ImportError;
use stock_restore::text::{contains, decimal_string, ends_with};
use stock_restore::text::chars_of;

fn zip_of(entries: &[(&str, &[u8])]) -> Vec<u8> {
    let mut w = zip::ZipWriter::new(std::io::Cursor::new(Vec::new()));
    for (name, data) in entries {
        w.start_file(name.to_string(), zip::write::SimpleFileOptions::default())
            .unwrap();
        w.write_all(data).unwrap();
    }
    w.finish().unwrap().into_inner()
}

fn names(list: &[&str]) -> Vec<String> {
    list.iter().map(|s| s.to_string()).collect()
}

/// Settles every task, treating each found domain as imported with as many
/// rows as its entry has bytes.
fn settle_all(tasks: Vec<Task>) -> Vec<DomainResult> {
    tasks
        .into_iter()
        .map(|t| match &t {
            Task::Found(d, bytes) => settle_imported(*d, Ok(bytes.len())),
            other => settle_unimported(other).unwrap(),
        })
        .collect()
}

#[test]
fn two_of_five_domains_is_a_partial_success() {
    let bytes = zip_of(&[("databases/holdings.db", b"abc"), ("orders.db", b"de")]);
    let requested = names(&["holdings", "orders", "app_config", "my_selection", "stock_review"]);
    let tasks = plan_restore(bytes, &requested).unwrap();
    assert!(matches!(&tasks[0], Task::Found(_, b) if b == b"abc"));
    assert!(matches!(&tasks[1], Task::Found(_, b) if b == b"de"));
    assert!(matches!(tasks[2], Task::NotFound(_)));
    let report = conclude(settle_all(tasks)).unwrap();
    assert_eq!(report.restored, 2);
    assert_eq!(report.not_found, 3);
    assert_eq!(report.failed, 0);
    assert_eq!(report.results.len(), 5);
    assert!(matches!(report.results[0].outcome, Outcome::Restored(3)));
    assert_eq!(
        report.summary(),
        "2/5 domains restored; not found: app_config, my_selection, stock_review"
    );
}

#[test]
fn an_archive_without_any_domain_is_fatal() {
    let bytes = zip_of(&[("readme.txt", b"hi"), ("__MACOSX/holdings.db", b"x")]);
    let requested = names(&["holdings", "orders"]);
    let tasks = plan_restore(bytes, &requested).unwrap();
    assert!(tasks.iter().all(|t| matches!(t, Task::NotFound(_))));
    assert_eq!(conclude(settle_all(tasks)).unwrap_err(), RestoreError::NoUsableDomains);
}

#[test]
fn a_valid_empty_archive_is_fatal() {
    let empty = vec![0x50, 0x4B, 0x05, 0x06, 0, 0, 0, 0, 0, 0, 0, 0, 0, 0, 0, 0, 0, 0, 0, 0, 0, 0];
    let tasks = plan_restore(empty, &names(&["holdings", "orders", "app_config"])).unwrap();
    assert!(tasks.iter().all(|t| matches!(t, Task::NotFound(_))));
    assert_eq!(conclude(settle_all(tasks)).unwrap_err(), RestoreError::NoUsableDomains);
}

#[test]
fn junk_only_archive_is_fatal() {
    let bytes = zip_of(&[("__MACOSX/databases/holdings.db", b"x"), (".DS_Store", b"y"), ("notes.txt", b"z")]);
    let tasks = plan_restore(bytes, &names(&["holdings", "orders"])).unwrap();
    assert!(tasks.iter().all(|t| matches!(t, Task::NotFound(_))));
    assert_eq!(conclude(settle_all(tasks)).unwrap_err(), RestoreError::NoUsableDomains);
}

#[test]
fn a_damaged_entry_is_unreadable() {
    let mut w = zip::ZipWriter::new(std::io::Cursor::new(Vec::new()));
    let stored = zip::write::SimpleFileOptions::default()
        .compression_method(zip::CompressionMethod::Stored);
    w.start_file("holdings.db", stored).unwrap();
    w.write_all(b"HOLDINGS-PAYLOAD").unwrap();
    w.start_file("orders.db", stored).unwrap();
    w.write_all(b"fine").unwrap();
    let mut bytes = w.finish().unwrap().into_inner();
    let at = bytes.windows(16).position(|win| win == b"HOLDINGS-PAYLOAD").unwrap();
    bytes[at + 3] = b'?';
    let tasks = plan_restore(bytes, &names(&["holdings", "orders"])).unwrap();
    assert!(matches!(tasks[0], Task::Unreadable(Domain::Holdings)));
    assert!(matches!(&tasks[1], Task::Found(Domain::Orders, b) if b == b"fine"));
    let report = conclude(settle_all(tasks)).unwrap();
    assert!(matches!(report.results[0].outcome, Outcome::Failed(ImportError::Unreadable)));
    assert_eq!(report.summary(), "1/2 domains restored; failed: holdings");
}

#[test]
fn nothing_requested_is_fatal() {
    assert_eq!(conclude(Vec::new()).unwrap_err(), RestoreError::NoUsableDomains);
}

#[test]
fn a_corrupt_archive_stops_the_restore() {
    let r = plan_restore(vec![1, 2, 3, 4], &names(&["holdings"]));
    assert_eq!(r.unwrap_err(), RestoreError::CorruptArchive);
    let r = plan_restore(b"not a zip".to_vec(), &names(&["holdings"]));
    assert_eq!(r.unwrap_err(), RestoreError::CorruptArchive);
}

#[test]
fn an_unknown_domain_fails_on_its_own() {
    let bytes = zip_of(&[("portfolio.db", b"x"), ("holdings", b"yz")]);
    let tasks = plan_restore(bytes, &names(&["portfolio", "holdings"])).unwrap();
    assert!(matches!(&tasks[0], Task::Unknown(n) if n == "portfolio"));
    let results = settle_all(tasks);
    assert_eq!(results[0].name, "portfolio");
    assert!(matches!(results[0].outcome, Outcome::Failed(ImportError::UnknownDomain)));
    let report = conclude(results).unwrap();
    assert_eq!(report.failed, 1);
    assert_eq!(report.summary(), "1/2 domains restored; failed: portfolio");
}

#[test]
fn a_failed_import_is_counted_and_named() {
    let bytes = zip_of(&[("holdings.db", b"x"), ("orders.db", b"y")]);
    let tasks = plan_restore(bytes, &names(&["holdings", "orders", "app_config"])).unwrap();
    let mut results = Vec::new();
    for (i, t) in tasks.into_iter().enumerate() {
        let result = match &t {
            Task::Found(d, _) if i == 0 => {
                settle_imported(*d, Err(ImportError::RowDecode { row: 3, column: 1 }))
            }
            Task::Found(d, _) => settle_imported(*d, Ok(12)),
            other => settle_unimported(other).unwrap(),
        };
        results.push(result);
    }
    assert!(matches!(results[0].outcome, Outcome::Failed(ImportError::RowDecode { row: 3, column: 1 })));
    assert_eq!(results[1].name, "orders");
    let report = conclude(results).unwrap();
    assert_eq!((report.restored, report.failed, report.not_found), (1, 1, 1));
    assert_eq!(
        report.summary(),
        "1/3 domains restored; failed: holdings; not found: app_config"
    );
}

#[test]
fn only_found_tasks_wait_for_an_import() {
    let found = Task::Found(Domain::Orders, vec![1]);
    assert!(settle_unimported(&found).is_none());
    let missing = settle_unimported(&Task::NotFound(Domain::TrendLines)).unwrap();
    assert_eq!(missing.name, "trend_lines");
    assert!(matches!(missing.outcome, Outcome::NotFound));
    let unreadable = settle_unimported(&Task::Unreadable(Domain::Holdings)).unwrap();
    assert!(matches!(unreadable.outcome, Outcome::Failed(ImportError::Unreadable)));
}

#[test]
fn decimal_strings() {
    assert_eq!(decimal_string(0), "0");
    assert_eq!(decimal_string(7), "7");
    assert_eq!(decimal_string(10), "10");
    assert_eq!(decimal_string(1234567890), "1234567890");
}

#[test]
fn substring_and_suffix_checks() {
    assert!(contains(&chars_of("backup/holdings"), &chars_of("holdings")));
    assert!(contains(&chars_of("abc"), &chars_of("")));
    assert!(!contains(&chars_of("hold"), &chars_of("holdings")));
    assert!(ends_with(&chars_of("a.db"), &chars_of(".db")));
    assert!(!ends_with(&chars_of("a.dbx"), &chars_of(".db")));
    assert!(!ends_with(&chars_of("db"), &chars_of(".db")));
}
