use stock_restore::snapshot::ImportError;
use stock_restore::transaction::{Action, ImportRun, Phase};

#[test]
fn every_row_is_written_in_order_before_the_commit() {
    let (mut run, first) = ImportRun::start(2);
    assert!(matches!(first, Action::Begin));
    assert_eq!(run.phase(), Phase::Opening);
    assert!(matches!(run.next(Ok(())), Action::Write(0)));
    assert!(matches!(run.next(Ok(())), Action::Write(1)));
    assert_eq!(run.phase(), Phase::Writing(1));
    assert!(matches!(run.next(Ok(())), Action::Commit));
    assert_eq!(run.phase(), Phase::Committing);
    assert!(matches!(run.next(Ok(())), Action::Done(2)));
    assert_eq!(run.phase(), Phase::Ended);
}

#[test]
fn an_empty_snapshot_commits_at_once() {
    let (mut run, _) = ImportRun::start(0);
    assert!(matches!(run.next(Ok(())), Action::Commit));
    assert!(matches!(run.next(Ok(())), Action::Done(0)));
}

#[test]
fn a_refused_row_aborts_the_import() {
    let (mut run, _) = ImportRun::start(3);
    run.next(Ok(()));
    run.next(Ok(()));
    match run.next(Err("disk full".to_string())) {
        Action::Abort(ImportError::Storage(m)) => assert_eq!(m, "disk full"),
        other => panic!("unexpected action {:?}", other),
    }
    assert_eq!(run.phase(), Phase::Ended);
}

#[test]
fn a_refused_commit_aborts_the_import() {
    let (mut run, _) = ImportRun::start(1);
    run.next(Ok(()));
    assert!(matches!(run.next(Ok(())), Action::Commit));
    assert!(matches!(run.next(Err("locked".to_string())), Action::Abort(ImportError::Storage(_))));
}

#[test]
fn a_transaction_that_cannot_open_aborts_the_import() {
    let (mut run, _) = ImportRun::start(5);
    assert!(matches!(run.next(Err("busy".to_string())), Action::Abort(_)));
}
