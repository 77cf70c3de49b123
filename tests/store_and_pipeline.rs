use error_dedup::channel::{Board, ChannelError};
use error_dedup::fingerprint::fingerprint;
use error_dedup::notify::{ReportContext, VIEW_PAYLOAD_ACTION};
use error_dedup::pipeline::{
    after_finalize, after_record, delete_status, interaction_create, report, resume, Action,
    DeleteStatus, ReportOutcome, Retrieval, Settlement,
};
use error_dedup::store::{DedupStore, FinalizeOutcome, Outcome};

fn context() -> ReportContext {
    ReportContext {
        event: "MessageCreate".to_string(),
        bot_user: "TTS Bot".to_string(),
        extra_fields: Vec::new(),
        cpu_usage: "0.1".to_string(),
        memory_used: 1024,
        shard_count: 1,
        author_name: None,
        icon_url: None,
    }
}

#[test]
fn first_report_is_new_then_won() {
    let mut store = DedupStore::new();
    let fp = fingerprint("panic: X at line 10");
    assert_eq!(store.record_occurrence(&fp), Ok(Outcome::New));
    assert_eq!(store.len(), 0);
    assert_eq!(store.finalize_new(&fp, "panic: X at line 10", 41), Ok(FinalizeOutcome::Won(1)));
    assert_eq!(store.len(), 1);
    assert_eq!(store.record_occurrence(&fp), Ok(Outcome::Repeated(41, 2)));
    assert_eq!(store.record_occurrence(&fp), Ok(Outcome::Repeated(41, 3)));
    assert_eq!(store.len(), 1);
}

#[test]
fn racing_producers_one_wins_one_loses() {
    let mut store = DedupStore::new();
    let fp = fingerprint("race");
    assert_eq!(store.record_occurrence(&fp), Ok(Outcome::New));
    assert_eq!(store.record_occurrence(&fp), Ok(Outcome::New));
    assert_eq!(store.finalize_new(&fp, "race", 7), Ok(FinalizeOutcome::Won(1)));
    assert_eq!(store.finalize_new(&fp, "race", 8), Ok(FinalizeOutcome::Lost(7, 2)));
    assert_eq!(store.len(), 1);
    assert_eq!(store.fetch_payload(7), Some("race".to_string()));
    assert_eq!(store.fetch_payload(8), None);
}

#[test]
fn race_through_the_channel_leaves_one_notification() {
    let mut store = DedupStore::new();
    let mut board = Board::new();
    let fp = fingerprint("race");
    let note = error_dedup::notify::render_notification("race", &context());
    let note2 = error_dedup::notify::render_notification("race", &context());
    assert!(matches!(after_record(store.record_occurrence(&fp).unwrap()), Action::PostCandidate));
    assert!(matches!(after_record(store.record_occurrence(&fp).unwrap()), Action::PostCandidate));
    let c1 = board.post(note).unwrap();
    let c2 = board.post(note2).unwrap();
    assert_ne!(c1, c2);
    assert_eq!(board.len(), 2);
    let f1 = store.finalize_new(&fp, "race", c1).unwrap();
    let f2 = store.finalize_new(&fp, "race", c2).unwrap();
    assert!(matches!(after_finalize(c1, f1), Settlement::Keep));
    match after_finalize(c2, f2) {
        Settlement::Reconcile { discard, canonical, footer } => {
            assert_eq!(discard, c2);
            assert_eq!(canonical, c1);
            assert_eq!(footer, "This error has occurred 2 times!");
            assert_eq!(delete_status(board.delete(discard)), DeleteStatus::Deleted);
            assert_eq!(board.edit_footer(canonical, footer), Ok(()));
        }
        Settlement::Keep => panic!("second candidate must lose"),
    }
    assert_eq!(board.len(), 1);
    assert_eq!(board.get(c1).unwrap().footer, "This error has occurred 2 times!");
    assert!(board.get(c2).is_none());
}

#[test]
fn repeated_outcome_edits_footer() {
    match after_record(Outcome::Repeated(5, 3)) {
        Action::EditFooter(c, footer) => {
            assert_eq!(c, 5);
            assert_eq!(footer, "This error has occurred 3 times!");
        }
        Action::PostCandidate => panic!("known failure must not post"),
    }
}

#[test]
fn delete_twice_is_already_absent() {
    let mut board = Board::new();
    let c = board.post(error_dedup::notify::render_notification("x", &context())).unwrap();
    let first = board.delete(c);
    assert_eq!(first, Ok(()));
    assert_eq!(delete_status(first), DeleteStatus::Deleted);
    let second = board.delete(c);
    assert_eq!(second, Err(ChannelError::NotFound));
    assert_eq!(delete_status(second), DeleteStatus::AlreadyAbsent);
    assert_eq!(board.len(), 0);
    assert_eq!(delete_status(Err(ChannelError::Forbidden)), DeleteStatus::Failed);
}

#[test]
fn edit_of_unknown_notification_is_not_found() {
    let mut board = Board::new();
    assert_eq!(board.edit_footer(9, "x".to_string()), Err(ChannelError::NotFound));
    assert!(board.get(9).is_none());
}

#[test]
fn report_same_payload_twice() {
    let mut store = DedupStore::new();
    let mut board = Board::new();
    let ctx = context();
    let payload = "panic: X at line 10";
    let first = report(&mut store, &mut board, payload, payload, &ctx).unwrap();
    let c = match first {
        ReportOutcome::Won(c) => c,
        other => panic!("expected a new notification, got {:?}", other),
    };
    assert_eq!(board.len(), 1);
    assert_eq!(board.get(c).unwrap().footer, "This error has occurred 1 time!");
    assert_eq!(board.get(c).unwrap().title, payload);

    let second = report(&mut store, &mut board, payload, payload, &ctx).unwrap();
    assert_eq!(second, ReportOutcome::Repeated(c, 2));
    assert_eq!(board.len(), 1);
    assert_eq!(board.get(c).unwrap().footer, "This error has occurred 2 times!");
    assert_eq!(store.len(), 1);
}

#[test]
fn report_distinct_payloads_gives_distinct_notifications() {
    let mut store = DedupStore::new();
    let mut board = Board::new();
    let ctx = context();
    let a = report(&mut store, &mut board, "a", "a", &ctx).unwrap();
    let b = report(&mut store, &mut board, "b", "b", &ctx).unwrap();
    assert!(matches!(a, ReportOutcome::Won(_)));
    assert!(matches!(b, ReportOutcome::Won(_)));
    assert_ne!(a, b);
    assert_eq!(store.len(), 2);
    assert_eq!(board.len(), 2);
}

#[test]
fn report_many_times_counts_each() {
    let mut store = DedupStore::new();
    let mut board = Board::new();
    let ctx = context();
    let mut last = ReportOutcome::NotPosted;
    for _ in 0..5 {
        last = report(&mut store, &mut board, "same", "same", &ctx).unwrap();
    }
    match last {
        ReportOutcome::Repeated(c, n) => {
            assert_eq!(n, 5);
            assert_eq!(board.get(c).unwrap().footer, "This error has occurred 5 times!");
        }
        other => panic!("expected a repeat, got {:?}", other),
    }
    assert_eq!(board.len(), 1);
}

#[test]
fn retrieval_round_trip() {
    let mut store = DedupStore::new();
    let mut board = Board::new();
    let payload = "thread 'main' panicked at src/lib.rs:10:5\nstack backtrace: ...";
    let c = match report(&mut store, &mut board, payload, "panicked", &context()).unwrap() {
        ReportOutcome::Won(c) => c,
        other => panic!("expected a new notification, got {:?}", other),
    };
    assert_eq!(store.fetch_payload(c), Some(payload.to_string()));
    match interaction_create(&store, VIEW_PAYLOAD_ACTION, c) {
        Retrieval::Attachment(name, text) => {
            assert_eq!(name, "traceback.txt");
            assert_eq!(text, payload);
        }
        _ => panic!("expected the payload"),
    }
}

#[test]
fn retrieval_of_unknown_reference_is_not_found() {
    let store = DedupStore::new();
    assert_eq!(store.fetch_payload(12345), None);
    match interaction_create(&store, VIEW_PAYLOAD_ACTION, 12345) {
        Retrieval::NotFound(msg) => assert_eq!(msg, "No traceback found."),
        _ => panic!("expected not found"),
    }
    assert!(matches!(interaction_create(&store, "something_else", 1), Retrieval::Ignored));
}

#[test]
fn resume_event() {
    assert_eq!(resume(), ("resumed", false));
}
