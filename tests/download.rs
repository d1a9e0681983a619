use ollama_pro::download::{
    cancel_download, is_success_code, pull_request, query_status, seed_completed_bytes, PullOutcome,
    PullSession, StreamEvent,
};
use ollama_pro::registry::{DownloadError, DownloadRegistry};
use ollama_pro::store::{DownloadProgress, ProgressTable};

fn s(x: &str) -> String {
    x.to_string()
}

fn chunk(text: &str) -> StreamEvent {
    StreamEvent::Chunk(text.as_bytes().to_vec())
}

#[test]
fn transfer_forwards_events_and_finishes_on_success() {
    let mut registry: DownloadRegistry<u8> = DownloadRegistry::new();
    let mut session = PullSession::start(&mut registry, &s("modelX"), &s("m1"), None, 0).unwrap();
    assert_eq!(session.on_response(&mut registry, 200), Ok(()));

    let first = session.step(
        &mut registry,
        chunk("{\"status\":\"downloading\",\"completed\":100,\"total\":1000}\n{\"status\":\"downloading\",\"completed\":500,\"total\":1000}\n"),
        0,
    );
    assert_eq!(first.forward.len(), 2);
    assert_eq!(first.forward[0].completed, Some(100));
    assert_eq!(first.forward[1].completed, Some(500));
    assert_eq!(first.outcome, None);
    // Immediately before the final event.
    assert_eq!(registry.snapshot(&s("m1")), Some(500));

    let last = session.step(&mut registry, chunk("{\"status\":\"success\"}\n"), 0);
    assert_eq!(last.forward.len(), 1);
    assert_eq!(last.forward[0].status, "success");
    assert_eq!(last.outcome, Some(PullOutcome::Completed));
    assert_eq!(registry.snapshot(&s("m1")), None);
    assert!(session.is_finished());
}

#[test]
fn transfer_in_one_chunk_forwards_three_events_in_order() {
    let mut registry: DownloadRegistry<u8> = DownloadRegistry::new();
    let mut session = PullSession::start(&mut registry, &s("modelX"), &s("m1"), None, 0).unwrap();
    let r = session.step(
        &mut registry,
        chunk("{\"status\":\"downloading\",\"completed\":100,\"total\":1000}\n{\"status\":\"downloading\",\"completed\":500,\"total\":1000}\n{\"status\":\"success\"}\n"),
        0,
    );
    let completed: Vec<Option<i64>> = r.forward.iter().map(|e| e.completed).collect();
    assert_eq!(completed, vec![Some(100), Some(500), None]);
    assert_eq!(r.forward[2].status, "success");
    assert_eq!(r.outcome, Some(PullOutcome::Completed));
    assert!(!registry.is_active(&s("m1")));
    assert_eq!(session.completed_bytes(), 500);
}

#[test]
fn events_after_success_are_dropped() {
    let mut registry: DownloadRegistry<u8> = DownloadRegistry::new();
    let mut session = PullSession::start(&mut registry, &s("m"), &s("c"), None, 0).unwrap();
    let r = session.step(&mut registry, chunk("{\"status\":\"success\"}\n{\"status\":\"late\"}\n"), 0);
    assert_eq!(r.forward.len(), 1);
    let after = session.step(&mut registry, chunk("{\"status\":\"later\"}\n"), 0);
    assert!(after.forward.is_empty());
    assert_eq!(after.outcome, None);
}

#[test]
fn cancel_before_end_saves_last_progress() {
    let mut registry: DownloadRegistry<&str> = DownloadRegistry::new();
    let mut table = ProgressTable::new();
    let mut session = PullSession::start(&mut registry, &s("modelX"), &s("m1"), None, "signal").unwrap();
    session.step(&mut registry, chunk("{\"status\":\"downloading\",\"completed\":300,\"total\":900}\n{\"status\":\"down"), 0);
    session.step(&mut registry, StreamEvent::Idle, 0);

    // The caller cancels; the handle comes back to be signalled.
    assert_eq!(cancel_download(&mut registry, &mut table, &s("m1"), false), Some("signal"));
    assert_eq!(cancel_download(&mut registry, &mut table, &s("m1"), false), None);

    let r = session.step(&mut registry, StreamEvent::CancelSignalled, 1234);
    assert_eq!(r.outcome, Some(PullOutcome::Cancelled));
    let record = r.persist.expect("progress to save");
    assert_eq!(
        record,
        DownloadProgress {
            model_name: s("modelX"),
            channel_id: s("m1"),
            completed_bytes: 300,
            total_bytes: 900,
            last_updated: 1234,
        }
    );
    table.save(&s("m1"), record);
    assert_eq!(table.load(&s("m1")).map(|p| p.completed_bytes), Some(300));
}

#[test]
fn restart_seeds_from_store_and_reissues_full_request() {
    let mut table = ProgressTable::new();
    table.save(
        &s("m1"),
        DownloadProgress {
            model_name: s("modelX"),
            channel_id: s("m1"),
            completed_bytes: 500,
            total_bytes: 1000,
            last_updated: 1,
        },
    );
    // A fresh process: empty registry, the store survived.
    let mut registry: DownloadRegistry<u8> = DownloadRegistry::new();
    let stored = table.load(&s("m1"));
    let session = PullSession::start(&mut registry, &s("modelX"), &s("m1"), stored.as_ref(), 0).unwrap();
    assert_eq!(session.seed_bytes(), 500);
    assert_eq!(registry.snapshot(&s("m1")), Some(500));
    let request = pull_request(&s("http://127.0.0.1:11434"), session.model());
    assert_eq!(request, pull_request(&s("http://127.0.0.1:11434"), &s("modelX")));
    assert_eq!(request.url, "http://127.0.0.1:11434/api/pull");
    assert_eq!(request.name, "modelX");
    assert!(request.stream);
}

#[test]
fn start_while_active_is_already_active() {
    let mut registry: DownloadRegistry<u8> = DownloadRegistry::new();
    let _first = PullSession::start(&mut registry, &s("m"), &s("c"), None, 1).unwrap();
    let second = PullSession::start(&mut registry, &s("m"), &s("c"), None, 2);
    assert_eq!(second.err(), Some(DownloadError::AlreadyActive));
    assert_eq!(registry.request_cancel(&s("c")), Some(1));
}

#[test]
fn rejected_start_unregisters() {
    let mut registry: DownloadRegistry<u8> = DownloadRegistry::new();
    let mut session = PullSession::start(&mut registry, &s("m"), &s("c"), None, 0).unwrap();
    assert_eq!(session.on_response(&mut registry, 404), Err(DownloadError::TransportRejected(404)));
    assert!(!registry.is_active(&s("c")));
}

#[test]
fn stream_end_without_success_counts_as_completed() {
    let mut registry: DownloadRegistry<u8> = DownloadRegistry::new();
    let mut session = PullSession::start(&mut registry, &s("m"), &s("c"), None, 0).unwrap();
    session.step(&mut registry, chunk("{\"status\":\"downloading\",\"completed\":9}\n{\"partial"), 0);
    let r = session.step(&mut registry, StreamEvent::Closed, 0);
    assert_eq!(r.outcome, Some(PullOutcome::StreamEnded));
    assert!(r.forward.is_empty());
    assert!(!registry.is_active(&s("c")));
}

#[test]
fn transport_error_fails_without_saving() {
    let mut registry: DownloadRegistry<u8> = DownloadRegistry::new();
    let mut session = PullSession::start(&mut registry, &s("m"), &s("c"), None, 0).unwrap();
    let r = session.step(&mut registry, StreamEvent::Failed(s("connection reset")), 0);
    assert_eq!(r.outcome, Some(PullOutcome::Failed(s("connection reset"))));
    assert!(r.persist.is_none());
    assert!(!registry.is_active(&s("c")));
}

#[test]
fn cleanup_removes_durable_record() {
    let mut registry: DownloadRegistry<u8> = DownloadRegistry::new();
    let mut table = ProgressTable::new();
    let rec = DownloadProgress {
        model_name: s("m"),
        channel_id: s("c"),
        completed_bytes: 1,
        total_bytes: 2,
        last_updated: 3,
    };
    table.save(&s("c"), rec);
    assert_eq!(cancel_download(&mut registry, &mut table, &s("c"), true), None);
    assert_eq!(table.load(&s("c")), None);
}

#[test]
fn query_status_prefers_live_progress() {
    let mut registry: DownloadRegistry<u8> = DownloadRegistry::new();
    let mut table = ProgressTable::new();
    assert_eq!(query_status(&registry, &table, &s("c")), None);
    let rec = DownloadProgress {
        model_name: s("m"),
        channel_id: s("c"),
        completed_bytes: 10,
        total_bytes: 99,
        last_updated: 3,
    };
    table.save(&s("c"), rec.clone());
    assert_eq!(query_status(&registry, &table, &s("c")), Some(rec.clone()));
    registry.begin(&s("c"), 42, 0).unwrap();
    assert_eq!(query_status(&registry, &table, &s("c")).map(|p| p.completed_bytes), Some(42));
}

#[test]
fn seed_prefers_active_then_stored_and_is_never_negative() {
    let rec = DownloadProgress {
        model_name: s("m"),
        channel_id: s("c"),
        completed_bytes: 70,
        total_bytes: 0,
        last_updated: 0,
    };
    assert_eq!(seed_completed_bytes(Some(30), Some(&rec)), 30);
    assert_eq!(seed_completed_bytes(None, Some(&rec)), 70);
    assert_eq!(seed_completed_bytes(None, None), 0);
    assert_eq!(seed_completed_bytes(Some(-5), Some(&rec)), 0);
}

#[test]
fn success_codes() {
    assert!(is_success_code(200));
    assert!(is_success_code(299));
    assert!(!is_success_code(199));
    assert!(!is_success_code(300));
    assert!(!is_success_code(500));
}
