// Tests over the pipeline: ingestion, aggregation, inference, quarantine.

use sentinelguard_agent::config::Config;
use sentinelguard_agent::correlation::CorrelationEngine;
use sentinelguard_agent::decision::DecisionState;
use sentinelguard_agent::detectors::{DetectorManager, DetectorScores};
use sentinelguard_agent::errors::AgentError;
use sentinelguard_agent::events::{EventType, FileEvent};
use sentinelguard_agent::ingest::EventIngestion;
use sentinelguard_agent::quarantine::{pid_decimal, QuarantineController};
use sentinelguard_agent::SCORE_ONE;

fn event(kind: EventType, pid: u32, t: i64) -> FileEvent {
    FileEvent {
        event_type: kind,
        process_id: pid,
        process_path: "C:\\app\\worker.exe".to_string(),
        file_path: "data.bin".to_string(),
        bytes_read: 0,
        bytes_written: 8,
        timestamp: t,
        entropy_preview: vec![],
    }
}

fn snapshot(pid: u32) -> DetectorScores {
    DetectorScores {
        process_id: pid,
        entropy_score: 0,
        mass_write_score: 0,
        mass_rename_delete_score: 0,
        ransom_note_score: 0,
        shadow_copy_score: 0,
        process_behavior_score: 0,
        file_extension_score: 0,
        timestamp: 0,
    }
}

#[test]
fn test_event_ingestion() {
    let mut ingestion = EventIngestion::new();

    // A well-formed event is admitted.
    assert!(ingestion.screen_event(&event(EventType::FileWrite, 5, 1)));
    assert_eq!(ingestion.events_accepted, 1);
    assert_eq!(ingestion.malformed_dropped, 0);

    // PID zero violates the schema and is dropped with a count.
    assert!(!ingestion.screen_event(&event(EventType::FileWrite, 0, 2)));
    assert_eq!(ingestion.events_accepted, 1);
    assert_eq!(ingestion.malformed_dropped, 1);

    // A failed sink write is swallowed but counted.
    ingestion.note_sink_result(false);
    ingestion.note_sink_result(true);
    assert_eq!(ingestion.sink_errors, 1);

    // Once through the pipeline, the event's counters are applied once.
    let mut mgr = DetectorManager::new(Config::default());
    mgr.process_event(&event(EventType::FileWrite, 5, 10));
    mgr.process_event(&event(EventType::FileRename, 5, 11));
    mgr.process_event(&event(EventType::FileDelete, 5, 12));
    mgr.process_event(&event(EventType::FileRead, 5, 13));
    let stats = mgr.process_stats.get(5).unwrap();
    assert_eq!(stats.file_writes, 1);
    assert_eq!(stats.file_renames, 1);
    assert_eq!(stats.file_deletes, 1);
    assert_eq!(stats.total_bytes_written, 8);
    assert_eq!(stats.last_update, 13);
}

#[test]
fn test_detector_aggregation() {
    let mut mgr = DetectorManager::new(Config::default());

    // Nothing tracked: the zero snapshot.
    let idle = mgr.get_aggregated_scores();
    assert_eq!(idle.process_id, 0);
    assert_eq!(idle.mass_write_score, 0);

    // The busier process wins the snapshot.
    mgr.process_event(&event(EventType::FileWrite, 1, 1));
    for t in 0..5 {
        mgr.process_event(&event(EventType::FileDelete, 2, 2 + t));
    }
    let scores = mgr.get_aggregated_scores();
    assert_eq!(scores.process_id, 2);
}

#[test]
fn test_idle_process_eviction() {
    let mut mgr = DetectorManager::new(Config::default());
    mgr.process_event(&event(EventType::FileWrite, 1, 100));
    mgr.process_event(&event(EventType::FileWrite, 2, 150));
    // With a horizon of 40 seconds at time 160, PID 1 (idle for 60
    // seconds) is evicted and PID 2 stays untouched.
    mgr.prune_idle(160, 40);
    assert!(mgr.process_stats.get(1).is_none());
    let kept = mgr.process_stats.get(2).unwrap();
    assert_eq!(kept.file_writes, 1);
}

#[test]
fn test_ml_inference() {
    let engine = CorrelationEngine::new();
    let mut scores = snapshot(3);
    scores.entropy_score = 900_000;
    scores.mass_write_score = 800_000;
    scores.mass_rename_delete_score = 100_000;

    // Without a classifier the weighted fallback decides.
    assert_eq!(engine.infer(&scores, None), 400_000);

    // An empty model output falls back too.
    assert_eq!(engine.infer(&scores, Some(&vec![])), 400_000);

    // A single-value output is used directly.
    assert_eq!(engine.infer(&scores, Some(&vec![250_000])), 250_000);

    // A two-class output uses the positive class, clamped to a score.
    assert_eq!(engine.infer(&scores, Some(&vec![100_000, 950_000])), 950_000);
    assert_eq!(engine.infer(&scores, Some(&vec![0, 2_000_000])), SCORE_ONE);
    assert_eq!(engine.infer(&scores, Some(&vec![-5, -7])), 0);
}

#[test]
fn test_quarantine_workflow() {
    let path = "C:\\Program Files\\SentinelGuard\\quarantine.exe".to_string();
    let ctl = QuarantineController::new(&path);
    assert_eq!(ctl.quarantine_exe_path, path);
    assert_eq!(ctl.suspend_flag(), "--suspend");
    assert_eq!(ctl.release_flag(), "--release");
    assert_eq!(pid_decimal(407), b"407".to_vec());

    // Exit zero is success; anything else carries the helper's stderr.
    assert!(ctl.interpret_exit(0, String::new()).is_ok());
    match ctl.interpret_exit(5, "access denied".to_string()) {
        Err(AgentError::Quarantine(msg)) => assert_eq!(msg, "access denied"),
        _ => panic!("expected a quarantine error"),
    }

    // The decision loop quarantines once and then cools down.
    let mut decision = DecisionState::new(700_000, 60);
    let scores = snapshot(42);
    assert!(decision.decide(&scores, 800_000, 100));
    decision.mark_actioned(42, 100);
    assert!(!decision.decide(&scores, 990_000, 130));
    assert!(decision.decide(&scores, 990_000, 161));

    // A failed helper call leaves the PID out of the cool-down set.
    let mut retry = DecisionState::new(700_000, 60);
    assert!(retry.decide(&scores, 800_000, 100));
    // helper failed: nothing is marked
    assert!(retry.decide(&scores, 800_000, 101));
}
