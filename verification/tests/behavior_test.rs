// Boundary scenarios and laws checked on concrete values.

use sentinelguard_agent::config::Config;
use sentinelguard_agent::control::{Alert, ControlPlane, ProcessRisk};
use sentinelguard_agent::correlation::{CorrelationEngine, FEATURE_COUNT};
use sentinelguard_agent::decision::DecisionState;
use sentinelguard_agent::detectors::entropy::EntropyDetector;
use sentinelguard_agent::detectors::file_extension::FileExtensionDetector;
use sentinelguard_agent::detectors::process_behavior::ProcessBehaviorDetector;
use sentinelguard_agent::detectors::shadow_copy::ShadowCopyDetector;
use sentinelguard_agent::detectors::{Detector, DetectorScores};
use sentinelguard_agent::events::{EventType, FileEvent};
use sentinelguard_agent::security::SecurityModule;
use sentinelguard_agent::stats::ProcessStats;
use sentinelguard_agent::telemetry::TelemetryLogger;
use sentinelguard_agent::SCORE_ONE;

fn base_event(kind: EventType, pid: u32) -> FileEvent {
    FileEvent {
        event_type: kind,
        process_id: pid,
        process_path: String::new(),
        file_path: String::new(),
        bytes_read: 0,
        bytes_written: 0,
        timestamp: 0,
        entropy_preview: vec![],
    }
}

fn snapshot(pid: u32) -> DetectorScores {
    DetectorScores {
        process_id: pid,
        entropy_score: 0,
        mass_write_score: 0,
        mass_rename_delete_score: 0,
        ransom_note_score: 0,
        shadow_copy_score: 0,
        process_behavior_score: 0,
        file_extension_score: 0,
        timestamp: 0,
    }
}

#[test]
fn entropy_spike_scores_full() {
    // A uniform 256-byte write after two calm samples: entropy 1.0,
    // spike 0.9 over the 0.3 margin, above the 0.8 threshold.
    let config = Config::default();
    let det = EntropyDetector::new(&config.detector_config);
    let mut ev = base_event(EventType::FileWrite, 101);
    ev.file_path = "doc.txt".to_string();
    ev.entropy_preview = (0u16..256).map(|b| b as u8).collect();
    ev.bytes_written = 256;
    ev.timestamp = 1000;
    let mut stats = ProcessStats::new(0);
    stats.entropy_samples = vec![100_000, 100_000];
    assert_eq!(det.analyze(&ev, &stats), SCORE_ONE);
}

#[test]
fn process_behavior_temp_wins_over_exe() {
    let config = Config::default();
    let det = ProcessBehaviorDetector::new(&config.detector_config);
    let mut ev = base_event(EventType::ProcessCreate, 22);
    ev.process_path = "C:\\Users\\a\\AppData\\Local\\Temp\\x.exe".to_string();
    let stats = ProcessStats::new(0);
    assert_eq!(det.analyze(&ev, &stats), 300_000);

    // An executable outside the usual directories scores 0.2.
    let mut ev2 = base_event(EventType::ProcessCreate, 22);
    ev2.process_path = "C:\\Games\\thing.EXE".to_string();
    assert_eq!(det.analyze(&ev2, &stats), 200_000);

    // A system location scores zero.
    let mut ev3 = base_event(EventType::ProcessCreate, 22);
    ev3.process_path = "C:\\Windows\\System32\\svchost.exe".to_string();
    assert_eq!(det.analyze(&ev3, &stats), 0);
}

#[test]
fn shadow_copy_vss_delete_scores_full() {
    let config = Config::default();
    let det = ShadowCopyDetector::new(&config.detector_config);
    let ev = base_event(EventType::VSSDelete, 33);
    let stats = ProcessStats::new(0);
    assert_eq!(det.analyze(&ev, &stats), SCORE_ONE);

    // The administration tools are flagged by name, case-insensitively.
    let mut ev2 = base_event(EventType::ProcessCreate, 33);
    ev2.process_path = "C:\\Windows\\System32\\VSSADMIN.EXE".to_string();
    assert_eq!(det.analyze(&ev2, &stats), SCORE_ONE);
}

#[test]
fn suspicious_extension_scores_full() {
    let config = Config::default();
    let det = FileExtensionDetector::new(&config.detector_config);
    let mut ev = base_event(EventType::FileCreate, 4);
    ev.file_path = "report.docx.LOCKED".to_string();
    let stats = ProcessStats::new(0);
    assert_eq!(det.analyze(&ev, &stats), SCORE_ONE);

    // Reads are not scored even under a bad extension.
    let mut ev2 = base_event(EventType::FileRead, 4);
    ev2.file_path = "report.docx.locked".to_string();
    assert_eq!(det.analyze(&ev2, &stats), 0);

    // An ordinary extension scores zero.
    let mut ev3 = base_event(EventType::FileWrite, 4);
    ev3.file_path = "report.docx".to_string();
    assert_eq!(det.analyze(&ev3, &stats), 0);
}

#[test]
fn extension_extraction_is_idempotent() {
    for path in ["archive.TAR.GZ", "noext", ".Locked", "a.b.c.VAULT"] {
        let once = FileExtensionDetector::get_file_extension(path);
        let again =
            FileExtensionDetector::get_file_extension(std::str::from_utf8(&once).unwrap());
        assert_eq!(once, again);
    }
}

#[test]
fn feature_vector_order_and_fallback() {
    // Detector scores (0.9, 0.8, 0.1, 0, 0, 0, 0).
    let engine = CorrelationEngine::new();
    let mut scores = snapshot(3);
    scores.entropy_score = 900_000;
    scores.mass_write_score = 800_000;
    scores.mass_rename_delete_score = 100_000;

    let f = engine.build_features(&scores);
    assert_eq!(f.len(), FEATURE_COUNT);
    assert_eq!(
        f,
        vec![
            900_000, 800_000, 100_000, 0, 0, 0, 0, // the seven detector scores
            0,           // event-rate placeholder
            1_800_000,   // entropy doubled
            1_000_000,   // rename/delete scaled by ten
            1_000_000,   // burst-interval placeholder of 1.0
            0, 0,        // detector-count and diversity placeholders
            800_000_000, // mass-write scaled by a thousand
            0,           // unique-extensions placeholder
        ]
    );

    // Fallback: 0.20*0.9 + 0.25*0.8 + 0.20*0.1 = 0.40; under the 0.7
    // threshold nothing is quarantined.
    let ml = engine.fallback_score(&scores);
    assert_eq!(ml, 400_000);
    let decision = DecisionState::new(700_000, 60);
    assert!(!decision.decide(&scores, ml, 0));
}

#[test]
fn single_detector_is_insufficient_in_fallback() {
    // A lone shadow-copy hit fuses to 0.10 under the fallback weights:
    // without the classifier one detector cannot cross the 0.7 threshold.
    let engine = CorrelationEngine::new();
    let mut scores = snapshot(33);
    scores.shadow_copy_score = SCORE_ONE;
    let ml = engine.infer(&scores, None);
    assert_eq!(ml, 100_000);
    let decision = DecisionState::new(700_000, 60);
    assert!(!decision.decide(&scores, ml, 1));
}

#[test]
fn sha256_baseline_comparison() {
    // The classical SHA-256 vector for "abc".
    let expected: [u8; 32] = [
        0xba, 0x78, 0x16, 0xbf, 0x8f, 0x01, 0xcf, 0xea, 0x41, 0x41, 0x40, 0xde, 0x5d, 0xae,
        0x22, 0x23, 0xb0, 0x03, 0x61, 0xa3, 0x96, 0x17, 0x7a, 0x9c, 0xb4, 0x10, 0xff, 0x61,
        0xf2, 0x00, 0x15, 0xad,
    ];
    let module = SecurityModule::new(b"abc");
    assert_eq!(module.agent_hash, expected.to_vec());
    assert!(module.verify_agent_integrity(b"abc"));
    assert!(!module.verify_agent_integrity(b"abd"));

    // The first configuration seen fixes the baseline; a changed one is
    // rejected afterwards.
    let mut module = SecurityModule::new(b"abc");
    assert!(module.verify_config_integrity(b"threshold = 1"));
    assert!(module.verify_config_integrity(b"threshold = 1"));
    assert!(!module.verify_config_integrity(b"threshold = 2"));
}

#[test]
fn control_plane_filter_and_sort() {
    let mut cp = ControlPlane::new();
    for (id, t) in [(1i64, 10i64), (2, 20), (3, 30)] {
        cp.add_alert(Alert {
            id,
            process_id: 7,
            ml_score: 750_000,
            quarantined: true,
            timestamp: t,
        });
    }
    let since = cp.get_alerts(20);
    assert_eq!(since.len(), 2);
    assert_eq!(since[0].timestamp, 20);
    assert_eq!(since[1].timestamp, 30);

    cp.update_process_risk(1, ProcessRisk { process_id: 1, risk_score: 100_000, last_updated: 1 });
    cp.update_process_risk(2, ProcessRisk { process_id: 2, risk_score: 900_000, last_updated: 1 });
    cp.update_process_risk(3, ProcessRisk { process_id: 3, risk_score: 500_000, last_updated: 1 });
    // A later update replaces the entry of its PID.
    cp.update_process_risk(1, ProcessRisk { process_id: 1, risk_score: 700_000, last_updated: 2 });
    let overview = cp.get_process_risk_overview();
    let risks: Vec<u32> = overview.iter().map(|r| r.risk_score).collect();
    assert_eq!(risks, vec![900_000, 700_000, 500_000]);
}

#[test]
fn telemetry_counts_reports() {
    let mut t = TelemetryLogger::new();
    t.log_detection(5, 800_000);
    t.log_detection(6, 900_000);
    t.log_quarantine(5);
    assert_eq!(t.detections_logged, 2);
    assert_eq!(t.quarantines_logged, 1);
}

#[test]
fn config_defaults_match_design() {
    let c = Config::default();
    assert_eq!(c.quarantine_threshold, 700_000);
    assert_eq!(c.detector_config.entropy_threshold, 800_000);
    assert_eq!(c.detector_config.mass_write_threshold, 50);
    assert_eq!(c.detector_config.mass_write_window_seconds, 10);
    assert_eq!(c.detector_config.rename_delete_threshold, 30);
    assert_eq!(c.detector_config.rename_delete_window_seconds, 10);
    assert_eq!(c.detector_config.ransom_note_patterns.len(), 4);
    assert_eq!(c.detector_config.ransom_note_patterns[0], "YOUR FILES HAVE BEEN ENCRYPTED");
}

#[test]
fn cooldown_expires_and_prunes() {
    let mut d = DecisionState::new(700_000, 60);
    d.mark_actioned(9, 100);
    d.mark_actioned(10, 120);
    assert!(d.check_cooldown(9, 159));
    assert!(!d.check_cooldown(9, 160));
    d.prune_expired(160);
    // PID 9's record expired; PID 10's still covers the moment.
    assert!(!d.check_cooldown(9, 130));
    assert!(d.check_cooldown(10, 130));
}
