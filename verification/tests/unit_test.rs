// Unit tests over the heuristic detectors.

use sentinelguard_agent::config::Config;
use sentinelguard_agent::detectors::entropy::EntropyDetector;
use sentinelguard_agent::detectors::mass_write::MassWriteDetector;
use sentinelguard_agent::detectors::ransom_note::RansomNoteDetector;
use sentinelguard_agent::detectors::Detector;
use sentinelguard_agent::events::{EventType, FileEvent};
use sentinelguard_agent::stats::ProcessStats;
use sentinelguard_agent::SCORE_ONE;

fn write_event(pid: u32, preview: Vec<u8>, t: i64) -> FileEvent {
    FileEvent {
        event_type: EventType::FileWrite,
        process_id: pid,
        process_path: String::new(),
        file_path: "doc.txt".to_string(),
        bytes_read: 0,
        bytes_written: preview.len() as u64,
        timestamp: t,
        entropy_preview: preview,
    }
}

#[test]
fn test_entropy_calculation() {
    let config = Config::default();
    let det = EntropyDetector::new(&config.detector_config);

    // A constant buffer carries no information.
    let data = vec![0u8; 256];
    assert_eq!(det.calculate_shannon_entropy(&data), 0);

    // One occurrence of every byte value is maximal randomness.
    let uniform: Vec<u8> = (0u16..256).map(|b| b as u8).collect();
    assert_eq!(det.calculate_shannon_entropy(&uniform), SCORE_ONE);

    // An empty preview scores zero.
    assert_eq!(det.calculate_shannon_entropy(&[]), 0);
}

#[test]
fn test_mass_write_detection() {
    let config = Config::default();
    let det = MassWriteDetector::new(&config.detector_config);

    // 51 writes against a threshold of 50: min(1, 1/50) = 0.02.
    let mut stats = ProcessStats::new(0);
    stats.file_writes = 51;
    stats.last_update = 51;
    let ev = write_event(7, vec![], 51);
    assert_eq!(det.analyze(&ev, &stats), 20_000);

    // 100 writes saturate the score at 1.0.
    stats.file_writes = 100;
    assert_eq!(det.analyze(&ev, &stats), SCORE_ONE);

    // A stale window scores zero however many writes there were.
    stats.last_update = 0;
    let late = write_event(7, vec![], 1000);
    assert_eq!(det.analyze(&late, &stats), 0);
}

#[test]
fn test_ransom_note_detection() {
    let mut config = Config::default();
    config.detector_config.ransom_note_patterns =
        vec!["READ ME".to_string(), "LOCKED".to_string()];
    let det = RansomNoteDetector::new(&config.detector_config);

    // Case-insensitive substring match on the file path.
    let ev = FileEvent {
        event_type: EventType::FileRename,
        process_id: 9,
        process_path: String::new(),
        file_path: "notes/README_LOCKED.txt".to_string(),
        bytes_read: 0,
        bytes_written: 0,
        timestamp: 1,
        entropy_preview: vec![],
    };
    let stats = ProcessStats::new(0);
    assert_eq!(det.analyze(&ev, &stats), SCORE_ONE);

    // A match only on the process path scores 0.8.
    let ev2 = FileEvent {
        file_path: "normal.txt".to_string(),
        process_path: "C:\\locked\\runner.exe".to_string(),
        ..ev.clone()
    };
    assert_eq!(det.analyze(&ev2, &stats), 800_000);

    // No pattern anywhere scores zero.
    let ev3 = FileEvent {
        file_path: "normal.txt".to_string(),
        process_path: "runner.exe".to_string(),
        ..ev
    };
    assert_eq!(det.analyze(&ev3, &stats), 0);
}
