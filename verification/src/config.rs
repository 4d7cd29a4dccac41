//! Agent configuration, frozen at startup.
//!
//! Thresholds that the original design states as real numbers in `[0, 1]`
//! are held as fixed-point millionths (see [`crate::SCORE_ONE`]).

use vstd::prelude::*;
use crate::SCORE_ONE;

verus! {

/// Tunables of the heuristic detectors.
#[derive(Clone, Debug)]
pub struct DetectorConfig {
    /// Entropy above this (in millionths) is suspicious on its own.
    pub entropy_threshold: u32,
    /// Write count at which the mass-write detector starts scoring.
    pub mass_write_threshold: u64,
    /// The staleness window of the mass-write detector, in seconds.
    pub mass_write_window_seconds: u64,
    /// Combined rename/delete count at which scoring starts.
    pub rename_delete_threshold: u64,
    /// The staleness window of the rename/delete detector, in seconds.
    pub rename_delete_window_seconds: u64,
    /// Case-insensitive substrings that mark a ransom note.
    pub ransom_note_patterns: Vec<String>,
    /// Reserved for a rule file; unused by the core.
    pub yara_rules_path: String,
}

impl DetectorConfig {
    /// Non-degenerate thresholds: the counting detectors divide by theirs,
    /// and the entropy threshold is a score.
    pub open spec fn wf(&self) -> bool {
        &&& self.entropy_threshold <= SCORE_ONE
        &&& self.mass_write_threshold >= 1
        &&& self.rename_delete_threshold >= 1
    }

    /// Two configurations that the detectors cannot tell apart: the same
    /// thresholds, windows and pattern texts.
    pub open spec fn equiv(&self, other: &DetectorConfig) -> bool {
        &&& self.entropy_threshold == other.entropy_threshold
        &&& self.mass_write_threshold == other.mass_write_threshold
        &&& self.mass_write_window_seconds == other.mass_write_window_seconds
        &&& self.rename_delete_threshold == other.rename_delete_threshold
        &&& self.rename_delete_window_seconds == other.rename_delete_window_seconds
        &&& self.ransom_note_patterns@.len() == other.ransom_note_patterns@.len()
        &&& (forall|i: int|
            0 <= i < self.ransom_note_patterns@.len() ==> (
            #[trigger] self.ransom_note_patterns@[i])@ == other.ransom_note_patterns@[i]@)
        &&& self.yara_rules_path@ == other.yara_rules_path@
    }

    /// A deep copy that provably keeps every threshold and pattern text.
    pub fn duplicate(&self) -> (c: DetectorConfig)
        ensures
            c.equiv(self),
            self.equiv(&c),
            c.wf() == self.wf(),
    {
        let n = self.ransom_note_patterns.len();
        let mut patterns: Vec<String> = Vec::new();
        for i in 0..n
            invariant
                n == self.ransom_note_patterns@.len(),
                patterns@.len() == i,
                forall|j: int|
                    0 <= j < i ==> (#[trigger] patterns@[j])@ == self.ransom_note_patterns@[j]@,
        {
            patterns.push(self.ransom_note_patterns[i].clone());
        }
        DetectorConfig {
            entropy_threshold: self.entropy_threshold,
            mass_write_threshold: self.mass_write_threshold,
            mass_write_window_seconds: self.mass_write_window_seconds,
            rename_delete_threshold: self.rename_delete_threshold,
            rename_delete_window_seconds: self.rename_delete_window_seconds,
            ransom_note_patterns: patterns,
            yara_rules_path: self.yara_rules_path.clone(),
        }
    }
}

/// The kernel event channel settings.
#[derive(Clone, Debug)]
pub struct CommunicationConfig {
    pub port_name: String,
    pub buffer_size: usize,
}

/// The frozen agent configuration.
#[derive(Clone, Debug)]
pub struct Config {
    pub database_path: String,
    pub ml_model_path: String,
    pub quarantine_path: String,
    /// A fused risk score above this (in millionths) triggers quarantine.
    pub quarantine_threshold: u32,
    pub grpc_listen_addr: String,
    pub detector_config: DetectorConfig,
    pub communication: CommunicationConfig,
}

impl Config {
    pub open spec fn wf(&self) -> bool {
        &&& self.quarantine_threshold <= SCORE_ONE
        &&& self.detector_config.wf()
    }

    /// The built-in defaults: quarantine over 0.7, entropy over 0.8, 50
    /// writes or 30 renames/deletes within a 10 second window.
    pub fn default() -> (c: Config)
        ensures
            c.wf(),
            c.database_path@ == "C:\\ProgramData\\SentinelGuard\\sentinelguard.db"@,
            c.ml_model_path@ == "models\\ransomware_model.onnx"@,
            c.quarantine_path@ == "C:\\Program Files\\SentinelGuard\\quarantine.exe"@,
            c.grpc_listen_addr@ == "127.0.0.1:50051"@,
            c.communication.port_name@ == "\\SentinelGuardPort"@,
            c.communication.buffer_size == 4096,
            c.detector_config.yara_rules_path@ == "rules\\ransomware.yar"@,
            c.quarantine_threshold == 700_000,
            c.detector_config.entropy_threshold == 800_000,
            c.detector_config.mass_write_threshold == 50,
            c.detector_config.mass_write_window_seconds == 10,
            c.detector_config.rename_delete_threshold == 30,
            c.detector_config.rename_delete_window_seconds == 10,
            c.detector_config.ransom_note_patterns@.len() == 4,
            c.detector_config.ransom_note_patterns@[0]@ == "YOUR FILES HAVE BEEN ENCRYPTED"@,
            c.detector_config.ransom_note_patterns@[1]@ == "PAY BITCOIN"@,
            c.detector_config.ransom_note_patterns@[2]@ == ".locked"@,
            c.detector_config.ransom_note_patterns@[3]@ == ".encrypted"@,
    {
        let mut patterns: Vec<String> = Vec::new();
        patterns.push("YOUR FILES HAVE BEEN ENCRYPTED".to_owned());
        patterns.push("PAY BITCOIN".to_owned());
        patterns.push(".locked".to_owned());
        patterns.push(".encrypted".to_owned());
        Config {
            database_path: "C:\\ProgramData\\SentinelGuard\\sentinelguard.db".to_owned(),
            ml_model_path: "models\\ransomware_model.onnx".to_owned(),
            quarantine_path: "C:\\Program Files\\SentinelGuard\\quarantine.exe".to_owned(),
            quarantine_threshold: 700_000,
            grpc_listen_addr: "127.0.0.1:50051".to_owned(),
            detector_config: DetectorConfig {
                entropy_threshold: 800_000,
                mass_write_threshold: 50,
                mass_write_window_seconds: 10,
                rename_delete_threshold: 30,
                rename_delete_window_seconds: 10,
                ransom_note_patterns: patterns,
                yara_rules_path: "rules\\ransomware.yar".to_owned(),
            },
            communication: CommunicationConfig {
                port_name: "\\SentinelGuardPort".to_owned(),
                buffer_size: 4096,
            },
        }
    }

    /// Configuration loading: the file parsing lives with the host program;
    /// the core starts from the built-in defaults.
    pub fn load() -> (c: Config)
        ensures
            c.wf(),
            c.quarantine_threshold == 700_000,
            c.detector_config.entropy_threshold == 800_000,
            c.detector_config.mass_write_threshold == 50,
            c.detector_config.rename_delete_threshold == 30,
    {
        Config::default()
    }
}

} // verus!
