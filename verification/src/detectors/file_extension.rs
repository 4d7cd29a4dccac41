//! The file-extension detector.

use vstd::prelude::*;
use vstd::string::StrSliceExecFns;
use vstd::utf8::encode_utf8;
use crate::SCORE_ONE;
use crate::config::DetectorConfig;
use crate::detectors::Detector;
use crate::events::{EventType, FileEvent};
use crate::stats::ProcessStats;
use crate::text::{bytes_eq, extension_of, spec_extension};

verus! {

/// The lower-cased extensions that name well-known ransomware output.
pub open spec fn spec_suspicious_extension(e: Seq<u8>) -> bool {
    ||| e == encode_utf8(".locked"@)
    ||| e == encode_utf8(".encrypted"@)
    ||| e == encode_utf8(".crypto"@)
    ||| e == encode_utf8(".vault"@)
    ||| e == encode_utf8(".ecc"@)
    ||| e == encode_utf8(".ezz"@)
    ||| e == encode_utf8(".exx"@)
    ||| e == encode_utf8(".zzz"@)
    ||| e == encode_utf8(".aaa"@)
    ||| e == encode_utf8(".micro"@)
    ||| e == encode_utf8(".crypted"@)
    ||| e == encode_utf8(".payfast"@)
}

/// On a file creation or write, a path whose lower-cased extension is one
/// of the known ransomware extensions scores full; everything else scores
/// zero.
pub open spec fn spec_file_extension_score(ev: FileEvent) -> int {
    if ev.event_type != EventType::FileCreate && ev.event_type != EventType::FileWrite {
        0
    } else if spec_suspicious_extension(spec_extension(encode_utf8(ev.file_path@))) {
        SCORE_ONE as int
    } else {
        0
    }
}

/// Flags files created or rewritten under a known ransomware extension.
pub struct FileExtensionDetector {
    pub config: DetectorConfig,
}

impl FileExtensionDetector {
    pub fn new(config: &DetectorConfig) -> (d: FileExtensionDetector)
        ensures
            d.config.equiv(config),
    {
        FileExtensionDetector { config: config.duplicate() }
    }

    /// The lower-cased tail of `path` from its last dot, as bytes.
    pub fn get_file_extension(path: &str) -> (r: Vec<u8>)
        ensures
            r@ == spec_extension(encode_utf8(path@)),
    {
        let pb = path.as_bytes_vec();
        extension_of(pb.as_slice())
    }
}

/// Whether `e` is one of the known ransomware extensions.
fn is_suspicious_extension(e: &[u8]) -> (r: bool)
    ensures
        r == spec_suspicious_extension(e@),
{
    bytes_eq(e, ".locked".as_bytes_vec().as_slice()) || bytes_eq(
        e,
        ".encrypted".as_bytes_vec().as_slice(),
    ) || bytes_eq(e, ".crypto".as_bytes_vec().as_slice()) || bytes_eq(
        e,
        ".vault".as_bytes_vec().as_slice(),
    ) || bytes_eq(e, ".ecc".as_bytes_vec().as_slice()) || bytes_eq(
        e,
        ".ezz".as_bytes_vec().as_slice(),
    ) || bytes_eq(e, ".exx".as_bytes_vec().as_slice()) || bytes_eq(
        e,
        ".zzz".as_bytes_vec().as_slice(),
    ) || bytes_eq(e, ".aaa".as_bytes_vec().as_slice()) || bytes_eq(
        e,
        ".micro".as_bytes_vec().as_slice(),
    ) || bytes_eq(e, ".crypted".as_bytes_vec().as_slice()) || bytes_eq(
        e,
        ".payfast".as_bytes_vec().as_slice(),
    )
}

impl Detector for FileExtensionDetector {
    open spec fn wf(&self) -> bool {
        true
    }

    fn name(&self) -> (n: &'static str)
        ensures
            n@ == "FileExtensionDetector"@,
    {
        "FileExtensionDetector"
    }

    fn analyze(&self, event: &FileEvent, stats: &ProcessStats) -> (s: u32)
        ensures
            s as int == spec_file_extension_score(*event),
    {
        if event.event_type != EventType::FileCreate && event.event_type != EventType::FileWrite {
            return 0;
        }
        let ext = Self::get_file_extension(event.file_path.as_str());
        if is_suspicious_extension(ext.as_slice()) {
            SCORE_ONE
        } else {
            0
        }
    }
}

} // verus!
