//! Tamper detection over the agent's own artifacts.
//!
//! The host program reads the bytes of the agent binary, the
//! configuration file or the driver from disk; this module owns the
//! hashing and the comparison rules.  The digest itself comes from the
//! `ring` crate behind one trusted wrapper.

use vstd::prelude::*;
use crate::text::bytes_eq;

verus! {

/// The SHA-256 digest of a byte sequence, named but not modelled.
pub uninterp spec fn sha256_of(data: Seq<u8>) -> Seq<u8>;

/// Relies on ring::digest::digest with SHA256: the digest depends on the
/// input bytes alone and is 32 bytes long.
#[verifier::external_body]
pub fn sha256(data: &[u8]) -> (r: Vec<u8>)
    ensures
        r@ == sha256_of(data@),
        r@.len() == 32,
{
    ring::digest::digest(&ring::digest::SHA256, data).as_ref().to_vec()
}

/// Holds the trusted baselines: the hash of the agent binary taken at
/// startup, and the hash of the configuration as first seen.
pub struct SecurityModule {
    /// The digest of the agent binary at startup.
    pub agent_hash: Vec<u8>,
    /// The digest of the configuration file as first verified; empty
    /// until then.
    pub config_hash: Vec<u8>,
}

impl SecurityModule {
    /// Fixes the baseline: the digest of the agent binary as handed in at
    /// startup.
    pub fn new(agent_image: &[u8]) -> (s: SecurityModule)
        ensures
            s.agent_hash@ == sha256_of(agent_image@),
            s.config_hash@ == Seq::<u8>::empty(),
    {
        SecurityModule { agent_hash: sha256(agent_image), config_hash: Vec::new() }
    }

    /// Whether the agent binary still hashes to its startup baseline.
    pub fn verify_agent_integrity(&self, current_image: &[u8]) -> (r: bool)
        ensures
            r == (sha256_of(current_image@) == self.agent_hash@),
    {
        let current = sha256(current_image);
        bytes_eq(current.as_slice(), self.agent_hash.as_slice())
    }

    /// On the first call, stores the configuration's digest and accepts;
    /// afterwards accepts exactly when the digest still matches the
    /// stored one.
    pub fn verify_config_integrity(&mut self, config_bytes: &[u8]) -> (r: bool)
        ensures
            old(self).config_hash@.len() == 0 ==> r && final(self).config_hash@ == sha256_of(
                config_bytes@,
            ),
            old(self).config_hash@.len() > 0 ==> final(self).config_hash@ == old(
                self,
            ).config_hash@ && r == (sha256_of(config_bytes@) == old(self).config_hash@),
            final(self).agent_hash@ == old(self).agent_hash@,
    {
        let current = sha256(config_bytes);
        if self.config_hash.len() == 0 {
            self.config_hash = current;
            true
        } else {
            bytes_eq(current.as_slice(), self.config_hash.as_slice())
        }
    }

    /// Hashes a driver image; signature checking belongs to the platform
    /// and is not decided here, so every readable image passes.
    pub fn verify_driver_integrity(&self, driver_image: &[u8]) -> (r: bool)
        ensures
            r,
    {
        let _hash = sha256(driver_image);
        true
    }

    /// Process-hardening flags are set by the host platform; the core
    /// keeps no state for them.
    pub fn protect_process(&self) {
    }

    /// Periodic integrity checking is scheduled by the host program; the
    /// core only provides the checks above.
    pub fn enable_tamper_detection(&self) {
    }
}

} // verus!
