//! The quarantine adapter's command contract.
//!
//! The privileged helper binary is invoked by the host program; the core
//! fixes what is handed to it — `--suspend <pid>` or `--release <pid>`,
//! with the PID in decimal — and how its exit is read: exit code zero is
//! success, anything else is a [`AgentError::Quarantine`] carrying the
//! helper's stderr.

use vstd::prelude::*;
use crate::errors::AgentError;

verus! {

/// The decimal digits of `n`, most significant first.
pub open spec fn spec_decimal(n: int) -> Seq<u8>
    decreases n,
{
    if n < 10 {
        seq![(48 + n) as u8]
    } else {
        spec_decimal(n / 10).push((48 + n % 10) as u8)
    }
}

/// Renders a PID in decimal ASCII.
pub fn pid_decimal(pid: u32) -> (r: Vec<u8>)
    ensures
        r@ == spec_decimal(pid as int),
{
    let mut digits_rev: Vec<u8> = Vec::new();
    let mut n: u32 = pid;
    proof {
        assert(digits_rev@.reverse() =~= Seq::<u8>::empty());
        assert(spec_decimal(pid as int) =~= spec_decimal(n as int) + digits_rev@.reverse());
    }
    loop
        invariant_except_break
            spec_decimal(pid as int) =~= spec_decimal(n as int) + digits_rev@.reverse(),
        ensures
            spec_decimal(pid as int) == digits_rev@.reverse(),
        decreases n,
    {
        let d: u8 = (n % 10) as u8;
        let next = n / 10;
        let ghost dr = digits_rev@;
        digits_rev.push(48 + d);
        proof {
            assert(digits_rev@.reverse() =~= seq![(48 + d) as u8] + dr.reverse());
            if n >= 10 {
                assert(spec_decimal(n as int) == spec_decimal(n as int / 10).push(
                    (48 + n as int % 10) as u8,
                ));
                assert(spec_decimal(n as int) + dr.reverse() =~= spec_decimal(next as int)
                    + digits_rev@.reverse());
            } else {
                assert(spec_decimal(n as int) =~= seq![(48 + n as int) as u8]);
                assert(spec_decimal(n as int) + dr.reverse() =~= digits_rev@.reverse());
            }
        }
        if next == 0 {
            break ;
        }
        n = next;
    }
    let m = digits_rev.len();
    let mut r: Vec<u8> = Vec::new();
    for i in 0..m
        invariant
            m == digits_rev@.len(),
            spec_decimal(pid as int) == digits_rev@.reverse(),
            r@ =~= digits_rev@.reverse().subrange(0, i as int),
    {
        r.push(digits_rev[m - 1 - i]);
        proof {
            assert(digits_rev@.reverse()[i as int] == digits_rev@[m - 1 - i]);
            assert(r@ =~= digits_rev@.reverse().subrange(0, i + 1));
        }
    }
    proof {
        assert(digits_rev@.reverse().subrange(0, m as int) =~= digits_rev@.reverse());
    }
    r
}

/// Invokes the privileged helper that suspends and releases processes.
pub struct QuarantineController {
    /// Where the helper binary lives.
    pub quarantine_exe_path: String,
}

impl QuarantineController {
    pub fn new(quarantine_path: &String) -> (c: QuarantineController)
        ensures
            c.quarantine_exe_path@ == quarantine_path@,
    {
        QuarantineController { quarantine_exe_path: quarantine_path.clone() }
    }

    /// The flag handed to the helper to suspend a process.
    pub fn suspend_flag(&self) -> (r: &'static str)
        ensures
            r@ == "--suspend"@,
    {
        "--suspend"
    }

    /// The flag handed to the helper to release a process.
    pub fn release_flag(&self) -> (r: &'static str)
        ensures
            r@ == "--release"@,
    {
        "--release"
    }

    /// Reads the helper's exit: code zero is success, anything else is a
    /// quarantine error carrying the helper's stderr text.
    pub fn interpret_exit(&self, exit_code: i32, stderr: String) -> (r: Result<(), AgentError>)
        ensures
            (exit_code == 0) == r.is_ok(),
            (match r {
                Ok(u) => true,
                Err(e) => e matches AgentError::Quarantine(s) && s@ == stderr@,
            }),
    {
        if exit_code == 0 {
            Ok(())
        } else {
            Err(AgentError::Quarantine(stderr))
        }
    }
}

} // verus!
