//! The execution engine's decision core: how one instance's run is
//! configured, which lifecycle transitions exist, and how a run's fault is
//! classified into an outcome.
//!
//! The engine drives exactly one binary module to completion under a
//! resource budget. Loading and executing the module is outside work the
//! driver performs; everything it must decide — the fuel budget, the
//! memory ceiling in bytes, the parsed directory mapping, the lifecycle
//! bookkeeping, and the mapping from fault to reported outcome — is
//! computed and verified here.

use vstd::prelude::*;
use crate::text::{copy_str, find_char, find_char_spec, lemma_find_char_spec};

verus! {

/// A directory mapping: a host path exposed read/write inside the guest.
pub struct Mount {
    pub host_path: String,
    pub guest_path: String,
}

/// Everything one instance's run is configured with.
pub struct InstanceConfig {
    /// Path of the binary module to execute.
    pub module_file: String,
    /// The instance's identity: 0 for a single run, dense for a replica
    /// group. Registered with the switch before execution starts.
    pub identity: u32,
    /// Instruction budget; `None` means unlimited.
    pub fuel: Option<u64>,
    /// Ceiling on the module's linear memory, in bytes; `None` means none.
    pub memory_ceiling: Option<u64>,
    /// The directory mapping, when one was given and well formed.
    pub mount: Option<Mount>,
}

/// The lifecycle of one instance. `Registered` happens exactly once,
/// before `Running`; the three outcomes are terminal.
#[derive(Clone, Copy, Debug, PartialEq, Eq, Structural)]
pub enum LifecycleState {
    Created,
    Registered,
    Running,
    Completed,
    Trapped,
    InstantiationFailed,
}

/// The events that move an instance through its lifecycle.
#[derive(Clone, Copy, Debug, PartialEq, Eq, Structural)]
pub enum LifecycleEvent {
    /// The identity was registered with the switch; the inbox exists.
    Register,
    /// The module's entry point was invoked.
    Start,
    /// The entry point returned.
    Complete,
    /// Execution trapped: fuel ran out, the memory ceiling was violated,
    /// or the entry point faulted.
    Trap,
    /// The module could not be instantiated.
    FailInstantiation,
}

/// The lifecycle transition relation: which event is legal in which state,
/// and where it leads. Everything else is a stuck (illegal) step.
pub open spec fn lifecycle_next(s: LifecycleState, e: LifecycleEvent) -> Option<LifecycleState> {
    match (s, e) {
        (LifecycleState::Created, LifecycleEvent::Register) => Some(LifecycleState::Registered),
        (LifecycleState::Registered, LifecycleEvent::Start) => Some(LifecycleState::Running),
        (LifecycleState::Running, LifecycleEvent::Complete) => Some(LifecycleState::Completed),
        (LifecycleState::Running, LifecycleEvent::Trap) => Some(LifecycleState::Trapped),
        (LifecycleState::Running, LifecycleEvent::FailInstantiation) => Some(
            LifecycleState::InstantiationFailed,
        ),
        _ => None,
    }
}

/// The states an instance never leaves: its reported outcomes.
pub open spec fn is_terminal(s: LifecycleState) -> bool {
    s is Completed || s is Trapped || s is InstantiationFailed
}

/// Take one lifecycle step; `None` refuses an illegal transition.
pub fn lifecycle_step(s: LifecycleState, e: LifecycleEvent) -> (r: Option<LifecycleState>)
    ensures
        r == lifecycle_next(s, e),
{
    match (s, e) {
        (LifecycleState::Created, LifecycleEvent::Register) => Some(LifecycleState::Registered),
        (LifecycleState::Registered, LifecycleEvent::Start) => Some(LifecycleState::Running),
        (LifecycleState::Running, LifecycleEvent::Complete) => Some(LifecycleState::Completed),
        (LifecycleState::Running, LifecycleEvent::Trap) => Some(LifecycleState::Trapped),
        (LifecycleState::Running, LifecycleEvent::FailInstantiation) => Some(
            LifecycleState::InstantiationFailed,
        ),
        _ => None,
    }
}

/// A terminal state admits no further transition: there are no retries and
/// no resumption.
pub proof fn lemma_terminal_states_are_final(s: LifecycleState, e: LifecycleEvent)
    requires
        is_terminal(s),
    ensures
        lifecycle_next(s, e) is None,
{
}

/// The faults a run can end in, as the driver observes them.
#[derive(Clone, Copy, Debug, PartialEq, Eq, Structural)]
pub enum RunFault {
    /// The instruction budget was exhausted mid-execution.
    FuelExhausted,
    /// The module's linear memory could not stay under the ceiling.
    MemoryCeilingExceeded,
    /// The entry point trapped for any other reason.
    EntryPointTrap,
    /// The module could not be loaded, linked or instantiated, or has no
    /// entry point.
    InstantiationFault,
}

/// The outcome one instance's run is reported with.
#[derive(Clone, Copy, Debug, PartialEq, Eq, Structural)]
pub enum InstanceOutcome {
    /// The entry point ran to completion.
    Completed,
    /// Execution terminated on the recorded fault.
    Trapped(RunFault),
    /// The instance never started executing.
    InstantiationFailed,
}

/// How a fault is reported: resource exhaustion and entry-point traps are
/// trap outcomes carrying their distinct cause; a failed instantiation is
/// its own outcome. No fault is ever reported as a completion.
pub open spec fn spec_classify_fault(f: RunFault) -> InstanceOutcome {
    match f {
        RunFault::InstantiationFault => InstanceOutcome::InstantiationFailed,
        _ => InstanceOutcome::Trapped(f),
    }
}

/// Classify a run's fault into the outcome reported to the caller. The
/// outcome is never `Completed`, and distinct faults stay distinguishable.
pub fn classify_fault(f: RunFault) -> (r: InstanceOutcome)
    ensures
        r == spec_classify_fault(f),
        r != InstanceOutcome::Completed,
{
    match f {
        RunFault::InstantiationFault => InstanceOutcome::InstantiationFailed,
        _ => InstanceOutcome::Trapped(f),
    }
}

/// The instruction budget actually set: the requested fuel, or effectively
/// unlimited when none was requested.
pub fn fuel_budget(fuel: Option<u64>) -> (r: u64)
    ensures
        r == match fuel {
            Some(f) => f,
            None => u64::MAX,
        },
{
    match fuel {
        Some(f) => f,
        None => u64::MAX,
    }
}

/// A memory ceiling of `mb` megabytes, converted to bytes; `None` when the
/// product does not fit in 64 bits.
pub fn memory_ceiling_bytes(mb: u64) -> (r: Option<u64>)
    ensures
        mb * 1048576 <= u64::MAX ==> r == Some((mb * 1048576) as u64),
        mb * 1048576 > u64::MAX ==> r is None,
{
    if mb <= u64::MAX / 1048576 {
        proof {
            assert(mb * 1048576 <= (u64::MAX / 1048576) * 1048576) by (nonlinear_arith)
                requires
                    mb <= u64::MAX / 1048576,
            ;
        }
        Some(mb * 1048576)
    } else {
        proof {
            assert(mb * 1048576 > u64::MAX) by (nonlinear_arith)
                requires
                    mb > u64::MAX / 1048576,
            ;
        }
        None
    }
}

/// What a directory-mapping argument means: exactly two `:`-separated
/// parts make a mount of host path and guest path; anything else is
/// malformed, a non-fatal condition (the instance runs without the mount).
pub open spec fn parse_map_dir_spec(s: Seq<char>) -> Option<(Seq<char>, Seq<char>)> {
    match find_char_spec(s, ':') {
        None => None,
        Some(i) => {
            let host = s.take(i);
            let guest = s.skip(i + 1);
            if find_char_spec(guest, ':') is Some {
                None
            } else {
                Some((host, guest))
            }
        },
    }
}

/// Parse a `host_path:guest_path` mapping. `None` reports a malformed
/// mapping and the caller is expected to warn and run without a mount.
pub fn parse_map_dir(s: &str) -> (r: Option<Mount>)
    ensures
        match r {
            Some(m) => parse_map_dir_spec(s@) == Some((m.host_path@, m.guest_path@)),
            None => parse_map_dir_spec(s@) is None,
        },
{
    let n = s.unicode_len();
    match find_char(s, ':') {
        None => None,
        Some(i) => {
            proof {
                lemma_find_char_spec(s@, ':');
            }
            let host = s.substring_char(0, i);
            let guest = s.substring_char(i + 1, n);
            match find_char(guest, ':') {
                Some(_) => None,
                None => {
                    proof {
                        assert(s@.subrange(0, i as int) =~= s@.take(i as int));
                        assert(s@.subrange(i + 1, n as int) =~= s@.skip(i + 1));
                    }
                    Some(
                        Mount {
                            host_path: copy_str(host),
                            guest_path: copy_str(guest),
                        },
                    )
                },
            }
        },
    }
}

/// Build the configuration for one instance's run from the caller's raw
/// inputs: the memory ceiling is converted from megabytes to bytes, and
/// the directory mapping is parsed, a malformed one leaving the instance
/// without a mount. A megabyte count whose byte value does not fit in 64
/// bits is a configuration error, fatal to this instance only.
pub fn build_config(
    module_file: &str,
    identity: u32,
    fuel: Option<u64>,
    memory_mb: Option<u64>,
    map_dir: Option<&str>,
) -> (r: Result<InstanceConfig, ConfigError>)
    ensures
        match r {
            Ok(c) => {
                &&& c.module_file@ == module_file@
                &&& c.identity == identity
                &&& c.fuel == fuel
                &&& match memory_mb {
                    Some(mb) => mb * 1048576 <= u64::MAX && c.memory_ceiling == Some(
                        (mb * 1048576) as u64,
                    ),
                    None => c.memory_ceiling is None,
                }
                &&& match map_dir {
                    Some(d) => match c.mount {
                        Some(m) => parse_map_dir_spec(d@) == Some((m.host_path@, m.guest_path@)),
                        None => parse_map_dir_spec(d@) is None,
                    },
                    None => c.mount is None,
                }
            },
            Err(e) => e is MemoryCeilingTooLarge && match memory_mb {
                Some(mb) => mb * 1048576 > u64::MAX,
                None => false,
            },
        },
{
    let memory_ceiling = match memory_mb {
        None => None,
        Some(mb) => match memory_ceiling_bytes(mb) {
            Some(b) => Some(b),
            None => {
                return Err(ConfigError::MemoryCeilingTooLarge);
            },
        },
    };
    let mount = match map_dir {
        None => None,
        Some(d) => parse_map_dir(d),
    };
    Ok(
        InstanceConfig {
            module_file: copy_str(module_file),
            identity,
            fuel,
            memory_ceiling,
            mount,
        },
    )
}

/// A configuration fault, fatal to the one instance it configures.
#[derive(Clone, Copy, Debug, PartialEq, Eq, Structural)]
pub enum ConfigError {
    /// The requested memory ceiling in megabytes exceeds what a 64-bit
    /// byte count can hold.
    MemoryCeilingTooLarge,
}

} // verus!
