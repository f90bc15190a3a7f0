//! The replica scheduler's decision core: fan one module out into `N`
//! independently supervised instances with dense identities `0..N-1`, all
//! sharing one resource-budget template and directory mapping.
//!
//! The driver spawns one task per planned instance and waits for all of
//! them; a failure in one replica is recorded for that replica alone and
//! never cancels, pauses or restarts a sibling.

use vstd::prelude::*;
use crate::engine::{spec_classify_fault, InstanceConfig, InstanceOutcome, Mount, RunFault};
use crate::switch::{fresh_mailbox, spec_register, MailboxModel, VirtualSwitch};
use crate::text::copy_str;

verus! {

/// The registry after registering the dense identity block `0 .. n`.
pub open spec fn spec_register_replicas(routes: Map<u32, MailboxModel>, n: nat) -> Map<
    u32,
    MailboxModel,
>
    decreases n,
{
    if n == 0 {
        routes
    } else {
        spec_register(spec_register_replicas(routes, (n - 1) as nat), (n - 1) as u32)
    }
}

/// Replica identity density: registering a group of `n` replicas registers
/// exactly the identities `0 .. n-1`, each exactly once with a fresh,
/// empty mailbox, and touches no other identity's registration.
pub proof fn lemma_replica_identity_density(routes: Map<u32, MailboxModel>, n: nat)
    requires
        n <= u32::MAX,
    ensures
        forall|k: u32| #![all_triggers]
            k < n ==> spec_register_replicas(routes, n).dom().contains(k)
                && spec_register_replicas(routes, n)[k] == fresh_mailbox(),
        forall|k: u32|
            k >= n ==> ((#[trigger] spec_register_replicas(routes, n).dom().contains(k))
                <==> routes.dom().contains(k)),
        forall|k: u32|
            k >= n && routes.dom().contains(k) ==> #[trigger] spec_register_replicas(routes, n)[k]
                == routes[k],
    decreases n,
{
    if n > 0 {
        lemma_replica_identity_density(routes, (n - 1) as nat);
        let prev = spec_register_replicas(routes, (n - 1) as nat);
        let after = spec_register_replicas(routes, n);
        let last = (n - 1) as u32;
        assert(after == prev.insert(last, fresh_mailbox()));
        assert forall|k: u32| #![all_triggers] k < n implies spec_register_replicas(
            routes,
            n,
        ).dom().contains(k) && spec_register_replicas(routes, n)[k] == fresh_mailbox() by {
            if k != last {
                assert(k < (n - 1) as nat);
                assert(prev[k] == fresh_mailbox());
                assert(prev.dom().contains(k));
                assert(after[k] == prev[k]);
            } else {
                assert(after.dom().contains(k));
                assert(after[k] == fresh_mailbox());
            }
            assert(spec_register_replicas(routes, n).dom().contains(k));
            assert(spec_register_replicas(routes, n)[k] == fresh_mailbox());
        }
        assert forall|k: u32| k >= n implies ((#[trigger] spec_register_replicas(
            routes,
            n,
        ).dom().contains(k)) <==> routes.dom().contains(k)) by {
            assert(k != last);
            assert(after.dom().contains(k) <==> prev.dom().contains(k));
            assert(prev.dom().contains(k) <==> routes.dom().contains(k));
        }
        assert forall|k: u32| k >= n && routes.dom().contains(k)
            implies #[trigger] spec_register_replicas(routes, n)[k] == routes[k] by {
            assert(k != last);
            assert(prev[k] == routes[k]);
            assert(after[k] == prev[k]);
        }
    }
}

/// Record one replica's outcome without touching any sibling's slot.
pub fn record_outcome(
    outcomes: &mut Vec<Option<InstanceOutcome>>,
    index: usize,
    outcome: InstanceOutcome,
)
    requires
        index < old(outcomes)@.len(),
    ensures
        final(outcomes)@ == old(outcomes)@.update(index as int, Some(outcome)),
{
    outcomes[index] = Some(outcome);
}

/// Isolation: an instance whose fuel budget is exhausted mid-execution is
/// reported as a trap outcome distinct from completion, and recording that
/// outcome for one replica leaves every sibling's outcome untouched.
pub proof fn lemma_fault_isolation(outcomes: Seq<Option<InstanceOutcome>>, i: int, j: int)
    requires
        0 <= i < outcomes.len(),
        0 <= j < outcomes.len(),
        i != j,
    ensures
        ({
            let reported = outcomes.update(
                i,
                Some(spec_classify_fault(RunFault::FuelExhausted)),
            );
            &&& reported[i] == Some(InstanceOutcome::Trapped(RunFault::FuelExhausted))
            &&& reported[i] != Some(InstanceOutcome::Completed)
            &&& reported[j] == outcomes[j]
        }),
{
}

/// The replica scheduler. Its verified core plans a group; the driver
/// launches the planned instances concurrently and joins them all.
pub struct Scheduler;

impl Scheduler {
    /// Plan a replica group: one configuration per replica, identities
    /// dense from 0, every other field copied from the shared template.
    pub fn replica_plan(
        module_file: &str,
        replicas: u32,
        fuel: Option<u64>,
        memory_ceiling: Option<u64>,
        mount: Option<&Mount>,
    ) -> (r: Vec<InstanceConfig>)
        ensures
            r@.len() == replicas,
            forall|i: int|
                0 <= i < replicas ==> {
                    let c = #[trigger] r@[i];
                    &&& c.identity == i
                    &&& c.module_file@ == module_file@
                    &&& c.fuel == fuel
                    &&& c.memory_ceiling == memory_ceiling
                    &&& match mount {
                        Some(m) => c.mount matches Some(cm) && cm.host_path@ == m.host_path@
                            && cm.guest_path@ == m.guest_path@,
                        None => c.mount is None,
                    }
                },
    {
        let mut plan: Vec<InstanceConfig> = Vec::new();
        let mut i: u32 = 0;
        while i < replicas
            invariant
                i <= replicas,
                plan@.len() == i,
                forall|j: int|
                    0 <= j < i ==> {
                        let c = #[trigger] plan@[j];
                        &&& c.identity == j
                        &&& c.module_file@ == module_file@
                        &&& c.fuel == fuel
                        &&& c.memory_ceiling == memory_ceiling
                        &&& match mount {
                            Some(m) => c.mount matches Some(cm) && cm.host_path@ == m.host_path@
                                && cm.guest_path@ == m.guest_path@,
                            None => c.mount is None,
                        }
                    },
            decreases replicas - i,
        {
            let dup = match mount {
                Some(m) => Some(
                    Mount {
                        host_path: copy_str(m.host_path.as_str()),
                        guest_path: copy_str(m.guest_path.as_str()),
                    },
                ),
                None => None,
            };
            plan.push(
                InstanceConfig {
                    module_file: copy_str(module_file),
                    identity: i,
                    fuel,
                    memory_ceiling: memory_ceiling,
                    mount: dup,
                },
            );
            i = i + 1;
        }
        plan
    }

    /// Register a whole replica group's identities with the switch, in
    /// identity order.
    pub fn register_replicas(switch: &mut VirtualSwitch, replicas: u32)
        requires
            old(switch).well_formed(),
        ensures
            final(switch).well_formed(),
            final(switch).routes() == spec_register_replicas(
                old(switch).routes(),
                replicas as nat,
            ),
    {
        let mut i: u32 = 0;
        while i < replicas
            invariant
                old(switch).well_formed(),
                switch.well_formed(),
                i <= replicas,
                switch.routes() == spec_register_replicas(old(switch).routes(), i as nat),
            decreases replicas - i,
        {
            switch.register(i);
            i = i + 1;
        }
    }
}

} // verus!
