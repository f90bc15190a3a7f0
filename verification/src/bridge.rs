//! The host-call bridge: the fixed import surface a guest instance uses to
//! reach outside its sandbox. Three calls exist: learn the instance's own
//! identity, send a byte message, and receive one.
//!
//! Every call operates on the guest's linear memory through explicit bounds
//! checks: an out-of-bounds region makes the call fail safely instead of
//! violating isolation. The driver links these operations under the fixed
//! import names of the binary contract and performs the waiting whenever a
//! receive finds the inbox empty; a send never suspends the caller, its
//! delivery (with any backpressure) is handed to a detached delivery task.

use vstd::prelude::*;
use crate::switch::{
    spec_recv, spec_send, spec_send_outcome, can_deliver, Message, SendOutcome, VirtualSwitch,
};

verus! {

/// What the send host call reports to the host (never to the guest: the
/// guest-visible call returns nothing).
#[derive(Clone, Copy, Debug, PartialEq, Eq, Structural)]
pub enum HostSendOutcome {
    /// The region was in bounds; the copied message was handed to the
    /// switch with the given outcome.
    Delivered(SendOutcome),
    /// The region was out of bounds; nothing was read or sent.
    OutOfBounds,
}

/// What the receive host call produced.
#[derive(Clone, Copy, Debug, PartialEq, Eq, Structural)]
pub enum HostRecvOutcome {
    /// A message arrived; this many bytes of it were copied into guest
    /// memory. Anything beyond the guest's buffer was discarded.
    Written(u32),
    /// The inbox is open but empty; the instance must be suspended until a
    /// message arrives. Receiving is the only suspension point.
    Empty,
    /// The inbox is closed with no pending message; the guest sees 0.
    Closed,
}

/// The per-instance state the host calls read: the instance's own identity.
pub struct HostCallEnv {
    pub identity: u32,
}

/// Whether `ptr .. ptr + len` lies inside a memory of `mem_len` bytes.
pub open spec fn region_in_bounds(mem_len: nat, ptr: u32, len: u32) -> bool {
    ptr + len <= mem_len
}

/// How many bytes of a message a receive writes into a guest buffer of
/// `len` bytes: the whole message, or the buffer's worth of it.
pub open spec fn truncated_len(msg: Seq<u8>, len: u32) -> nat {
    if msg.len() <= len {
        msg.len()
    } else {
        len as nat
    }
}

impl HostCallEnv {
    /// The guest-callable identity query: the instance's own identity.
    /// Always succeeds, never suspends, no side effects.
    pub fn get_identity(&self) -> (r: u32)
        ensures
            r == self.identity,
    {
        self.identity
    }

    /// The guest-callable send: read `len` bytes of guest memory at `ptr`,
    /// copy them into an owned message, and hand that message to the
    /// switch for the target. An out-of-bounds region is a safe no-op. The
    /// switch outcome is reported to the host only; a blocked or dropped
    /// delivery never destabilizes the sending instance.
    pub fn send(
        &self,
        switch: &mut VirtualSwitch,
        memory: &Vec<u8>,
        target: u32,
        ptr: u32,
        len: u32,
    ) -> (r: HostSendOutcome)
        requires
            old(switch).well_formed(),
        ensures
            final(switch).well_formed(),
            !region_in_bounds(memory@.len(), ptr, len) ==> r == HostSendOutcome::OutOfBounds
                && final(switch).routes() == old(switch).routes(),
            region_in_bounds(memory@.len(), ptr, len) ==> {
                let msg = memory@.subrange(ptr as int, ptr as int + len as int);
                &&& r == HostSendOutcome::Delivered(
                    spec_send_outcome(old(switch).routes(), target),
                )
                &&& final(switch).routes() == spec_send(old(switch).routes(), target, msg)
            },
    {
        match read_region(memory, ptr, len) {
            None => HostSendOutcome::OutOfBounds,
            Some(msg) => HostSendOutcome::Delivered(switch.send(target, msg)),
        }
    }

    /// The guest-callable receive: take the oldest message from this
    /// instance's own inbox and copy as much of it as fits into the guest
    /// buffer of `len` bytes at `ptr`. A larger message is truncated and
    /// the rest discarded, never buffered for a later call. An empty, open
    /// inbox answers `Empty`: the driver suspends the instance until a
    /// message arrives. A closed inbox answers `Closed`; the guest sees 0.
    /// A message that cannot be written back because the guest region is
    /// out of bounds is consumed and lost, and the guest sees 0.
    pub fn receive(
        &self,
        switch: &mut VirtualSwitch,
        memory: &mut Vec<u8>,
        ptr: u32,
        len: u32,
    ) -> (r: HostRecvOutcome)
        requires
            old(switch).well_formed(),
        ensures
            final(switch).well_formed(),
            final(memory)@.len() == old(memory)@.len(),
            !can_deliver(old(switch).routes(), self.identity) ==> final(switch).routes() == old(
                switch,
            ).routes() && final(memory)@ == old(memory)@,
            old(switch).registered(self.identity) && old(switch).mailbox(
                self.identity,
            ).receiver_live && old(switch).mailbox(self.identity).queue.len() == 0 ==> r
                == HostRecvOutcome::Empty,
            !old(switch).registered(self.identity) || !old(switch).mailbox(
                self.identity,
            ).receiver_live ==> r == HostRecvOutcome::Closed,
            can_deliver(old(switch).routes(), self.identity) ==> {
                let msg = old(switch).mailbox(self.identity).queue[0];
                let n = truncated_len(msg, len);
                &&& final(switch).routes() == spec_recv(old(switch).routes(), self.identity)
                &&& region_in_bounds(old(memory)@.len(), ptr, n as u32) ==> {
                    &&& r == HostRecvOutcome::Written(n as u32)
                    &&& final(memory)@ == old(memory)@.map(
                        |i: int, b: u8|
                            if ptr <= i < ptr + n {
                                msg[i - ptr]
                            } else {
                                b
                            },
                    )
                }
                &&& !region_in_bounds(old(memory)@.len(), ptr, n as u32) ==> (r
                    == HostRecvOutcome::Written(0) && final(memory)@ == old(memory)@)
            },
    {
        match switch.recv(self.identity) {
            crate::switch::RecvOutcome::Closed => HostRecvOutcome::Closed,
            crate::switch::RecvOutcome::Empty => HostRecvOutcome::Empty,
            crate::switch::RecvOutcome::Message(msg) => {
                let n: usize = if msg.len() <= len as usize {
                    msg.len()
                } else {
                    len as usize
                };
                if write_region(memory, ptr, &msg, n) {
                    HostRecvOutcome::Written(n as u32)
                } else {
                    HostRecvOutcome::Written(0)
                }
            },
        }
    }
}

/// Copy `ptr .. ptr + len` of the guest memory into an owned message, or
/// report that the region is out of bounds.
pub fn read_region(memory: &Vec<u8>, ptr: u32, len: u32) -> (r: Option<Message>)
    ensures
        match r {
            Some(msg) => region_in_bounds(memory@.len(), ptr, len) && msg@ == memory@.subrange(
                ptr as int,
                ptr as int + len as int,
            ),
            None => !region_in_bounds(memory@.len(), ptr, len),
        },
{
    let mem_len = memory.len();
    if len as usize > mem_len || ptr as usize > mem_len - len as usize {
        return None;
    }
    let mut msg: Vec<u8> = Vec::new();
    let mut i: usize = 0;
    while i < len as usize
        invariant
            i <= len as usize,
            ptr + len <= memory@.len(),
            memory@.len() <= usize::MAX,
            msg@ == memory@.subrange(ptr as int, ptr as int + i as int),
        decreases len as usize - i,
    {
        msg.push(memory[ptr as usize + i]);
        proof {
            assert(msg@ =~= memory@.subrange(ptr as int, ptr as int + (i + 1) as int));
        }
        i = i + 1;
    }
    Some(msg)
}

/// Write the first `count` bytes of `data` into the guest memory at `ptr`,
/// leaving every other byte alone; report false (and write nothing) if the
/// region is out of bounds.
fn write_region(memory: &mut Vec<u8>, ptr: u32, data: &Vec<u8>, count: usize) -> (ok: bool)
    requires
        count <= data@.len(),
        count <= u32::MAX as usize,
    ensures
        final(memory)@.len() == old(memory)@.len(),
        ok == region_in_bounds(old(memory)@.len(), ptr, count as u32),
        ok ==> final(memory)@ == old(memory)@.map(
            |i: int, b: u8|
                if ptr <= i < ptr + count {
                    data@[i - ptr]
                } else {
                    b
                },
        ),
        !ok ==> final(memory)@ == old(memory)@,
{
    let mem_len = memory.len();
    if count > mem_len || ptr as usize > mem_len - count {
        return false;
    }
    let mut i: usize = 0;
    while i < count
        invariant
            i <= count,
            count <= data@.len(),
            ptr + count <= memory@.len(),
            memory@.len() <= usize::MAX,
            memory@.len() == old(memory)@.len(),
            forall|j: int|
                ptr <= j < ptr + i ==> #[trigger] memory@[j] == data@[j - ptr],
            forall|j: int|
                0 <= j < memory@.len() && !(ptr <= j < ptr + i) ==> #[trigger] memory@[j] == old(
                    memory,
                )@[j],
        decreases count - i,
    {
        memory[ptr as usize + i] = data[i];
        i = i + 1;
    }
    proof {
        assert(memory@ =~= old(memory)@.map(
            |i: int, b: u8|
                if ptr <= i < ptr + count {
                    data@[i - ptr]
                } else {
                    b
                },
        ));
    }
    true
}

} // verus!
