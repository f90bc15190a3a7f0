use nova::bridge::{HostCallEnv, HostRecvOutcome, HostSendOutcome, read_region};
use nova::switch::{RecvOutcome, SendOutcome, VirtualSwitch, MAILBOX_CAPACITY};

#[test]
fn routing_is_fifo_for_one_sender() {
    let mut sw = VirtualSwitch::new();
    sw.register(7);
    assert_eq!(sw.send(7, vec![1, 2, 3]), SendOutcome::Enqueued);
    assert_eq!(sw.send(7, vec![4]), SendOutcome::Enqueued);
    assert_eq!(sw.send(7, vec![5, 6]), SendOutcome::Enqueued);
    match sw.recv(7) {
        RecvOutcome::Message(m) => assert_eq!(m, vec![1, 2, 3]),
        _ => panic!("expected the first message"),
    }
    match sw.recv(7) {
        RecvOutcome::Message(m) => assert_eq!(m, vec![4]),
        _ => panic!("expected the second message"),
    }
    match sw.recv(7) {
        RecvOutcome::Message(m) => assert_eq!(m, vec![5, 6]),
        _ => panic!("expected the third message"),
    }
    match sw.recv(7) {
        RecvOutcome::Empty => {}
        _ => panic!("the queue should be drained"),
    }
}

#[test]
fn interleaved_sends_and_receives_keep_order() {
    let mut sw = VirtualSwitch::new();
    sw.register(8);
    assert_eq!(sw.send(8, vec![1]), SendOutcome::Enqueued);
    assert_eq!(sw.send(8, vec![2]), SendOutcome::Enqueued);
    match sw.recv(8) {
        RecvOutcome::Message(m) => assert_eq!(m, vec![1]),
        _ => panic!("expected the oldest message"),
    }
    assert_eq!(sw.send(8, vec![3]), SendOutcome::Enqueued);
    match sw.recv(8) {
        RecvOutcome::Message(m) => assert_eq!(m, vec![2]),
        _ => panic!("expected the second message"),
    }
    match sw.recv(8) {
        RecvOutcome::Message(m) => assert_eq!(m, vec![3]),
        _ => panic!("expected the third message"),
    }
}

#[test]
fn unknown_target_is_dropped_without_error() {
    let mut sw = VirtualSwitch::new();
    sw.register(1);
    assert_eq!(sw.send(99, vec![42]), SendOutcome::Dropped);
    // nothing was inserted anywhere: the registered inbox stays empty
    match sw.recv(1) {
        RecvOutcome::Empty => {}
        _ => panic!("no mailbox may receive a dropped message"),
    }
}

#[test]
fn backpressure_after_capacity() {
    let mut sw = VirtualSwitch::new();
    sw.register(3);
    for i in 0..MAILBOX_CAPACITY {
        assert_eq!(sw.send(3, vec![i as u8]), SendOutcome::Enqueued);
    }
    // the mailbox is full: the next send must wait, nothing is dropped
    assert_eq!(sw.send(3, vec![0xFF]), SendOutcome::WouldBlock);
    // the queued messages are all still there, in order
    for i in 0..MAILBOX_CAPACITY {
        match sw.recv(3) {
            RecvOutcome::Message(m) => assert_eq!(m, vec![i as u8]),
            _ => panic!("a queued message is missing"),
        }
    }
}

#[test]
fn double_registration_replaces_the_mailbox() {
    let mut sw = VirtualSwitch::new();
    sw.register(5);
    assert_eq!(sw.send(5, vec![1]), SendOutcome::Enqueued);
    sw.register(5);
    match sw.recv(5) {
        RecvOutcome::Empty => {}
        _ => panic!("re-registration must hand out a fresh, empty mailbox"),
    }
}

#[test]
fn closed_receiver_absorbs_sends() {
    let mut sw = VirtualSwitch::new();
    sw.register(2);
    sw.drop_receiver(2);
    assert_eq!(sw.send(2, vec![9]), SendOutcome::Closed);
    match sw.recv(2) {
        RecvOutcome::Closed => {}
        _ => panic!("a closed inbox reports Closed"),
    }
}

#[test]
fn truncation_into_a_small_buffer() {
    let mut sw = VirtualSwitch::new();
    sw.register(0);
    let env = HostCallEnv { identity: 0 };
    // a 10-byte message
    let ten: Vec<u8> = vec![10, 11, 12, 13, 14, 15, 16, 17, 18, 19];
    assert_eq!(sw.send(0, ten), SendOutcome::Enqueued);
    // received into a 4-byte region of guest memory
    let mut memory: Vec<u8> = vec![0; 8];
    let r = env.receive(&mut sw, &mut memory, 2, 4);
    assert_eq!(r, HostRecvOutcome::Written(4));
    assert_eq!(memory, vec![0, 0, 10, 11, 12, 13, 0, 0]);
    // the remaining 6 bytes are discarded, not retrievable later
    let r = env.receive(&mut sw, &mut memory, 0, 8);
    assert_eq!(r, HostRecvOutcome::Empty);
}

#[test]
fn bridge_send_and_identity() {
    let mut sw = VirtualSwitch::new();
    sw.register(4);
    let env = HostCallEnv { identity: 9 };
    assert_eq!(env.get_identity(), 9);
    let memory: Vec<u8> = vec![7, 8, 9, 10];
    // in bounds: two bytes starting at offset 1
    assert_eq!(
        env.send(&mut sw, &memory, 4, 1, 2),
        HostSendOutcome::Delivered(SendOutcome::Enqueued)
    );
    // out of bounds: a safe no-op
    assert_eq!(env.send(&mut sw, &memory, 4, 3, 2), HostSendOutcome::OutOfBounds);
    let mut inbox_mem: Vec<u8> = vec![0; 4];
    let receiver = HostCallEnv { identity: 4 };
    assert_eq!(receiver.receive(&mut sw, &mut inbox_mem, 0, 4), HostRecvOutcome::Written(2));
    assert_eq!(inbox_mem, vec![8, 9, 0, 0]);
}

#[test]
fn out_of_bounds_receive_consumes_the_message() {
    let mut sw = VirtualSwitch::new();
    sw.register(6);
    assert_eq!(sw.send(6, vec![1, 2, 3]), SendOutcome::Enqueued);
    let env = HostCallEnv { identity: 6 };
    let mut memory: Vec<u8> = vec![0; 2];
    // the region does not fit: the guest sees 0 and the message is lost
    assert_eq!(env.receive(&mut sw, &mut memory, 1, 3), HostRecvOutcome::Written(0));
    assert_eq!(memory, vec![0, 0]);
    assert_eq!(env.receive(&mut sw, &mut memory, 0, 2), HostRecvOutcome::Empty);
}

#[test]
fn read_region_bounds() {
    let memory: Vec<u8> = vec![1, 2, 3];
    assert_eq!(read_region(&memory, 0, 3), Some(vec![1, 2, 3]));
    assert_eq!(read_region(&memory, 2, 1), Some(vec![3]));
    assert_eq!(read_region(&memory, 2, 2), None);
    assert_eq!(read_region(&memory, 4, 0), None);
}
