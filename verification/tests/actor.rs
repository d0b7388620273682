//! Mailboxes.

use iot_gateway::actor::{Actor, ActorRef};
use iot_gateway::sync::MpscRing;

struct Add(u32);

struct Counter {
    value: u32,
}

impl Actor for Counter {
    type Msg = Add;

    fn handle(&mut self, msg: Add) {
        self.value += msg.0;
    }
}

#[test]
fn test_mailbox_ring() {
    let mut r: MpscRing<u32, 4> = MpscRing::new();
    assert!(r.try_enqueue(1));
    assert!(r.try_enqueue(2));
    assert_eq!(r.dequeue(), Some(1));
    assert_eq!(r.dequeue(), Some(2));
}

#[test]
fn a_full_mailbox_drops_new_messages() {
    let mut mailbox: ActorRef<Counter> = ActorRef::new();
    for _ in 0..32 {
        assert!(mailbox.try_send(Add(1)));
    }
    assert!(!mailbox.try_send(Add(1)));
    mailbox.send(Add(1));
    assert_eq!(mailbox.pending(), 32);
    let mut counter = Counter { value: 0 };
    counter.init();
    assert_eq!(counter.idle(), 10);
    while let Some(msg) = mailbox.next() {
        counter.handle(msg);
    }
    counter.shutdown();
    assert_eq!(counter.value, 32);
    assert_eq!(mailbox.pending(), 0);
}
