//! Tasks that own their state and are driven by messages.

use crate::sync::MpscRing;
use vstd::prelude::*;

verus! {

/// Capacity of a mailbox.
pub const MAILBOX_CAPACITY: usize = 32;

/// A task: its state is its own, and messages are handed to it one at a time.
pub trait Actor: Sized {
    type Msg;

    /// Takes in a message.
    fn handle(&mut self, msg: Self::Msg);

    /// Called once before the first message.
    fn init(&mut self)
        default_ensures
            *final(self) == *old(self),
    {
    }

    /// Called once after the last message.
    fn shutdown(&mut self)
        default_ensures
            *final(self) == *old(self),
    {
    }

    /// Called while the mailbox is empty; gives the time until the next look (ms).
    fn idle(&mut self) -> (r: u64)
        default_ensures
            r == 10,
            *final(self) == *old(self),
    {
        10
    }
}

/// The mailbox of a task.
pub struct ActorRef<A: Actor> {
    mailbox: MpscRing<A::Msg, 32>,
}

impl<A: Actor> View for ActorRef<A> {
    type V = Seq<A::Msg>;

    closed spec fn view(&self) -> Seq<A::Msg> {
        self.mailbox@
    }
}

impl<A: Actor> ActorRef<A> {
    /// An empty mailbox.
    pub fn new() -> (r: Self)
        ensures
            r@ == Seq::<A::Msg>::empty(),
    {
        ActorRef { mailbox: MpscRing::new() }
    }

    /// Sends a message; says whether the mailbox had room.
    pub fn try_send(&mut self, msg: A::Msg) -> (r: bool)
        ensures
            r == (old(self)@.len() < MAILBOX_CAPACITY),
            final(self)@ == if r {
                old(self)@.push(msg)
            } else {
                old(self)@
            },
    {
        self.mailbox.try_enqueue(msg)
    }

    /// Sends a message; a full mailbox drops it.
    pub fn send(&mut self, msg: A::Msg)
        ensures
            final(self)@ == if old(self)@.len() < MAILBOX_CAPACITY {
                old(self)@.push(msg)
            } else {
                old(self)@
            },
    {
        let _ = self.try_send(msg);
    }

    /// Number of waiting messages.
    pub fn pending(&self) -> (r: usize)
        ensures
            r == self@.len(),
    {
        self.mailbox.len()
    }

    /// Takes the oldest message.
    pub fn next(&mut self) -> (r: Option<A::Msg>)
        ensures
            r is None <==> old(self)@.len() == 0,
            r is None ==> final(self)@ == old(self)@,
            r is Some ==> r == Some(old(self)@[0]) && final(self)@ == old(self)@.drop_first(),
    {
        self.mailbox.dequeue()
    }
}

/// Holds the mailbox of a task that runs.
pub struct ActorHandle<A: Actor> {
    pub actor_ref: ActorRef<A>,
}

} // verus!
