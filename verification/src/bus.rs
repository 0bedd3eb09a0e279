//! The command bus: an unbounded FIFO queue of commands, backed by a tokio
//! unbounded mpsc channel. The dispatcher owns both halves: every enqueue and
//! every dequeue goes through it, so delivery order equals send order.

use vstd::prelude::*;

use crate::command::{Command, CommandV};
use crate::error::ChannelClosed;

verus! {

/// The command bus. Both channel halves live here, so the queue's contents
/// change only through `&mut self` calls.
#[verifier::external_body]
pub struct CommandBus {
    tx: tokio::sync::mpsc::UnboundedSender<Command>,
    rx: tokio::sync::mpsc::UnboundedReceiver<Command>,
}

/// The commands queued in the bus, oldest first.
pub uninterp spec fn bus_queue(bus: CommandBus) -> Seq<CommandV>;

impl View for CommandBus {
    type V = Seq<CommandV>;

    open spec fn view(&self) -> Seq<CommandV> {
        bus_queue(*self)
    }
}

/// Relies on tokio::sync::mpsc::unbounded_channel: a fresh channel holds no
/// messages.
#[verifier::external_body]
fn bus_new_raw() -> (b: CommandBus)
    ensures
        bus_queue(b) == Seq::<CommandV>::empty(),
{
    let (tx, rx) = tokio::sync::mpsc::unbounded_channel();
    CommandBus { tx, rx }
}

/// Relies on tokio::sync::mpsc::UnboundedSender::send: the message joins the
/// back of the queue, and an error comes only when the channel is closed, in
/// which case the message is handed back, not enqueued.
#[verifier::external_body]
fn bus_send_raw(bus: &mut CommandBus, c: Command) -> (r: Result<(), ChannelClosed>)
    ensures
        r is Ok ==> bus_queue(*final(bus)) == bus_queue(*old(bus)).push(c@),
        r is Err ==> bus_queue(*final(bus)) == bus_queue(*old(bus)),
{
    match bus.tx.send(c) {
        Ok(()) => Ok(()),
        Err(_) => Err(ChannelClosed),
    }
}

/// Relies on tokio::sync::mpsc::UnboundedReceiver::try_recv: it returns the
/// oldest queued message without blocking, and returns an error exactly when
/// nothing is queued (empty, or closed with nothing left).
#[verifier::external_body]
fn bus_try_recv_raw(bus: &mut CommandBus) -> (r: Option<Command>)
    ensures
        match r {
            Some(c) => bus_queue(*old(bus)).len() > 0 && c@ == bus_queue(*old(bus))[0]
                && bus_queue(*final(bus)) == bus_queue(*old(bus)).drop_first(),
            None => bus_queue(*old(bus)).len() == 0 && bus_queue(*final(bus)) == bus_queue(*old(bus)),
        },
{
    match bus.rx.try_recv() {
        Ok(c) => Some(c),
        Err(_) => None,
    }
}

impl CommandBus {
    /// A fresh, empty bus.
    pub fn new() -> (b: CommandBus)
        ensures
            b@ == Seq::<CommandV>::empty(),
    {
        bus_new_raw()
    }

    /// Enqueues a command at the back of the queue. Fails only if the channel
    /// is closed; the queue is then unchanged.
    pub fn send(&mut self, c: Command) -> (r: Result<(), ChannelClosed>)
        ensures
            r is Ok ==> final(self)@ == old(self)@.push(c@),
            r is Err ==> final(self)@ == old(self)@,
    {
        bus_send_raw(self, c)
    }

    /// Dequeues the oldest command, or reports that the queue is empty.
    pub fn try_recv(&mut self) -> (r: Option<Command>)
        ensures
            match r {
                Some(c) => old(self)@.len() > 0 && c@ == old(self)@[0] && final(self)@ == old(
                    self,
                )@.drop_first(),
                None => old(self)@.len() == 0 && final(self)@ == old(self)@,
            },
    {
        bus_try_recv_raw(self)
    }
}

} // verus!
