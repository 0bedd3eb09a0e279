//! The dispatcher's fatal errors. A component's draw failure is not here: it
//! is recoverable and travels as a `Command::Error` over the bus instead.

use vstd::prelude::*;

verus! {

/// A send or receive found the command bus closed. This means the consumer
/// half was dropped, which cannot happen during a normal run, so it is fatal.
#[derive(Debug, Clone, Copy, PartialEq, Eq, Structural)]
pub struct ChannelClosed;

/// Why a run ended abnormally: the command bus was closed, or a component
/// failed while being set up or while reacting to an event or command.
#[derive(Debug)]
pub enum RunError {
    ChannelClosed,
    Component(String),
}

} // verus!
