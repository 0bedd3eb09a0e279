//! The component boundary: every screen implements this capability set, and
//! the dispatcher invokes the components in a fixed registration order for
//! every event, every command and every draw pass.

use vstd::prelude::*;

use crate::command::Command;
use crate::event::Event;
use crate::keymap::Config;

verus! {

/// A rectangular screen region, handed to a component's draw call.
#[derive(Debug, Clone, Copy, PartialEq, Eq, Structural)]
pub struct Rect {
    pub x: u16,
    pub y: u16,
    pub width: u16,
    pub height: u16,
}

/// One pluggable UI component. The dispatcher owns its components for the
/// whole run; no two of them ever execute concurrently. A component enqueues
/// commands by returning them from `handle_events` or `update`; the
/// dispatcher puts each returned command on the bus. This is deliberate: no
/// component holds a sender of its own, so every enqueue goes through the
/// dispatcher and the bus keeps its single owner — during a draw pass a
/// component speaks only through its `draw` result, which the dispatcher
/// turns into an `Error` command.
///
/// `register_config_handler` and `init` run once, before the loop starts; an
/// error from either aborts startup. An error from `handle_events` or
/// `update` is fatal too, while an error from `draw` is recoverable: the
/// dispatcher converts it into a `Command::Error` on the bus and the render
/// pass goes on with the remaining components.
pub trait Component {
    /// One-time injection of the shared, read-only configuration snapshot.
    fn register_config_handler(&mut self, config: &Config) -> Result<(), String> {
        Ok(())
    }

    /// One-time setup before the loop starts.
    fn init(&mut self) -> Result<(), String> {
        Ok(())
    }

    /// Local reaction to one raw event; at most one command comes back.
    fn handle_events(&mut self, event: &Event) -> Result<Option<Command>, String> {
        Ok(None)
    }

    /// Reaction to one command drained from the bus; at most one follow-up
    /// command comes back.
    fn update(&mut self, command: &Command) -> Result<Option<Command>, String> {
        Ok(None)
    }

    /// Renders into the given region of the current frame.
    fn draw(&mut self, area: Rect) -> Result<(), String>;
}

} // verus!
