//! Raw input events, as the terminal backend hands them to the dispatcher.

use vstd::prelude::*;

verus! {

/// One key press: the key's code together with the modifier keys held down,
/// both as plain numbers. The terminal backend translates its own key-event
/// type into this form before the dispatcher sees it.
#[derive(Debug, Clone, Copy, PartialEq, Eq, Hash, Structural)]
pub struct KeyEvent {
    pub code: u32,
    pub modifiers: u8,
}

/// A raw signal from the terminal/input backend. `Key`, `Tick`, `Render`,
/// `Resize` and `Quit` drive the dispatcher; the remaining variants are
/// delivered to the components but have no built-in effect.
#[derive(Debug, Clone, Copy, PartialEq, Eq, Structural)]
pub enum Event {
    Init,
    Quit,
    Closed,
    Tick,
    Render,
    FocusGained,
    FocusLost,
    Key(KeyEvent),
    Resize(u16, u16),
}

} // verus!
