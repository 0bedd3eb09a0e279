//! Commands: the application-level messages that flow over the command bus,
//! distinct from the raw input events that produce them.

use vstd::prelude::*;

verus! {

/// A control message carried by the command bus. Commands are produced from
/// raw events, from keybinding lookups and from the components themselves,
/// and are drained by the dispatcher in send order.
#[derive(Debug)]
pub enum Command {
    Tick,
    Render,
    Resize(u16, u16),
    Quit,
    Suspend,
    Resume,
    Error(String),
}

/// The mathematical value of a `Command`: the same variants, with the error
/// message abstracted to its character sequence.
pub enum CommandV {
    Tick,
    Render,
    Resize(u16, u16),
    Quit,
    Suspend,
    Resume,
    Error(Seq<char>),
}

impl View for Command {
    type V = CommandV;

    open spec fn view(&self) -> CommandV {
        match self {
            Command::Tick => CommandV::Tick,
            Command::Render => CommandV::Render,
            Command::Resize(w, h) => CommandV::Resize(*w, *h),
            Command::Quit => CommandV::Quit,
            Command::Suspend => CommandV::Suspend,
            Command::Resume => CommandV::Resume,
            Command::Error(m) => CommandV::Error(m@),
        }
    }
}

impl Clone for Command {
    fn clone(&self) -> (r: Self)
        ensures
            r == *self,
    {
        match self {
            Command::Tick => Command::Tick,
            Command::Render => Command::Render,
            Command::Resize(w, h) => Command::Resize(*w, *h),
            Command::Quit => Command::Quit,
            Command::Suspend => Command::Suspend,
            Command::Resume => Command::Resume,
            Command::Error(m) => Command::Error(m.clone()),
        }
    }
}

impl PartialEq for Command {
    fn eq(&self, other: &Command) -> (r: bool) {
        match (self, other) {
            (Command::Tick, Command::Tick) => true,
            (Command::Render, Command::Render) => true,
            (Command::Resize(w1, h1), Command::Resize(w2, h2)) => *w1 == *w2 && *h1 == *h2,
            (Command::Quit, Command::Quit) => true,
            (Command::Suspend, Command::Suspend) => true,
            (Command::Resume, Command::Resume) => true,
            (Command::Error(m1), Command::Error(m2)) => *m1 == *m2,
            _ => false,
        }
    }
}

impl vstd::std_specs::cmp::PartialEqSpecImpl for Command {
    open spec fn obeys_eq_spec() -> bool {
        true
    }

    open spec fn eq_spec(&self, other: &Command) -> bool {
        self@ == other@
    }
}

impl Command {
    /// Whether the dispatcher reports this command when draining the bus:
    /// every command but `Tick` and `Render` is reported, so the two
    /// high-frequency timer commands produce no noise.
    pub fn should_log(&self) -> (r: bool)
        ensures
            r == (self@ != CommandV::Tick && self@ != CommandV::Render),
    {
        !(*self == Command::Tick) && !(*self == Command::Render)
    }
}

} // verus!
