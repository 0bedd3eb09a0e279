//! Keybinding lookup: a read-only table mapping, per mode, an ordered
//! sequence of recent key events to a command. Parsing such tables from a
//! configuration file is a collaborator's job; this module only looks
//! sequences up.

use vstd::prelude::*;

use crate::app::Mode;
use crate::command::{Command, CommandV};
use crate::event::KeyEvent;

verus! {

/// One keybinding: in `mode`, the exact key sequence `keys` triggers
/// `command`.
#[derive(Debug)]
pub struct KeyBinding {
    pub mode: Mode,
    pub keys: Vec<KeyEvent>,
    pub command: Command,
}

/// The read-only configuration snapshot the dispatcher consults: the per-mode
/// keybinding tables, flattened into one list of (mode, key sequence)
/// bindings. Lookup takes the first binding that matches.
#[derive(Debug)]
pub struct Config {
    pub keybindings: Vec<KeyBinding>,
}

/// What a lookup returns: the command of the first binding whose mode and key
/// sequence both match, if any.
pub open spec fn lookup_spec(bindings: Seq<KeyBinding>, mode: Mode, keys: Seq<KeyEvent>) -> Option<
    CommandV,
>
    decreases bindings.len(),
{
    if bindings.len() == 0 {
        None
    } else if bindings[0].mode == mode && bindings[0].keys@ == keys {
        Some(bindings[0].command@)
    } else {
        lookup_spec(bindings.drop_first(), mode, keys)
    }
}

/// Compares two key sequences element by element.
pub fn keys_equal(a: &Vec<KeyEvent>, b: &Vec<KeyEvent>) -> (r: bool)
    ensures
        r == (a@ == b@),
{
    if a.len() != b.len() {
        return false;
    }
    let n = a.len();
    for i in 0..n
        invariant
            n == a@.len(),
            a@.len() == b@.len(),
            forall|j: int| 0 <= j < i ==> a@[j] == b@[j],
    {
        if a[i].code != b[i].code || a[i].modifiers != b[i].modifiers {
            return false;
        }
    }
    proof {
        assert(a@ =~= b@);
    }
    true
}

impl Config {
    /// An empty configuration: no keybindings at all.
    pub fn new() -> (r: Config)
        ensures
            r.keybindings@.len() == 0,
    {
        Config { keybindings: Vec::new() }
    }

    /// Looks the given key sequence up in the table of the given mode.
    /// Absence of a match is a normal, silent no-op for the caller.
    pub fn lookup(&self, mode: Mode, keys: &Vec<KeyEvent>) -> (r: Option<&Command>)
        ensures
            match r {
                Some(c) => lookup_spec(self.keybindings@, mode, keys@) == Some(c@),
                None => lookup_spec(self.keybindings@, mode, keys@) is None,
            },
    {
        let n = self.keybindings.len();
        proof {
            assert(self.keybindings@.skip(0) =~= self.keybindings@);
        }
        for i in 0..n
            invariant
                n == self.keybindings@.len(),
            lookup_spec(self.keybindings@.skip(i as int), mode, keys@) == lookup_spec(
                self.keybindings@,
                mode,
                keys@,
            ),
        {
            let b = &self.keybindings[i];
            proof {
                assert(self.keybindings@.skip(i as int)[0] == self.keybindings@[i as int]);
            }
            if b.mode == mode && keys_equal(&b.keys, keys) {
                return Some(&b.command);
            }
            proof {
                assert(self.keybindings@.skip(i as int).drop_first() =~= self.keybindings@.skip(
                    i as int + 1,
                ));
            }
        }
        None
    }
}

} // verus!
