//! The dispatcher: owns the current mode, the lifecycle flags, the rolling
//! key-event history and the ordered component set, and drives each loop
//! iteration — classify the event, forward it to the components, drain the
//! command bus, then decide whether to keep running, suspend or quit.

use vstd::prelude::*;

use crate::bus::CommandBus;
use crate::command::{Command, CommandV};
use crate::component::{Component, Rect};
use crate::error::{ChannelClosed, RunError};
use crate::event::{Event, KeyEvent};
use crate::keymap::{lookup_spec, Config};

verus! {

/// The active top-level screen. It selects which keybinding table is
/// consulted; exactly one mode is current at any time.
#[derive(Debug, Copy, Clone, PartialEq, Eq, Hash, Structural)]
pub enum Mode {
    TaskReport,
    TaskContext,
    Calendar,
    Error,
}

impl Default for Mode {
    fn default() -> (r: Mode)
        ensures
            r == Mode::TaskReport,
    {
        Mode::TaskReport
    }
}

/// The dispatcher state that drained commands act on: the two lifecycle
/// flags and the rolling key-event history.
#[verifier::ext_equal]
pub struct DispatchState {
    pub should_quit: bool,
    pub should_suspend: bool,
    pub keys: Seq<KeyEvent>,
}

/// The built-in effect of one drained command: `Tick` clears the key-event
/// history and nothing else does; `Quit` sets the quit flag; `Suspend` sets
/// and `Resume` clears the suspend flag; every other command changes nothing.
pub open spec fn builtin_effects(st: DispatchState, c: CommandV) -> DispatchState {
    match c {
        CommandV::Tick => DispatchState { keys: Seq::empty(), ..st },
        CommandV::Quit => DispatchState { should_quit: true, ..st },
        CommandV::Suspend => DispatchState { should_suspend: true, ..st },
        CommandV::Resume => DispatchState { should_suspend: false, ..st },
        _ => st,
    }
}

/// The built-in effects of a whole sequence of drained commands, applied in
/// order.
pub open spec fn builtin_effects_all(st: DispatchState, cmds: Seq<CommandV>) -> DispatchState
    decreases cmds.len(),
{
    if cmds.len() == 0 {
        st
    } else {
        builtin_effects_all(builtin_effects(st, cmds[0]), cmds.drop_first())
    }
}

/// The views of a sequence of commands, in order.
pub open spec fn views_of(cmds: Seq<Command>) -> Seq<CommandV> {
    cmds.map_values(|c: Command| c@)
}

/// What classifying one event enqueues on the bus: `Quit`, `Tick`, `Render`
/// and `Resize` map directly to their commands; a key event is appended to
/// the history first, and enqueues the command the active mode's keymap
/// resolves the entire new history to, if any; every other event enqueues
/// nothing.
pub open spec fn event_commands(
    config: Config,
    mode: Mode,
    hist: Seq<KeyEvent>,
    e: Event,
) -> Seq<CommandV> {
    match e {
        Event::Quit => seq![CommandV::Quit],
        Event::Tick => seq![CommandV::Tick],
        Event::Render => seq![CommandV::Render],
        Event::Resize(w, h) => seq![CommandV::Resize(w, h)],
        Event::Key(k) => match lookup_spec(config.keybindings@, mode, hist.push(k)) {
            Some(c) => seq![c],
            None => Seq::empty(),
        },
        _ => Seq::empty(),
    }
}

/// The key-event history after classifying one event: a key event is
/// appended, everything else leaves the history alone.
pub open spec fn history_after(hist: Seq<KeyEvent>, e: Event) -> Seq<KeyEvent> {
    match e {
        Event::Key(k) => hist.push(k),
        _ => hist,
    }
}

/// What a whole sequence of key presses enqueues when classified one by one,
/// starting from the given history.
pub open spec fn key_commands(
    config: Config,
    mode: Mode,
    hist: Seq<KeyEvent>,
    keys: Seq<KeyEvent>,
) -> Seq<CommandV>
    decreases keys.len(),
{
    if keys.len() == 0 {
        Seq::empty()
    } else {
        event_commands(config, mode, hist, Event::Key(keys[0])) + key_commands(
            config,
            mode,
            hist.push(keys[0]),
            keys.drop_first(),
        )
    }
}

/// A sequence of key presses none of whose growing histories resolves to a
/// command enqueues nothing at all.
pub proof fn lemma_unmatched_keys_enqueue_nothing(
    config: Config,
    mode: Mode,
    hist: Seq<KeyEvent>,
    keys: Seq<KeyEvent>,
)
    requires
        forall|i: int|
            1 <= i <= keys.len() ==> (#[trigger] lookup_spec(
                config.keybindings@,
                mode,
                hist + keys.take(i),
            )) is None,
    ensures
        key_commands(config, mode, hist, keys) == Seq::<CommandV>::empty(),
    decreases keys.len(),
{
    if keys.len() > 0 {
        assert(hist + keys.take(1) =~= hist.push(keys[0]));
        assert(lookup_spec(config.keybindings@, mode, hist + keys.take(1)) is None);
        assert forall|i: int| 1 <= i <= keys.drop_first().len() implies (#[trigger] lookup_spec(
            config.keybindings@,
            mode,
            hist.push(keys[0]) + keys.drop_first().take(i),
        )) is None by {
            assert(hist.push(keys[0]) + keys.drop_first().take(i) =~= hist + keys.take(i + 1));
            assert(lookup_spec(config.keybindings@, mode, hist + keys.take(i + 1)) is None);
        }
        lemma_unmatched_keys_enqueue_nothing(config, mode, hist.push(keys[0]), keys.drop_first());
        assert(key_commands(config, mode, hist, keys) =~= Seq::<CommandV>::empty());
    }
}

/// A `Tick` always clears the key-event history, and only a `Tick` does:
/// after any other command the history is exactly what it was.
pub proof fn lemma_tick_clears_history(st: DispatchState, c: CommandV)
    ensures
        builtin_effects(st, CommandV::Tick).keys == Seq::<KeyEvent>::empty(),
        c != CommandV::Tick ==> builtin_effects(st, c).keys == st.keys,
{
}

/// Clearing the suspend flag is idempotent: after a `Resume` the flag is
/// down, whether or not it was down already, and a second `Resume` changes
/// nothing.
pub proof fn lemma_resume_idempotent(st: DispatchState)
    ensures
        !builtin_effects(st, CommandV::Resume).should_suspend,
        builtin_effects(builtin_effects(st, CommandV::Resume), CommandV::Resume)
            == builtin_effects(st, CommandV::Resume),
{
}

/// The render pass only appends `Error` commands to the bus: what was queued
/// stays queued, in order, and everything new is a draw failure report.
pub open spec fn only_draw_errors(pre: Seq<CommandV>, post: Seq<CommandV>) -> bool {
    pre.is_prefix_of(post) && (forall|i: int|
        pre.len() <= i < post.len() ==> post[i] is Error)
}

proof fn lemma_prefix_trans(a: Seq<CommandV>, b: Seq<CommandV>, c: Seq<CommandV>)
    requires
        a.is_prefix_of(b),
        b.is_prefix_of(c),
    ensures
        a.is_prefix_of(c),
{
    assert(a =~= c.subrange(0, a.len() as int));
}

proof fn lemma_prefix_push(a: Seq<CommandV>, b: Seq<CommandV>, c: CommandV)
    requires
        a.is_prefix_of(b),
    ensures
        a.is_prefix_of(b.push(c)),
{
    assert(a =~= b.push(c).subrange(0, a.len() as int));
}

proof fn lemma_prefix_under_append(v: Seq<CommandV>, b: Seq<CommandV>, b2: Seq<CommandV>)
    requires
        b.is_prefix_of(b2),
    ensures
        (v + b).is_prefix_of(v + b2),
{
    assert(v + b =~= (v + b2).subrange(0, (v + b).len() as int));
}

proof fn lemma_effects_snoc(st: DispatchState, s: Seq<CommandV>, c: CommandV)
    ensures
        builtin_effects_all(st, s.push(c)) == builtin_effects(builtin_effects_all(st, s), c),
    decreases s.len(),
{
    if s.len() == 0 {
        assert(s.push(c)[0] == c);
        assert(s.push(c).drop_first() =~= Seq::<CommandV>::empty());
        assert(builtin_effects_all(st, s.push(c)) == builtin_effects_all(
            builtin_effects(st, c),
            s.push(c).drop_first(),
        ));
        assert(builtin_effects_all(builtin_effects(st, c), s.push(c).drop_first())
            == builtin_effects(st, c));
        assert(builtin_effects_all(st, s) == st);
    } else {
        assert(s.push(c)[0] == s[0]);
        assert(s.push(c).drop_first() =~= s.drop_first().push(c));
        assert(builtin_effects_all(st, s.push(c)) == builtin_effects_all(
            builtin_effects(st, s[0]),
            s.drop_first().push(c),
        ));
        lemma_effects_snoc(builtin_effects(st, s[0]), s.drop_first(), c);
        assert(builtin_effects_all(st, s) == builtin_effects_all(
            builtin_effects(st, s[0]),
            s.drop_first(),
        ));
    }
}

/// The most commands one drain call processes. Commands produced while a
/// drained command is handled join the same queue, so a pathological
/// component that answers every command with another command could otherwise
/// keep one drain going forever; past this bound the rest of the queue waits
/// for the next iteration.
pub const MAX_DRAIN_COMMANDS: usize = 65536;

/// How a finished run ended: the quit flag was raised, or the supplied
/// events ran out first.
#[derive(Debug, Clone, Copy, PartialEq, Eq, Structural)]
pub enum RunOutcome {
    Quit,
    EventsExhausted,
}

/// One step of a run's trace: an event observed from the source, a command
/// drained from the bus, or a completed suspend transition.
#[derive(Debug)]
pub enum TraceStep {
    Observed(Event),
    Drained(Command),
    Resumed,
}

/// What a finished run reports: how it ended, and what the loop did, in
/// order.
#[derive(Debug)]
pub struct RunReport {
    pub outcome: RunOutcome,
    pub trace: Vec<TraceStep>,
}

/// The dispatcher state after one trace step: an observed event reshapes the
/// key history, a drained command applies its built-in effect, a completed
/// suspend clears the suspend flag.
pub open spec fn replay_one(st: DispatchState, step: TraceStep) -> DispatchState {
    match step {
        TraceStep::Observed(e) => DispatchState { keys: history_after(st.keys, e), ..st },
        TraceStep::Drained(c) => builtin_effects(st, c@),
        TraceStep::Resumed => builtin_effects(st, CommandV::Resume),
    }
}

/// The dispatcher state after replaying a whole trace, step by step.
pub open spec fn replay(st: DispatchState, steps: Seq<TraceStep>) -> DispatchState
    decreases steps.len(),
{
    if steps.len() == 0 {
        st
    } else {
        replay(replay_one(st, steps[0]), steps.drop_first())
    }
}

/// The events a trace observed, in order.
pub open spec fn observed_of(steps: Seq<TraceStep>) -> Seq<Event>
    decreases steps.len(),
{
    if steps.len() == 0 {
        Seq::empty()
    } else {
        match steps[0] {
            TraceStep::Observed(e) => seq![e] + observed_of(steps.drop_first()),
            _ => observed_of(steps.drop_first()),
        }
    }
}

proof fn lemma_replay_snoc(st: DispatchState, s: Seq<TraceStep>, step: TraceStep)
    ensures
        replay(st, s.push(step)) == replay_one(replay(st, s), step),
    decreases s.len(),
{
    if s.len() == 0 {
        assert(s.push(step)[0] == step);
        assert(s.push(step).drop_first() =~= Seq::<TraceStep>::empty());
        assert(replay(st, s.push(step)) == replay(replay_one(st, step), s.push(step).drop_first()));
        assert(replay(replay_one(st, step), s.push(step).drop_first()) == replay_one(st, step));
        assert(replay(st, s) == st);
    } else {
        assert(s.push(step)[0] == s[0]);
        assert(s.push(step).drop_first() =~= s.drop_first().push(step));
        assert(replay(st, s.push(step)) == replay(replay_one(st, s[0]), s.drop_first().push(step)));
        lemma_replay_snoc(replay_one(st, s[0]), s.drop_first(), step);
        assert(replay(st, s) == replay(replay_one(st, s[0]), s.drop_first()));
    }
}

proof fn lemma_observed_snoc(s: Seq<TraceStep>, step: TraceStep)
    ensures
        observed_of(s.push(step)) == (match step {
            TraceStep::Observed(e) => observed_of(s).push(e),
            _ => observed_of(s),
        }),
    decreases s.len(),
{
    if s.len() == 0 {
        assert(s.push(step)[0] == step);
        assert(s.push(step).drop_first() =~= Seq::<TraceStep>::empty());
        assert(observed_of(s) == Seq::<Event>::empty());
        assert(observed_of(s.push(step).drop_first()) == Seq::<Event>::empty());
        match step {
            TraceStep::Observed(e) => {
                assert(observed_of(s.push(step)) == seq![e] + observed_of(
                    s.push(step).drop_first(),
                ));
                assert(seq![e] + Seq::<Event>::empty() =~= Seq::<Event>::empty().push(e));
            },
            _ => {
                assert(observed_of(s.push(step)) == observed_of(s.push(step).drop_first()));
            },
        }
    } else {
        assert(s.push(step)[0] == s[0]);
        assert(s.push(step).drop_first() =~= s.drop_first().push(step));
        lemma_observed_snoc(s.drop_first(), step);
        match s[0] {
            TraceStep::Observed(e0) => {
                assert(observed_of(s.push(step)) == seq![e0] + observed_of(
                    s.drop_first().push(step),
                ));
                assert(observed_of(s) == seq![e0] + observed_of(s.drop_first()));
                match step {
                    TraceStep::Observed(e) => {
                        assert(seq![e0] + observed_of(s.drop_first()).push(e) =~= (seq![e0]
                            + observed_of(s.drop_first())).push(e));
                    },
                    _ => {},
                }
            },
            _ => {
                assert(observed_of(s.push(step)) == observed_of(s.drop_first().push(step)));
                assert(observed_of(s) == observed_of(s.drop_first()));
            },
        }
    }
}

/// The dispatcher. It owns the configuration snapshot, the ordered component
/// set, the current mode, the lifecycle flags and the key-event history; the
/// history holds at most the keys pressed since the last `Tick`.
pub struct App<C: Component> {
    pub config: Config,
    pub components: Vec<C>,
    pub should_quit: bool,
    pub should_suspend: bool,
    pub mode: Mode,
    pub last_tick_key_events: Vec<KeyEvent>,
}

impl<C: Component> App<C> {
    /// The part of the dispatcher state that drained commands act on.
    pub open spec fn dispatch_state(self) -> DispatchState {
        DispatchState {
            should_quit: self.should_quit,
            should_suspend: self.should_suspend,
            keys: self.last_tick_key_events@,
        }
    }

    /// A fresh dispatcher over the given configuration and component set:
    /// mode is the default, no flag is raised, the history is empty.
    pub fn new(config: Config, components: Vec<C>) -> (app: App<C>)
        ensures
            app.config == config,
            app.components == components,
            !app.should_quit,
            !app.should_suspend,
            app.mode == Mode::TaskReport,
            app.last_tick_key_events@ == Seq::<KeyEvent>::empty(),
    {
        App {
            config,
            components,
            should_quit: false,
            should_suspend: false,
            mode: Mode::default(),
            last_tick_key_events: Vec::new(),
        }
    }

    /// One-time setup before the loop starts: hands every component the
    /// configuration snapshot, then runs every `init`, in registration
    /// order. The first failure aborts startup: the components after it are
    /// not called, and the registration order is kept either way.
    #[verifier::loop_isolation(false)]
    pub fn init_components(&mut self) -> (r: Result<(), RunError>)
        ensures
            final(self).config == old(self).config,
            final(self).mode == old(self).mode,
            final(self).should_quit == old(self).should_quit,
            final(self).should_suspend == old(self).should_suspend,
            final(self).last_tick_key_events@ == old(self).last_tick_key_events@,
            final(self).components@.len() == old(self).components@.len(),
            old(self).components@.len() == 0 ==> r is Ok,
    {
        let ghost pre = *self;
        let n = self.components.len();
        let mut failure: Option<RunError> = None;
        for i in 0..n
            invariant
                self.components@.len() == n,
                self.config == pre.config,
                self.mode == pre.mode,
                self.should_quit == pre.should_quit,
                self.should_suspend == pre.should_suspend,
                self.last_tick_key_events@ == pre.last_tick_key_events@,
                i == 0 ==> failure is None,
        {
            let mut comp = self.components.remove(0);
            if failure.is_none() {
                match comp.register_config_handler(&self.config) {
                    Ok(()) => {},
                    Err(msg) => {
                        failure = Some(RunError::Component(msg));
                    },
                }
            }
            self.components.push(comp);
        }
        match failure {
            Some(e) => {
                return Err(e);
            },
            None => {},
        }
        let mut init_failure: Option<RunError> = None;
        for i in 0..n
            invariant
                self.components@.len() == n,
                self.config == pre.config,
                self.mode == pre.mode,
                self.should_quit == pre.should_quit,
                self.should_suspend == pre.should_suspend,
                self.last_tick_key_events@ == pre.last_tick_key_events@,
                i == 0 ==> init_failure is None,
        {
            let mut comp = self.components.remove(0);
            if init_failure.is_none() {
                match comp.init() {
                    Ok(()) => {},
                    Err(msg) => {
                        init_failure = Some(RunError::Component(msg));
                    },
                }
            }
            self.components.push(comp);
        }
        match init_failure {
            Some(e) => Err(e),
            None => Ok(()),
        }
    }

    /// Classifies one raw event. `Quit`, `Tick`, `Render` and `Resize` map
    /// directly to commands on the bus; a key event is appended to the
    /// history, and if the active mode's keymap resolves the entire new
    /// history to a command, that command is enqueued; an unmatched lookup
    /// and every other event enqueue nothing. Fails only if the bus is
    /// closed, which is fatal.
    pub fn handle_event(&mut self, e: &Event, bus: &mut CommandBus) -> (r: Result<
        (),
        ChannelClosed,
    >)
        ensures
            final(self).config == old(self).config,
            final(self).mode == old(self).mode,
            final(self).components == old(self).components,
            final(self).should_quit == old(self).should_quit,
            final(self).should_suspend == old(self).should_suspend,
            final(self).last_tick_key_events@ == history_after(
                old(self).last_tick_key_events@,
                *e,
            ),
            r is Ok ==> final(bus)@ == old(bus)@ + event_commands(
                old(self).config,
                old(self).mode,
                old(self).last_tick_key_events@,
                *e,
            ),
            r is Err ==> final(bus)@ == old(bus)@,
    {
        let ghost pre_bus = bus@;
        let ghost cmds = event_commands(
            self.config,
            self.mode,
            self.last_tick_key_events@,
            *e,
        );
        match e {
            Event::Quit => {
                let r = bus.send(Command::Quit);
                proof {
                    if r is Ok {
                        assert(bus@ =~= pre_bus + cmds);
                    }
                }
                r
            },
            Event::Tick => {
                let r = bus.send(Command::Tick);
                proof {
                    if r is Ok {
                        assert(bus@ =~= pre_bus + cmds);
                    }
                }
                r
            },
            Event::Render => {
                let r = bus.send(Command::Render);
                proof {
                    if r is Ok {
                        assert(bus@ =~= pre_bus + cmds);
                    }
                }
                r
            },
            Event::Resize(w, h) => {
                let r = bus.send(Command::Resize(*w, *h));
                proof {
                    if r is Ok {
                        assert(bus@ =~= pre_bus + cmds);
                    }
                }
                r
            },
            Event::Key(k) => {
                self.last_tick_key_events.push(*k);
                match self.config.lookup(self.mode, &self.last_tick_key_events) {
                    Some(c) => {
                        let cmd = c.clone();
                        let r = bus.send(cmd);
                        proof {
                            if r is Ok {
                                assert(bus@ =~= pre_bus + cmds);
                            }
                        }
                        r
                    },
                    None => {
                        proof {
                            assert(bus@ =~= pre_bus + cmds);
                        }
                        Ok(())
                    },
                }
            },
            _ => {
                proof {
                    assert(bus@ =~= pre_bus + cmds);
                }
                Ok(())
            },
        }
    }

    /// Forwards one raw event to every component in registration order and
    /// enqueues each returned command. What was queued stays queued, in
    /// order. A component failure or a closed bus is fatal: the components
    /// after the failure are not called, and the registration order is kept.
    #[verifier::loop_isolation(false)]
    pub fn forward_event(&mut self, e: &Event, bus: &mut CommandBus) -> (r: Result<(), RunError>)
        ensures
            final(self).config == old(self).config,
            final(self).mode == old(self).mode,
            final(self).should_quit == old(self).should_quit,
            final(self).should_suspend == old(self).should_suspend,
            final(self).last_tick_key_events@ == old(self).last_tick_key_events@,
            final(self).components@.len() == old(self).components@.len(),
            old(bus)@.is_prefix_of(final(bus)@),
            old(self).components@.len() == 0 ==> r is Ok && final(bus)@ == old(bus)@,
    {
        let ghost pre = *self;
        let ghost pre_bus = bus@;
        proof {
            assert(pre_bus =~= bus@.subrange(0, pre_bus.len() as int));
        }
        let n = self.components.len();
        let mut failure: Option<RunError> = None;
        for i in 0..n
            invariant
                self.components@.len() == n,
                self.config == pre.config,
                self.mode == pre.mode,
                self.should_quit == pre.should_quit,
                self.should_suspend == pre.should_suspend,
                self.last_tick_key_events@ == pre.last_tick_key_events@,
                pre_bus.is_prefix_of(bus@),
                i == 0 ==> failure is None && bus@ == pre_bus,
        {
            let mut comp = self.components.remove(0);
            if failure.is_none() {
                match comp.handle_events(e) {
                    Ok(Some(cmd)) => {
                        let ghost mid_bus = bus@;
                        match bus.send(cmd) {
                            Ok(()) => {
                                proof {
                                    lemma_prefix_push(pre_bus, mid_bus, cmd@);
                                }
                            },
                            Err(_) => {
                                failure = Some(RunError::ChannelClosed);
                            },
                        }
                    },
                    Ok(None) => {},
                    Err(msg) => {
                        failure = Some(RunError::Component(msg));
                    },
                }
            }
            self.components.push(comp);
        }
        match failure {
            Some(e) => Err(e),
            None => Ok(()),
        }
    }

    /// Applies a drained command's built-in effect to the dispatcher state
    /// and reports whether the command asks for a render pass.
    pub fn apply_command(&mut self, command: &Command) -> (render: bool)
        ensures
            final(self).config == old(self).config,
            final(self).mode == old(self).mode,
            final(self).components == old(self).components,
            final(self).dispatch_state() == builtin_effects(old(self).dispatch_state(), command@),
            render == (command@ == CommandV::Render),
    {
        let ghost pre = *self;
        let mut render = false;
        match command {
            Command::Tick => {
                self.last_tick_key_events.clear();
            },
            Command::Quit => {
                self.should_quit = true;
            },
            Command::Suspend => {
                self.should_suspend = true;
            },
            Command::Resume => {
                self.should_suspend = false;
            },
            Command::Render => {
                render = true;
            },
            _ => {},
        }
        proof {
            assert(self.dispatch_state() =~= builtin_effects(pre.dispatch_state(), command@));
        }
        render
    }

    /// The views of a render pass's collected draw failure messages, as the
    /// `Error` commands the pass enqueues for them.
    pub open spec fn error_commands_of(msgs: Seq<String>) -> Seq<CommandV> {
        msgs.map_values(|m: String| CommandV::Error(m@))
    }

    /// One full-frame draw pass: every component's `draw` is called in
    /// registration order, whatever the earlier ones returned; each failure
    /// is converted into exactly one `Command::Error` on the bus, in order,
    /// carrying the component's message, and the collected messages come
    /// back to the caller. A draw failure is recoverable; only a closed bus
    /// makes the pass fail, and the components after that are not drawn.
    #[verifier::loop_isolation(false)]
    pub fn render_pass(&mut self, area: Rect, bus: &mut CommandBus) -> (r: Result<
        Vec<String>,
        ChannelClosed,
    >)
        ensures
            final(self).config == old(self).config,
            final(self).mode == old(self).mode,
            final(self).should_quit == old(self).should_quit,
            final(self).should_suspend == old(self).should_suspend,
            final(self).last_tick_key_events@ == old(self).last_tick_key_events@,
            final(self).components@.len() == old(self).components@.len(),
            only_draw_errors(old(bus)@, final(bus)@),
            r matches Ok(errs) ==> final(bus)@ == old(bus)@ + Self::error_commands_of(errs@),
            old(self).components@.len() == 0 ==> r is Ok && final(bus)@ == old(bus)@,
    {
        let ghost pre = *self;
        let ghost pre_bus = bus@;
        let mut errs: Vec<String> = Vec::new();
        proof {
            assert(pre_bus =~= bus@.subrange(0, pre_bus.len() as int));
            assert(Self::error_commands_of(errs@) =~= Seq::<CommandV>::empty());
            assert(bus@ =~= pre_bus + Self::error_commands_of(errs@));
        }
        let n = self.components.len();
        let mut failure = false;
        for i in 0..n
            invariant
                self.components@.len() == n,
                self.config == pre.config,
                self.mode == pre.mode,
                self.should_quit == pre.should_quit,
                self.should_suspend == pre.should_suspend,
                self.last_tick_key_events@ == pre.last_tick_key_events@,
                only_draw_errors(pre_bus, bus@),
                !failure ==> bus@ == pre_bus + Self::error_commands_of(errs@),
                i == 0 ==> !failure && bus@ == pre_bus,
        {
            let mut comp = self.components.remove(0);
            if !failure {
                match comp.draw(area) {
                    Ok(()) => {},
                    Err(msg) => {
                        let ghost mid_bus = bus@;
                        let ghost mid_errs = errs@;
                        let report = msg.clone();
                        match bus.send(Command::Error(report)) {
                            Ok(()) => {
                                errs.push(msg);
                                proof {
                                    lemma_prefix_push(pre_bus, mid_bus, CommandV::Error(msg@));
                                    assert(Self::error_commands_of(errs@) =~= Self::error_commands_of(
                                        mid_errs,
                                    ).push(CommandV::Error(msg@)));
                                    assert(bus@ =~= pre_bus + Self::error_commands_of(errs@));
                                }
                            },
                            Err(_) => {
                                failure = true;
                            },
                        }
                    },
                }
            }
            self.components.push(comp);
        }
        if failure {
            Err(ChannelClosed)
        } else {
            Ok(errs)
        }
    }

    /// Forwards one drained command to every component's `update` in
    /// registration order and enqueues each returned follow-up command.
    /// What was queued stays queued, in order. A component failure or a
    /// closed bus is fatal: the components after the failure are not called,
    /// and the registration order is kept.
    #[verifier::loop_isolation(false)]
    pub fn forward_command(&mut self, command: &Command, bus: &mut CommandBus) -> (r: Result<
        (),
        RunError,
    >)
        ensures
            final(self).config == old(self).config,
            final(self).mode == old(self).mode,
            final(self).should_quit == old(self).should_quit,
            final(self).should_suspend == old(self).should_suspend,
            final(self).last_tick_key_events@ == old(self).last_tick_key_events@,
            final(self).components@.len() == old(self).components@.len(),
            old(bus)@.is_prefix_of(final(bus)@),
            old(self).components@.len() == 0 ==> r is Ok && final(bus)@ == old(bus)@,
    {
        let ghost pre = *self;
        let ghost pre_bus = bus@;
        proof {
            assert(pre_bus =~= bus@.subrange(0, pre_bus.len() as int));
        }
        let n = self.components.len();
        let mut failure: Option<RunError> = None;
        for i in 0..n
            invariant
                self.components@.len() == n,
                self.config == pre.config,
                self.mode == pre.mode,
                self.should_quit == pre.should_quit,
                self.should_suspend == pre.should_suspend,
                self.last_tick_key_events@ == pre.last_tick_key_events@,
                pre_bus.is_prefix_of(bus@),
                i == 0 ==> failure is None && bus@ == pre_bus,
        {
            let mut comp = self.components.remove(0);
            if failure.is_none() {
                match comp.update(command) {
                    Ok(Some(cmd)) => {
                        let ghost mid_bus = bus@;
                        match bus.send(cmd) {
                            Ok(()) => {
                                proof {
                                    lemma_prefix_push(pre_bus, mid_bus, cmd@);
                                }
                            },
                            Err(_) => {
                                failure = Some(RunError::ChannelClosed);
                            },
                        }
                    },
                    Ok(None) => {},
                    Err(msg) => {
                        failure = Some(RunError::Component(msg));
                    },
                }
            }
            self.components.push(comp);
        }
        match failure {
            Some(e) => Err(e),
            None => Ok(()),
        }
    }

    /// Drains the command bus, in send order, until it is empty or
    /// `MAX_DRAIN_COMMANDS` commands have been processed. Each drained
    /// command has its built-in effect applied, triggers one render pass if
    /// it is `Render`, and is then forwarded to every component's `update`;
    /// follow-up commands join the same queue and are drained in the same
    /// call. Returns the drained commands in order: the commands that were
    /// queued on entry are consumed first, and the dispatcher state
    /// afterwards is exactly their built-in effects folded over the state on
    /// entry.
    #[verifier::loop_isolation(false)]
    pub fn drain(&mut self, area: Rect, bus: &mut CommandBus) -> (r: Result<Vec<Command>, RunError>)
        ensures
            final(self).config == old(self).config,
            final(self).mode == old(self).mode,
            final(self).components@.len() == old(self).components@.len(),
            r matches Ok(list) ==> {
                &&& list@.len() <= MAX_DRAIN_COMMANDS
                &&& (list@.len() < MAX_DRAIN_COMMANDS ==> final(bus)@ == Seq::<
                    CommandV,
                >::empty())
                &&& final(self).dispatch_state() == builtin_effects_all(
                    old(self).dispatch_state(),
                    views_of(list@),
                )
                &&& old(bus)@.is_prefix_of(views_of(list@) + final(bus)@)
                &&& (old(bus)@.len() == 0 ==> list@.len() == 0)
            },
            old(bus)@.len() == 0 ==> r is Ok && final(bus)@ == old(bus)@,
    {
        let ghost pre = *self;
        let ghost pre_bus = bus@;
        let mut processed: Vec<Command> = Vec::new();
        proof {
            assert(views_of(processed@) =~= Seq::<CommandV>::empty());
            assert(views_of(processed@) + bus@ =~= bus@);
            assert(pre_bus =~= bus@.subrange(0, pre_bus.len() as int));
        }
        let mut settled = false;
        while !settled && processed.len() < MAX_DRAIN_COMMANDS
            invariant
                processed@.len() <= MAX_DRAIN_COMMANDS,
                self.config == pre.config,
                self.mode == pre.mode,
                self.components@.len() == pre.components@.len(),
                self.dispatch_state() == builtin_effects_all(
                    pre.dispatch_state(),
                    views_of(processed@),
                ),
                pre_bus.is_prefix_of(views_of(processed@) + bus@),
                settled ==> bus@ == Seq::<CommandV>::empty(),
                pre_bus.len() == 0 ==> processed@.len() == 0 && bus@ == pre_bus,
            decreases MAX_DRAIN_COMMANDS - processed@.len(), (if settled { 0int } else { 1int }),
        {
            let ghost bus_before = bus@;
            let next = bus.try_recv();
            match next {
                None => {
                    proof {
                        assert(bus@ =~= Seq::<CommandV>::empty());
                    }
                    settled = true;
                },
                Some(c) => {
                    let ghost bus_popped = bus@;
                    let ghost vp = views_of(processed@);
                    let ghost vp2 = views_of(processed@.push(c));
                    let render = self.apply_command(&c);
                    if render {
                        match self.render_pass(area, bus) {
                            Ok(_) => {},
                            Err(_) => {
                                return Err(RunError::ChannelClosed);
                            },
                        }
                    }
                    let ghost bus_mid = bus@;
                    match self.forward_command(&c, bus) {
                        Ok(()) => {},
                        Err(e) => {
                            return Err(e);
                        },
                    }
                    proof {
                        lemma_effects_snoc(pre.dispatch_state(), vp, c@);
                        assert(vp2 =~= vp.push(c@));
                        // The drained command moved from the queue's front to
                        // the end of the processed list, and the two passes
                        // only appended, so the queue on entry stays a prefix.
                        assert(vp + bus_before =~= vp2 + bus_popped);
                        assert(pre_bus.is_prefix_of(vp2 + bus_popped));
                        assert(bus_popped.is_prefix_of(bus_mid)) by {
                            if !render {
                                assert(bus_popped =~= bus_mid.subrange(
                                    0,
                                    bus_popped.len() as int,
                                ));
                            }
                        }
                        lemma_prefix_under_append(vp2, bus_popped, bus_mid);
                        lemma_prefix_trans(pre_bus, vp2 + bus_popped, vp2 + bus_mid);
                        lemma_prefix_under_append(vp2, bus_mid, bus@);
                        lemma_prefix_trans(pre_bus, vp2 + bus_mid, vp2 + bus@);
                    }
                    processed.push(c);
                },
            }
        }
        Ok(processed)
    }

    /// The tail of a suspend transition, after the terminal backend has been
    /// torn down and re-acquired: a `Resume` is enqueued for the components
    /// to see, and the suspend flag comes down before the next event is
    /// awaited. Fails only if the bus is closed.
    pub fn complete_suspend(&mut self, bus: &mut CommandBus) -> (r: Result<(), ChannelClosed>)
        ensures
            final(self).config == old(self).config,
            final(self).mode == old(self).mode,
            final(self).components == old(self).components,
            final(self).should_quit == old(self).should_quit,
            final(self).last_tick_key_events@ == old(self).last_tick_key_events@,
            r is Ok ==> !final(self).should_suspend && final(bus)@ == old(bus)@.push(
                CommandV::Resume,
            ),
            r is Err ==> final(self).should_suspend == old(self).should_suspend && final(bus)@
                == old(bus)@,
    {
        match bus.send(Command::Resume) {
            Ok(()) => {
                self.should_suspend = false;
                Ok(())
            },
            Err(e) => Err(e),
        }
    }

    /// Runs the loop over a finite script of events, as the live loop runs
    /// over the backend's event stream. Per event: classify it, forward it
    /// to every component, drain the bus; then, if the suspend flag is up,
    /// complete the suspend transition and keep going, and otherwise, if the
    /// quit flag is up, stop. Setup runs first and its failure aborts the
    /// run. The report's trace records every observed event, every drained
    /// command and every completed suspend, in order: the dispatcher state
    /// at the end is exactly the trace replayed over the state at the start,
    /// and the observed events are the script up to where the run stopped.
    #[verifier::loop_isolation(false)]
    #[verifier::rlimit(100)]
    pub fn run(&mut self, events: &Vec<Event>, area: Rect, bus: &mut CommandBus) -> (r: Result<
        RunReport,
        RunError,
    >)
        ensures
            final(self).config == old(self).config,
            final(self).mode == old(self).mode,
            final(self).components@.len() == old(self).components@.len(),
            r matches Ok(report) ==> {
                &&& final(self).dispatch_state() == replay(
                    old(self).dispatch_state(),
                    report.trace@,
                )
                &&& observed_of(report.trace@).is_prefix_of(events@)
                &&& (report.outcome == RunOutcome::EventsExhausted ==> observed_of(report.trace@)
                    == events@)
                &&& (report.outcome == RunOutcome::Quit ==> final(self).should_quit
                    && !final(self).should_suspend)
                &&& (events@.len() > 0 ==> !final(self).should_suspend)
                &&& (events@.len() == 0 ==> report.outcome == RunOutcome::EventsExhausted
                    && report.trace@.len() == 0 && final(bus)@ == old(bus)@
                    && final(self).dispatch_state() == old(self).dispatch_state())
            },
    {
        let ghost pre = *self;
        let ghost pre_bus = bus@;
        match self.init_components() {
            Ok(()) => {},
            Err(e) => {
                return Err(e);
            },
        }
        let mut trace: Vec<TraceStep> = Vec::new();
        proof {
            assert(observed_of(trace@) =~= Seq::<Event>::empty());
            assert(replay(pre.dispatch_state(), trace@) == pre.dispatch_state());
            assert(self.dispatch_state() =~= pre.dispatch_state());
            assert(observed_of(trace@) =~= events@.take(0));
        }
        let n = events.len();
        for i in 0..n
            invariant
                self.config == pre.config,
                self.mode == pre.mode,
                self.components@.len() == pre.components@.len(),
                self.dispatch_state() == replay(pre.dispatch_state(), trace@),
                observed_of(trace@) == events@.take(i as int),
                0 < i ==> !self.should_suspend,
                n == 0 ==> bus@ == pre_bus && trace@.len() == 0,
        {
            let e = &events[i];
            match self.handle_event(e, bus) {
                Ok(()) => {},
                Err(_) => {
                    return Err(RunError::ChannelClosed);
                },
            }
            proof {
                lemma_replay_snoc(pre.dispatch_state(), trace@, TraceStep::Observed(*e));
                lemma_observed_snoc(trace@, TraceStep::Observed(*e));
                assert(events@.take(i as int).push(events@[i as int]) =~= events@.take(
                    i as int + 1,
                ));
                assert(self.dispatch_state() =~= replay_one(
                    replay(pre.dispatch_state(), trace@),
                    TraceStep::Observed(*e),
                ));
            }
            trace.push(TraceStep::Observed(*e));
            match self.forward_event(e, bus) {
                Ok(()) => {},
                Err(err) => {
                    return Err(err);
                },
            }
            let ghost st_mid = self.dispatch_state();
            let drained = match self.drain(area, bus) {
                Ok(list) => list,
                Err(err) => {
                    return Err(err);
                },
            };
            let m = drained.len();
            proof {
                assert(views_of(drained@.take(0)) =~= Seq::<CommandV>::empty());
                assert(builtin_effects_all(st_mid, views_of(drained@.take(0))) == st_mid);
            }
            for j in 0..m
                invariant
                    m == drained@.len(),
                    observed_of(trace@) == events@.take(i as int + 1),
                    replay(pre.dispatch_state(), trace@) == builtin_effects_all(
                        st_mid,
                        views_of(drained@.take(j as int)),
                    ),
            {
                let step_cmd = drained[j].clone();
                proof {
                    lemma_replay_snoc(pre.dispatch_state(), trace@, TraceStep::Drained(step_cmd));
                    lemma_observed_snoc(trace@, TraceStep::Drained(step_cmd));
                    lemma_effects_snoc(
                        st_mid,
                        views_of(drained@.take(j as int)),
                        drained@[j as int]@,
                    );
                    assert(views_of(drained@.take(j as int)).push(drained@[j as int]@)
                        =~= views_of(drained@.take(j as int + 1)));
                }
                trace.push(TraceStep::Drained(step_cmd));
            }
            proof {
                assert(drained@.take(m as int) =~= drained@);
            }
            if self.should_suspend {
                match self.complete_suspend(bus) {
                    Ok(()) => {},
                    Err(_) => {
                        return Err(RunError::ChannelClosed);
                    },
                }
                proof {
                    lemma_replay_snoc(pre.dispatch_state(), trace@, TraceStep::Resumed);
                    lemma_observed_snoc(trace@, TraceStep::Resumed);
                    assert(self.dispatch_state() =~= replay_one(
                        replay(pre.dispatch_state(), trace@),
                        TraceStep::Resumed,
                    ));
                }
                trace.push(TraceStep::Resumed);
            } else if self.should_quit {
                proof {
                    assert(observed_of(trace@).is_prefix_of(events@)) by {
                        assert(observed_of(trace@) =~= events@.subrange(0, i as int + 1));
                    }
                }
                return Ok(RunReport { outcome: RunOutcome::Quit, trace });
            }
        }
        proof {
            assert(events@.take(n as int) =~= events@);
            assert(observed_of(trace@).is_prefix_of(events@)) by {
                assert(observed_of(trace@) =~= events@.subrange(0, n as int));
            }
            if n == 0 {
                assert(replay(pre.dispatch_state(), trace@) == pre.dispatch_state());
                assert(self.dispatch_state() =~= pre.dispatch_state());
            }
        }
        Ok(RunReport { outcome: RunOutcome::EventsExhausted, trace })
    }
}

} // verus!

