use runloop_core::{
    App, Command, CommandBus, Component, Config, Event, KeyBinding, KeyEvent, Mode, Rect,
    RunError, RunOutcome, TraceStep,
};

fn key(c: char) -> KeyEvent {
    KeyEvent { code: c as u32, modifiers: 0 }
}

fn area() -> Rect {
    Rect { x: 0, y: 0, width: 80, height: 24 }
}

fn binding(mode: Mode, keys: Vec<KeyEvent>, command: Command) -> KeyBinding {
    KeyBinding { mode, keys, command }
}

/// A test component that records everything the dispatcher hands it.
struct Probe {
    seen_events: Vec<Event>,
    seen_updates: Vec<Command>,
    draws: usize,
    inits: usize,
    fail_init: bool,
    fail_draw: Option<String>,
    event_response: Option<Command>,
    /// When `update` sees the first command, answer the second, once.
    trigger: Option<(Command, Command)>,
    responded: bool,
}

impl Probe {
    fn new() -> Probe {
        Probe {
            seen_events: Vec::new(),
            seen_updates: Vec::new(),
            draws: 0,
            inits: 0,
            fail_init: false,
            fail_draw: None,
            event_response: None,
            trigger: None,
            responded: false,
        }
    }
}

impl Component for Probe {
    fn init(&mut self) -> Result<(), String> {
        self.inits += 1;
        if self.fail_init {
            Err("init failed".to_string())
        } else {
            Ok(())
        }
    }

    fn handle_events(&mut self, event: &Event) -> Result<Option<Command>, String> {
        self.seen_events.push(*event);
        Ok(self.event_response.take())
    }

    fn update(&mut self, command: &Command) -> Result<Option<Command>, String> {
        self.seen_updates.push(command.clone());
        if let Some((trig, resp)) = &self.trigger {
            if !self.responded && command == trig {
                self.responded = true;
                return Ok(Some(resp.clone()));
            }
        }
        Ok(None)
    }

    fn draw(&mut self, _area: Rect) -> Result<(), String> {
        self.draws += 1;
        match &self.fail_draw {
            Some(m) => Err(m.clone()),
            None => Ok(()),
        }
    }
}

#[test]
fn unmatched_keys_enqueue_nothing() {
    let config = Config {
        keybindings: vec![binding(Mode::TaskReport, vec![key('q')], Command::Quit)],
    };
    let mut app: App<Probe> = App::new(config, Vec::new());
    let mut bus = CommandBus::new();
    for c in ['x', 'y', 'z'] {
        app.handle_event(&Event::Key(key(c)), &mut bus).unwrap();
    }
    assert!(bus.try_recv().is_none());
    assert_eq!(app.last_tick_key_events.len(), 3);
}

#[test]
fn matched_key_enqueues_its_command() {
    let config = Config {
        keybindings: vec![binding(Mode::TaskReport, vec![key('q')], Command::Quit)],
    };
    let mut app: App<Probe> = App::new(config, Vec::new());
    let mut bus = CommandBus::new();
    app.handle_event(&Event::Key(key('q')), &mut bus).unwrap();
    assert_eq!(bus.try_recv(), Some(Command::Quit));
    assert!(bus.try_recv().is_none());
}

#[test]
fn chord_matches_only_the_whole_history() {
    let config = Config {
        keybindings: vec![binding(Mode::TaskReport, vec![key('g'), key('g')], Command::Quit)],
    };
    let mut app: App<Probe> = App::new(config, Vec::new());
    let mut bus = CommandBus::new();
    app.handle_event(&Event::Key(key('g')), &mut bus).unwrap();
    assert!(bus.try_recv().is_none());
    app.handle_event(&Event::Key(key('g')), &mut bus).unwrap();
    assert_eq!(bus.try_recv(), Some(Command::Quit));
}

#[test]
fn lookup_honours_the_active_mode() {
    let config = Config {
        keybindings: vec![binding(Mode::Calendar, vec![key('q')], Command::Quit)],
    };
    let mut app: App<Probe> = App::new(config, Vec::new());
    assert_eq!(app.mode, Mode::TaskReport);
    let mut bus = CommandBus::new();
    app.handle_event(&Event::Key(key('q')), &mut bus).unwrap();
    assert!(bus.try_recv().is_none());
    app.mode = Mode::Calendar;
    app.last_tick_key_events.clear();
    app.handle_event(&Event::Key(key('q')), &mut bus).unwrap();
    assert_eq!(bus.try_recv(), Some(Command::Quit));
}

#[test]
fn tick_clears_history_and_nothing_else_does() {
    let mut app: App<Probe> = App::new(Config::new(), Vec::new());
    let mut bus = CommandBus::new();
    app.handle_event(&Event::Key(key('a')), &mut bus).unwrap();
    app.handle_event(&Event::Key(key('b')), &mut bus).unwrap();
    assert_eq!(app.last_tick_key_events.len(), 2);
    let render = app.apply_command(&Command::Resize(1, 1));
    assert!(!render);
    assert_eq!(app.last_tick_key_events.len(), 2);
    let render = app.apply_command(&Command::Tick);
    assert!(!render);
    assert_eq!(app.last_tick_key_events.len(), 0);
}

#[test]
fn resume_is_idempotent() {
    let mut app: App<Probe> = App::new(Config::new(), Vec::new());
    assert!(!app.should_suspend);
    app.apply_command(&Command::Resume);
    assert!(!app.should_suspend);
    app.apply_command(&Command::Suspend);
    assert!(app.should_suspend);
    app.apply_command(&Command::Resume);
    assert!(!app.should_suspend);
    app.apply_command(&Command::Resume);
    assert!(!app.should_suspend);
}

#[test]
fn follow_ups_are_ordered_and_seen_by_all() {
    // Three components each answer the same trigger with a distinct command;
    // the three answers join the bus in component order, and each is then
    // delivered to every component before the bus empties.
    let trigger = Command::Resize(9, 9);
    let answers = [Command::Resize(1, 0), Command::Resize(2, 0), Command::Resize(3, 0)];
    let mut components = Vec::new();
    for a in &answers {
        let mut p = Probe::new();
        p.trigger = Some((trigger.clone(), a.clone()));
        components.push(p);
    }
    let mut app = App::new(Config::new(), components);
    let mut bus = CommandBus::new();
    bus.send(trigger.clone()).unwrap();
    let drained = app.drain(area(), &mut bus).unwrap();
    assert_eq!(
        drained,
        vec![
            trigger.clone(),
            answers[0].clone(),
            answers[1].clone(),
            answers[2].clone(),
        ]
    );
    for p in &app.components {
        assert_eq!(
            p.seen_updates,
            vec![
                trigger.clone(),
                answers[0].clone(),
                answers[1].clone(),
                answers[2].clone(),
            ]
        );
    }
    assert!(bus.try_recv().is_none());
}

#[test]
fn resize_event_reaches_every_component() {
    let components = vec![Probe::new(), Probe::new()];
    let mut app = App::new(Config::new(), components);
    let mut bus = CommandBus::new();
    let events = vec![Event::Resize(80, 24)];
    let report = app.run(&events, area(), &mut bus).unwrap();
    assert_eq!(report.outcome, RunOutcome::EventsExhausted);
    // The trace shows the event observed and its command drained in the same
    // iteration.
    assert_eq!(report.trace.len(), 2);
    assert!(matches!(report.trace[0], TraceStep::Observed(Event::Resize(80, 24))));
    assert!(matches!(report.trace[1], TraceStep::Drained(Command::Resize(80, 24))));
    for p in &app.components {
        assert_eq!(p.inits, 1);
        assert_eq!(p.seen_events, vec![Event::Resize(80, 24)]);
        assert_eq!(p.seen_updates, vec![Command::Resize(80, 24)]);
    }
}

#[test]
fn quit_key_exits_without_another_render() {
    let config = Config {
        keybindings: vec![binding(Mode::TaskReport, vec![key('q')], Command::Quit)],
    };
    let mut app = App::new(config, vec![Probe::new()]);
    let mut bus = CommandBus::new();
    let events = vec![Event::Key(key('q')), Event::Render];
    let report = app.run(&events, area(), &mut bus).unwrap();
    assert_eq!(report.outcome, RunOutcome::Quit);
    // Only the quit key was observed: the render event was never awaited.
    assert!(matches!(report.trace[0], TraceStep::Observed(Event::Key(_))));
    assert!(matches!(report.trace[1], TraceStep::Drained(Command::Quit)));
    assert_eq!(report.trace.len(), 2);
    assert!(app.should_quit);
    // The loop stopped before the render event: no draw pass ever ran.
    assert_eq!(app.components[0].draws, 0);
    assert_eq!(app.components[0].seen_events, vec![Event::Key(key('q'))]);
}

#[test]
fn draw_failure_becomes_one_error_command() {
    let mut failing = Probe::new();
    failing.fail_draw = Some("boom".to_string());
    let components = vec![Probe::new(), failing, Probe::new()];
    let mut app = App::new(Config::new(), components);
    let mut bus = CommandBus::new();
    bus.send(Command::Render).unwrap();
    let drained = app.drain(area(), &mut bus).unwrap();
    assert_eq!(drained, vec![Command::Render, Command::Error("boom".to_string())]);
    // Every component was still drawn, the failing one included.
    for p in &app.components {
        assert_eq!(p.draws, 1);
        assert_eq!(
            p.seen_updates,
            vec![Command::Render, Command::Error("boom".to_string())]
        );
    }
    assert!(bus.try_recv().is_none());
}

#[test]
fn suspend_clears_before_the_next_event() {
    let config = Config {
        keybindings: vec![binding(Mode::TaskReport, vec![key('s')], Command::Suspend)],
    };
    let mut app = App::new(config, vec![Probe::new()]);
    let mut bus = CommandBus::new();
    let events = vec![Event::Key(key('s'))];
    let report = app.run(&events, area(), &mut bus).unwrap();
    assert_eq!(report.outcome, RunOutcome::EventsExhausted);
    assert!(!app.should_suspend);
    assert!(matches!(report.trace.last(), Some(TraceStep::Resumed)));
    // The resume notice waits on the bus for the next iteration's drain.
    assert_eq!(bus.try_recv(), Some(Command::Resume));
    assert!(bus.try_recv().is_none());
}

#[test]
fn suspend_transition_step_by_step() {
    let mut app: App<Probe> = App::new(Config::new(), Vec::new());
    let mut bus = CommandBus::new();
    bus.send(Command::Suspend).unwrap();
    app.drain(area(), &mut bus).unwrap();
    assert!(app.should_suspend);
    app.complete_suspend(&mut bus).unwrap();
    assert!(!app.should_suspend);
    assert_eq!(bus.try_recv(), Some(Command::Resume));
}

#[test]
fn init_failure_aborts_the_run() {
    let mut bad = Probe::new();
    bad.fail_init = true;
    let mut app = App::new(Config::new(), vec![Probe::new(), bad]);
    let mut bus = CommandBus::new();
    let events = vec![Event::Tick];
    let r = app.run(&events, area(), &mut bus);
    assert!(matches!(r, Err(RunError::Component(ref m)) if m == "init failed"));
    // The loop never started: no component saw the event.
    for p in &app.components {
        assert!(p.seen_events.is_empty());
    }
}

#[test]
fn component_event_response_is_enqueued() {
    let mut p = Probe::new();
    p.event_response = Some(Command::Suspend);
    let mut app = App::new(Config::new(), vec![p]);
    let mut bus = CommandBus::new();
    app.forward_event(&Event::FocusGained, &mut bus).unwrap();
    assert_eq!(bus.try_recv(), Some(Command::Suspend));
    assert!(bus.try_recv().is_none());
    assert_eq!(app.components[0].seen_events, vec![Event::FocusGained]);
}

#[test]
fn quit_event_maps_to_quit_command() {
    let mut app: App<Probe> = App::new(Config::new(), Vec::new());
    let mut bus = CommandBus::new();
    app.handle_event(&Event::Quit, &mut bus).unwrap();
    app.handle_event(&Event::Tick, &mut bus).unwrap();
    app.handle_event(&Event::Render, &mut bus).unwrap();
    app.handle_event(&Event::Init, &mut bus).unwrap();
    assert_eq!(bus.try_recv(), Some(Command::Quit));
    assert_eq!(bus.try_recv(), Some(Command::Tick));
    assert_eq!(bus.try_recv(), Some(Command::Render));
    assert!(bus.try_recv().is_none());
}

/// A component whose `update` always fails.
struct BrokenUpdate;

impl Component for BrokenUpdate {
    fn update(&mut self, _command: &Command) -> Result<Option<Command>, String> {
        Err("update failed".to_string())
    }

    fn draw(&mut self, _area: Rect) -> Result<(), String> {
        Ok(())
    }
}

#[test]
fn update_failure_is_fatal() {
    let mut app = App::new(Config::new(), vec![BrokenUpdate]);
    let mut bus = CommandBus::new();
    bus.send(Command::Tick).unwrap();
    let r = app.drain(area(), &mut bus);
    assert!(matches!(r, Err(RunError::Component(ref m)) if m == "update failed"));
}

/// A component whose `handle_events` always fails.
struct BrokenEvents;

impl Component for BrokenEvents {
    fn handle_events(&mut self, _event: &Event) -> Result<Option<Command>, String> {
        Err("events failed".to_string())
    }

    fn draw(&mut self, _area: Rect) -> Result<(), String> {
        Ok(())
    }
}

#[test]
fn event_failure_is_fatal() {
    let mut app = App::new(Config::new(), vec![BrokenEvents]);
    let mut bus = CommandBus::new();
    let r = app.forward_event(&Event::Tick, &mut bus);
    assert!(matches!(r, Err(RunError::Component(ref m)) if m == "events failed"));
    assert!(bus.try_recv().is_none());
}
