//! Core of a terminal application's run loop: raw input events are turned
//! into a typed command stream, the stream is routed to an ordered set of
//! pluggable UI components, and the dispatcher manages the top-level
//! lifecycle (run, suspend, resume, quit).

pub mod app;
pub mod bus;
pub mod command;
pub mod component;
pub mod error;
pub mod event;
pub mod keymap;

pub use app::App;
pub use app::Mode;
pub use app::RunOutcome;
pub use app::RunReport;
pub use app::TraceStep;
pub use bus::CommandBus;
pub use command::Command;
pub use command::CommandV;
pub use component::Component;
pub use component::Rect;
pub use error::ChannelClosed;
pub use error::RunError;
pub use event::Event;
pub use event::KeyEvent;
pub use keymap::Config;
pub use keymap::KeyBinding;
