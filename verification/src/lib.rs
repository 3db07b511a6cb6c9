//! Spotlight-style overlay window controller.
//!
//! One or more designated application windows are toggled system-wide by
//! global keyboard shortcuts, appear as borderless floating panels above
//! normal window layers, auto-hide when they lose focus, and on hide restore
//! keyboard focus to whichever application was frontmost before the overlay
//! was invoked.
//!
//! The crate holds the window-visibility orchestration engine: the show /
//! hide / toggle state machine per window, the global-shortcut registry that
//! avoids duplicate registration, the previous-foreground-application
//! tracker used to restore focus, and the floating-panel abstraction with
//! its positioning rule. Native window-system calls themselves (panel class
//! conversion, hotkey binding, application activation) are performed by the
//! host around this crate; the host feeds their observations (cursor
//! position, display frames, frontmost application, focus changes) into the
//! orchestrator and carries out the actions it decides.

pub mod config;
pub mod error;
pub mod geometry;
pub mod panel;
pub mod registry;
pub mod spotlight;
pub mod tracker;

pub use config::{PluginConfig, WindowConfig};
pub use error::Error;
