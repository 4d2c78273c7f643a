//! Input-state handling shared by the interactive renderer.

pub mod event_manager;
pub mod keyboard;

pub use self::event_manager::EventManager;
pub use self::keyboard::Keyboard;
