//! A minimal pixel-framebuffer runtime core: an owned ARGB pixel surface,
//! a bitmap-font glyph rasterizer, a key/event bridge, a rolling FPS
//! estimator, and the fixed-timestep frame clock that decouples simulation
//! updates from rendering. Window creation, presentation and raw event
//! polling belong to an external windowing collaborator and live outside
//! this crate.

pub mod fps;
pub mod input;
pub mod runtime;
pub mod sched;
pub mod surface;
pub mod text_renderer;

pub use fps::FpsCounter;
pub use runtime::{Framebuffer, PauseAction};
pub use input::{Event, Key, KeyState, RawEvent};
pub use sched::FrameClock;
pub use surface::DrawHandle;
pub use text_renderer::TextRenderer;
