//! game-gem: the verified core of a 2D game library.
//!
//! The modules here hold the parts of the engine that are plain data and
//! decisions: CPU-side images and the asset cache, keyboard and mouse state
//! with remappable actions, hex color parsing, sprite-animation playback
//! stepping, tween cycle bookkeeping, the spatial-hash pair queries, the
//! scene stack, UI widget state and text editing, audio voices, particle
//! emission counts and the frame-time sample window.

pub mod animation;
pub mod assets;
pub mod audio;
pub mod collision;
pub mod color;
pub mod engine;
pub mod input;
pub mod particles;
pub mod scene;
pub mod text;
pub mod time;
pub mod tween;
pub mod ui;
