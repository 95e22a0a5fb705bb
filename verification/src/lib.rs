//! Asset-cache-backed animated widget compositor.
//!
//! The library manages externally generated bitmap visuals for interactive
//! controls: it caches them in memory backed by a persistent tier, drives
//! time-bounded cross-fade transitions between a widget's interaction
//! states, alpha-blends cached layers and glyph coverage into a frame
//! buffer, and derives a legible overlay-text color from a background's
//! mean luminance.
//!
//! - [`animator`]: the per-widget state machine and click edge detection.
//! - [`image_data`]: decoded RGBA bitmaps and their model.
//! - [`codec`]: PNG and base64 transport, behind trusted wrappers.
//! - [`cache`]: the two-tier key → image store and its fill-on-miss policy.
//! - [`generation`]: what the generation service's response means.
//! - [`compositor`]: exact integer "over" blending into a frame buffer.
//! - [`contrast`]: overlay-text color from mean relative luminance.
//! - [`widgets`]: buttons, the text panel and the text input.
//! - [`ui`]: the fixed layout, one tick of the whole UI, and draw order.
//! - [`loading`]: the startup plan and the generation queue.
//! - [`text`]: exact decimal formatting for status lines and path stems.
//!
//! Everything long-running or outward-facing — file reads and writes, the
//! generation service call, font rasterization, the window — stays with
//! the embedding program, which hands the library plain values.

pub mod animator;
pub mod cache;
pub mod codec;
pub mod compositor;
pub mod contrast;
pub mod generation;
pub mod image_data;
pub mod loading;
pub mod text;
pub mod ui;
pub mod widgets;
