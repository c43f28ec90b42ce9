//! A kiosk-display compositing engine: a tree of normalized, parent-relative
//! windows, a pool of drawable resources with synthesized scrolling-text
//! bitmaps, a per-frame update scheduler, per-node state cells, and a
//! non-blocking protocol for refreshing slow external data on worker threads.
//!
//! The engine owns every decision — geometry, scheduling, synthesis sizing,
//! marquee slicing, handle bookkeeping, refresh adoption — and hands the host
//! plain draw commands; the host owns the pixels and the I/O behind the
//! `TextureBackend` and `WindowUpdater` ports.

pub mod errors;
pub mod geometry;
pub mod refresh;
pub mod request;
pub mod state_cell;
pub mod texture;
pub mod update_rate;
pub mod weather;
pub mod window_tree;
