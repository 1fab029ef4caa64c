//! A pointer-cursor engine for a display compositor.
//!
//! The crate renders the pointer cursor from two interchangeable sources:
//! a legacy raster icon theme (pre-rendered bitmap frame sequences) and a
//! declarative vector theme (scalable path scenes and keyframed
//! compositions with simple animation).  Given a cursor identity, a display
//! scale factor and elapsed wall-clock time it produces a concrete pixel
//! buffer and hotspot for the host's render loop to composite, with
//! crossfade-style transitions between cursor identities and graceful
//! fallback to raster or to a guaranteed built-in glyph.
//!
//! All file and display I/O lives outside this crate: callers read theme
//! files and hand their contents in as plain values.

pub mod animator;
pub mod raster;
pub mod store;
pub mod svg;
pub mod config;
pub mod icon;
pub mod json;
pub mod manager;
pub mod lottie;
pub mod types;
