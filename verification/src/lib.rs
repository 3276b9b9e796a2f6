//! Terminal image rendering for a fullscreen image viewer.
//!
//! The viewer shows images through a real graphics protocol (Kitty, iTerm2 or
//! sixel) where the terminal has one, and as coloured ASCII art elsewhere.
//! Decoding and encoding are expensive, so they run on a background worker; the
//! render path only paints what the cache already holds.
//!
//! * [`geometry`] lays images out in terminal cells.
//! * [`key`] tells images apart: asset and size.
//! * [`graphics`] picks the protocol and encodes decoded images.
//! * [`cache`] holds the build state of every requested image.
//! * [`worker`] is the runtime's end of the channels to the worker.
//! * [`runtime`] ties them together: what is requested, folded in and painted.
//! * [`laws`] states what holds of the runtime as a whole.
//! * [`operations`] states what each operation does, by what goes in and comes out.

pub mod cache;
pub mod geometry;
pub mod graphics;
pub mod key;
pub mod laws;
pub mod operations;
pub mod runtime;
pub mod worker;
