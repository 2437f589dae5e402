//! Pathy: a verified core for an editor of piecewise cubic Bezier paths.
//!
//! Coordinates are integers in fixed-point units: field positions in
//! milli-inches, screen positions in milli-pixels. All curve evaluation,
//! path editing, hit testing, reveal animation and persistence framing is
//! carried out on these plain values and verified; a thin shell around the
//! crate does the windowing, painting and storage.

pub mod anim;
pub mod app;
pub mod bezier;
pub mod codec;
pub mod hit;
pub mod num;
pub mod path;
