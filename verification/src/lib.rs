//! A terminal dashboard for a rate-limited API quota: each window's usage
//! percentage and time to reset, and a projection of whether the current
//! pace exhausts the quota before the window resets.
//!
//! The projector (`pace`) compares consumption against uniform use of the
//! elapsed window time with exact integer arithmetic. The layout engine
//! (`display`, over `style` and `width`) renders fixed-width lines whose
//! padding is computed from visible columns — what remains after ANSI
//! styling sequences are stripped, measured by Unicode display-width rules —
//! so styled and wide text still line up.

pub mod api;
pub mod auth;
pub mod display;
pub mod numfmt;
pub mod pace;
pub mod style;
pub mod width;
