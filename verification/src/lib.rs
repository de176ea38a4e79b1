//! Due-milestone scheduler and request-template renderer.
//!
//! Tracks per-account progression through time-offset milestones (levels and
//! purchase events) and, for a given calendar date, computes which milestones
//! are due and renders each into an outbound request payload from the
//! account's template.

pub mod date;
pub mod duration;
pub mod models;
pub mod render;
pub mod schedule;
pub mod services;
pub mod text;

