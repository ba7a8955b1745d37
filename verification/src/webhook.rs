//! The registration webhook: relay identifiers, notification checks, replay
//! and duplicate tracking, and what a notification request is answered.

pub mod utils;
pub mod validation;
pub mod state;
pub mod processing;
pub mod monitoring;
pub mod handlers;
