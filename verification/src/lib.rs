//! Core state model of a weekly class scheduler: an activity catalog with
//! mex-based id allocation, a fixed 5 x 6 grid of slot bindings, a
//! single-session activity editor, an intent dispatcher that keeps the three
//! consistent, and a versioned persistence record with a proved round trip.
pub mod activity;
pub mod catalog;
pub mod editor;
pub mod error;
pub mod grid;
pub mod laws;
pub mod persist;
pub mod schedule;
