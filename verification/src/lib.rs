//! Desktop Cockpit: the verified core of a small desktop dashboard.
//!
//! The crate holds the dashboard's data model, the Markdown task parser, the
//! ordering of the day's events, the validation of the raw configuration,
//! the text rendering of a dashboard and the decisions behind the
//! pomodoro timer and the side panels.

mod outside;

pub mod domain;
pub mod text;
pub mod notes;
pub mod calendar;
pub mod config;
pub mod dashboard;
pub mod ui;
pub mod cli;
pub mod timer;
pub mod sound;
pub mod environment;
pub mod system;
pub mod projects;
