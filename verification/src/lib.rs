//! Decision and parsing logic of a usbipd-win front end.

pub mod text;
pub mod config;
pub mod lang;
pub mod sys;
pub mod usbipd;
pub mod ops;
pub mod daemons;
pub mod snapshot;
pub mod model;
pub mod controller;
pub mod laws;
pub mod report;
pub mod log;
pub mod monitor;
pub mod theme;
pub mod widgets;
pub mod icon;
