//! Core logic of a desktop screenshot-and-describe utility: a sliding
//! sidebar animator, a shared state cell written by background tasks,
//! capture and analysis dispatch decisions, a chat command interpreter,
//! and the JSON framing for a local inference endpoint.

pub mod ai;
pub mod capture;
pub mod cell;
pub mod cli;
pub mod gui;
pub mod json;
pub mod panel;
pub mod text;
pub mod window_finder;
