//! Verified core of a G-code simulator.
//!
//! - Reading a program: [`source`] sanitizes its lines, [`lexer`] turns each line into
//!   tokens, [`parser`] and [`gcode`] turn the tokens of a block into codes, with
//!   [`decimal`] numbers kept exactly.
//! - Showing a program: [`format`] and [`panel`] write the text of codes, block summaries,
//!   source previews, modes and keys.
//! - Driving the simulation: [`controls`] decides what keys and the mouse do in the
//!   simulation window, [`signal`] carries the changes to the text interface, and
//!   [`state`] runs the text interface's cycle.
pub mod text;
pub mod decimal;
pub mod source;
pub mod lexer;
pub mod parser;
pub mod gcode;
pub mod format;
pub mod panel;
pub mod interpreter;
pub mod speed;
pub mod geometry;
pub mod signal;
pub mod controls;
pub mod state;
pub mod describe;
pub mod config;
pub mod cursor;
pub mod cli;
