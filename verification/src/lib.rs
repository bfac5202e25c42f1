//! The decisions of a CNC job sender: what is sent to the machine and when,
//! what the operator's commands do, and how the machine's replies are read.
pub mod ascii;
pub mod controller;
pub mod effect;
pub mod exchange;
pub mod job;
pub mod line;
pub mod next_line;
pub mod offset;
pub mod panel;
pub mod pattern;
pub mod program;
pub mod report;
pub mod run;
pub mod shift;
pub mod single;
pub mod status;
pub mod target;
pub mod text;
