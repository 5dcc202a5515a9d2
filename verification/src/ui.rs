//! The decisions behind the terminal layout: which columns fit, how tall
//! the detail panel is, what a row's command cell reads, and which tone a
//! value is drawn in.  Drawing itself is left to the front end.

pub mod detail;
pub mod tree;
