//! What is measured on a host: the commands that ask for it, and the reading of
//! the answers.

pub mod collector;
pub mod data;
pub mod number;
pub mod parser;
pub mod probes;
