//! Keeping files equal on a set of hosts.

pub mod decide;
pub mod machine;
pub mod plan;
pub mod remote;
pub mod report;
pub mod run;
