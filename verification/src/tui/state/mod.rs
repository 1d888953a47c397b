//! What is kept from one session to the next.

pub mod persist;
