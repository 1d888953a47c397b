//! What is kept between runs: the database and how long its rows stay.

pub mod db;
pub mod retention;
