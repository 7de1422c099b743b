//! The domain types every part of Janitor speaks: what a Config names, what a
//! load or a walk answers, what an edit asks for.

pub mod config;
pub mod matrix;
pub mod provider;
pub mod select;
pub mod write;
