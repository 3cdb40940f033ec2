pub mod config;
pub mod entry;
pub mod words;
