pub mod config;
pub mod sounds;
pub mod ui;
