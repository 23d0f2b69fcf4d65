pub mod laws;
pub mod sounds;
pub mod window_picker;
