mod keysyms;
pub mod picker_laws;
pub mod window_picker;
