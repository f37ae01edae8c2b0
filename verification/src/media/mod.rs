pub mod screen;
pub mod sync;
pub mod voice;
