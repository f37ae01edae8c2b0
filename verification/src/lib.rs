pub mod codec;
pub mod crypto;
pub mod keyed;
pub mod media;
pub mod network;
pub mod state;
pub mod text;
pub mod types;
pub mod ui;
