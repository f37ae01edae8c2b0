pub mod app;
pub mod theme;
pub mod view_model;
