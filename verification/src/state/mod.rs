pub mod store;
