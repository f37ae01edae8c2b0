pub mod e2e;
pub mod store_forward;
pub mod primitives;
