pub mod laws;
pub mod request;
