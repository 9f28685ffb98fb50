pub mod budget;
pub mod handlers;
pub mod types;
