pub mod handlers;
pub mod models;
pub mod text;
pub mod utils;
pub mod validators;
