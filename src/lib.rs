pub mod app;
pub mod catalog;
pub mod date;
pub mod post;
pub mod text;
pub mod registry;
pub mod laws;
