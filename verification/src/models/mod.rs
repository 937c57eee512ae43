pub mod news;
pub mod user;
