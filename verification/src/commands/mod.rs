pub mod news;
pub mod post;
