pub mod news;
