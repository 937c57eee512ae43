pub mod config;
