pub mod types;
pub mod repository;
pub mod service;
pub mod models;
