pub mod entity;
pub mod names;
pub mod repository;
pub mod delivery;
pub mod models;
pub mod service;
