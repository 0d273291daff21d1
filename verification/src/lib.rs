pub mod collections;
pub mod config;
pub mod event_bus;
pub mod json;
pub mod manager;
pub mod outside;
pub mod protocol;
pub mod relay;
pub mod text;
