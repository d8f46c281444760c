pub mod error;
pub mod text;
pub mod params;
pub mod config;
pub mod backends;
pub mod registry;
pub mod agent;
