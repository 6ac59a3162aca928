//! A small application framework: configuration, a database with schema migrations, and a server.

pub mod application;
pub mod application_laws;
pub mod config;
pub mod config_laws;
pub mod db;
pub mod machine_view_laws;
pub mod maintenance;
pub mod maintenance_laws;
pub mod message_laws;
pub mod path;
pub mod path_laws;
pub mod startup;
pub mod startup_laws;
pub mod text;
pub mod view_laws;

pub use application::{
    Application, WithConfig, WithMigrations, WithRouter, WithoutConfig, WithoutMigrations,
    WithoutRouter,
};
