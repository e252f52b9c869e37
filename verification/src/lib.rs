//! Verified core of the WordPress to Strapi migration system.
pub mod text;
pub mod error;
pub mod models;
pub mod logging;
pub mod cli;
pub mod http;
pub mod config;
pub mod cache;
pub mod html;
pub mod excerpt;
pub mod content_parser;
pub mod content_rebuilder;
pub mod article_transformer;
pub mod strapi;
pub mod image;
pub mod json;
pub mod orchestrator;
pub mod users;
pub mod wp;
pub mod pre_migration;
pub mod runner;
pub mod avatars;
pub mod laws;
