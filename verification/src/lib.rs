pub mod auth;
pub mod clock;
pub mod config;
pub mod crypto;
pub mod encoding;
pub mod history;
pub mod json;
pub mod jwt;
pub mod mcp;
pub mod secret;
pub mod server;
pub mod service;
pub mod session;
pub mod setup;
pub mod shell;
pub mod string_map;
pub mod text;
pub mod totp;
