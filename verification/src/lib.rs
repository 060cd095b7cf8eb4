pub mod text;
pub mod number;
pub mod models;
pub mod html;
pub mod error;
pub mod parser;
pub mod json;
pub mod auth;
pub mod time;
pub mod retry;
pub mod client;
pub mod monitor;
pub mod search;
pub mod cookies;
pub mod ws;
pub mod ua;
pub mod export;
pub mod middleware;
