//! A local secrets manager: configuration rules, secret and token handling,
//! encryption of stored values and the error model of its HTTP API and CLI.
pub mod text;
pub mod error;
pub mod net;
pub mod config;
pub mod bytes;
pub mod crypto;
pub mod domain;
pub mod ids;
pub mod normalize;
pub mod service;
pub mod security;
pub mod api;
pub mod addr;
pub mod cli;
pub mod storage;
