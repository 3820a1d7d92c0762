//! A privilege escalation tool's rules, checks and decisions, verified.

pub mod audit;
pub mod auth;
pub mod cli;
pub mod config;
pub mod exec;
pub mod handover;
pub mod pam_service;
pub mod path;
pub mod platform;
pub mod rules;
pub mod security;
pub mod state;
pub mod text;
pub mod value;
