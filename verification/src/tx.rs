//! Web-facing transaction kinds.

pub mod web;
