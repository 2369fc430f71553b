//! A versioned memo store that keeps a durable primary table, a read-through
//! cache and a search index consistent under optimistic concurrency control.

pub mod clock;
pub mod ident;
pub mod text;
pub mod error;
pub mod memo;
pub mod table;
pub mod primary;
pub mod cache;
pub mod index;
pub mod repository;
pub mod laws;
pub mod dto;
pub mod user;
pub mod service;
