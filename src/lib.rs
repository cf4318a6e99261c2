//! A single-tenant content store of posts with nested comments, with the
//! request routing that splits calls between a read path and a write path.

pub mod config;
pub mod identity;
pub mod lookup;
pub mod blog;
pub mod store;
pub mod laws;
pub mod text;
pub mod http;
pub mod command;
