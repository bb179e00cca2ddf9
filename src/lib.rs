//! Client-side core of a cloud compute platform: a binary-safe text codec, a local
//! store of workload definitions with name/id resolution, and paging over a remote
//! key-value directory.

pub mod cli;
pub mod codec;
pub mod config;
pub mod error;
pub mod flights;
pub mod formations;
pub mod kv;
pub mod models;
pub mod paging;
pub mod persist;
pub mod restrict;
pub mod text;
pub mod web;
