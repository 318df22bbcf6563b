//! Core of a multi-tenant script host: the service lifecycle, the sandbox
//! lease protocol with its resource contexts, the permission model and the
//! decisions of the filesystem module.

pub mod error;
pub mod file;
pub mod fs;
pub mod path;
pub mod permission;
pub mod resource;
pub mod response;
pub mod sandbox_pool;
pub mod service;
pub mod shared;
