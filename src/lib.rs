//! A static file server for single-page applications: request paths are
//! resolved under a content root, misses fall back to one index resource, and
//! the request pipeline and server lifecycle are modelled as verified
//! decision functions that the binary drives.

pub mod config;
pub mod path;
pub mod pipeline;
pub mod lifecycle;
pub mod media;
