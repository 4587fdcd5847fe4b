//! A typed client library for a movie and TV metadata service that speaks
//! JSON over HTTP GET. Request descriptors derive a path and a query
//! parameter list; responses are parsed, classified by HTTP status and body
//! shape, and decoded into strict internal types.

pub mod text;
pub mod json;
pub mod codec;
pub mod util;
pub mod error;
pub mod command;
pub mod client;
pub mod common;
pub mod people;
pub mod params;
pub mod movie;
pub mod tvshow;
