//! A request-interception mock agent: a stub catalog, a matcher that picks one
//! stub per request, and a response builder with latency and fault effects.
pub mod agent;
pub mod config;
pub mod helpers;
pub mod json;
pub mod laws;
pub mod matcher;
pub mod path_template;
pub mod patterns;
pub mod query;
pub mod response;
pub mod strmap;
pub mod text;
