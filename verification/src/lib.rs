//! A verified model of a small template service: one table of template
//! records behind five repository operations (list, find, create, update,
//! delete), and the HTTP layer that maps requests over those operations to
//! status codes and JSON bodies.

pub mod models;
pub mod repository;
pub mod json;
pub mod http;
