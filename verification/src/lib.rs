//! Verified core of a session-scoped todo list.
//!
//! A session holds an ordered list of todo items keyed by a monotonically
//! increasing integer id, together with the id counter. The modules here
//! model that state, the operations on it (seed, create, toggle, delete,
//! filter), and the HTML fragments the operations respond with, each with a
//! contract that pins the result down. Transport, session storage and
//! routing live outside the library.

pub mod errors;
pub mod handlers;
pub mod laws;
pub mod model;
pub mod render;

pub use errors::ApplicationError;
