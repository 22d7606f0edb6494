//! Request-handling logic of five small HTTP backends: a notes and
//! user-check service, a to-do list, a car rental service and a movie
//! ticket booking service. The HTTP plumbing lives outside this library;
//! everything a handler decides is computed here.

pub mod notes;
pub mod rentals;
pub mod sequences;
pub mod text;
pub mod tickets;
pub mod todo;
