//! An embedding layer for a stack-based array-language interpreter: a
//! concurrency-friendly, order-preserving multimedia capture sink together
//! with the session logic that seeds interpreter input, runs a program under
//! an optional time limit, and packages everything the program emitted.

pub mod backend;
pub mod interp;
pub mod session;
