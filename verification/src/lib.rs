//! The deciding core of a recursive ray tracer.
//!
//! Numbers enter and leave as single-precision bit patterns ([`scalar::Scalar`]).
//! The arithmetic on them is the caller's; every choice that the tracer makes
//! between them is made here.
pub mod scalar;
pub mod types;
pub mod solvers;
pub mod shapes;
pub mod tracer;
pub mod scene;
pub mod texture;
pub mod render;
