//! Core data structures of a stochastic ray tracer: the raster image a render
//! produces, and the text form it is written out in.
//!
//! The geometric and radiometric parts of the renderer work on `f64` values,
//! which the verifier does not model; they live in the surrounding
//! application. What is verified here is everything the renderer hands its
//! callers: the pixel grid, its construction, and its serialization.
//!
//! The decision of how a light path goes on after each probe of the scene —
//! the control that cuts every path off after finitely many bounces — is
//! also pure and is verified in [`path`].

pub mod image;
pub mod path;
