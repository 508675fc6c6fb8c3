//! A Wavefront OBJ mesh parser: directive lines are tokenized and
//! dispatched, numeric tokens are scanned straight from the bytes,
//! face corner references are resolved (1-based or relative), distinct
//! attribute combinations are canonicalized into a minimal vertex set,
//! and polygon faces are fan-triangulated into a flat index stream.
//!
//! The whole parse is specified against one mathematical model
//! ([`obj::spec_parse_obj`]) and [`obj::load_obj_from_bytes`] is proved
//! to return exactly what the model says, for every input. Float
//! components are validated against a decimal-float grammar and carried
//! as their original byte tokens; converting a token into a binary
//! float value is left to callers at the boundary.

pub mod canon;
pub mod error;
pub mod face;
pub mod features;
pub mod finite_state_machine;
pub mod laws;
pub mod material;
pub mod numeric;
pub mod obj;
pub mod parse_helper;
pub mod split;
