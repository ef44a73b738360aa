//! Runtime reflection data model with a structural diff and patch engine.
//!
//! Every reflected value is held by the closed [`value::Value`] taxonomy: an opaque
//! leaf, a tuple, a fixed-length array, a variable-length list, a map with
//! unique keys, a tuple struct, a struct with named fields, or an enum with
//! one active variant.  The engines compute a minimal structural delta
//! between two values and apply such a delta back onto a base value.


pub mod apply;
pub mod cloning;
pub mod containers;
pub mod diff;
pub mod diff_engine;
pub mod diff_error;
pub mod diff_model;
pub mod enums;
pub mod eq;
pub mod hashing;
pub mod laws;
pub mod lemmas;
pub mod list_diff;
pub mod merge;
pub mod model;
pub mod nochange;
pub mod tuple;
pub mod uuid;
pub mod value;
