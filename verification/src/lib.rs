//! Structural comparison of dynamically typed tree values.
//!
//! Given an original value and a comparison value, the engine produces a
//! difference document describing every divergence: type mismatches, removed
//! keys, and unequal leaves. The difference document is itself a tree value,
//! so differences compose recursively.

pub mod engine;
pub mod laws;
pub mod model;
pub mod records;
pub mod value;

pub use engine::compare_arrays;
pub use engine::compare_objects;
pub use engine::compare_values;
pub use engine::evaluate;
pub use engine::validate_document;
pub use engine::ParseError;
pub use model::InnerType;
pub use records::Metadata;
pub use records::Node;
pub use records::Spec;
pub use value::compare_types;
pub use value::deep_clone;
pub use value::get_inner_object_type;
pub use value::value_eq;
pub use value::Value;
