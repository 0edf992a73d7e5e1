//! Renders a structured documentation model (modules, composite types,
//! functions, properties, each with optional prose and typed parameters)
//! into Markdown text, and projects item types out of structural type
//! unions for variadic bindings.

pub mod markdown;
pub mod model;
pub mod prose;
pub mod prototype;
pub mod shape;
pub mod sorting;
pub mod text;
