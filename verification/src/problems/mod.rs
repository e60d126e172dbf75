pub mod builtin;
pub mod registry;
pub mod schema;
