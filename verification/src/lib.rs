//! The core of the zmake build tool: neutral paths, module specifiers,
//! the sandbox, the module loader and the project resolver, with the
//! small values that travel with them. Every function states what it
//! does in its contract, and Verus proves the contracts; what other
//! crates do is stated where they are called.

pub mod access_control;
pub mod builtin;
pub mod cas;
pub mod digest;
pub mod engine;
pub mod file_finder;
pub mod fs;
pub mod lifecycle;
pub mod maps;
pub mod module_loader;
pub mod module_specifier;
pub mod path;
pub mod pattern;
pub mod project_resolver;
pub mod sandbox;
pub mod spans;
pub mod table;
pub mod text;
pub mod version_extractor;
