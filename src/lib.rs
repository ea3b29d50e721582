//! Resolution of ABI type descriptors, binding generation for custom types,
//! and the token codec those bindings implement.
pub mod abi;
pub mod codec;
pub mod codegen;
pub mod layout;
pub mod names;
pub mod params;
pub mod resolve;
pub mod text;
pub mod types;
