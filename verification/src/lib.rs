//! The linear memories and tables of a WebAssembly runtime, with their types,
//! the operations on them and the decoding of their types from the binary format.

pub mod data;
pub mod elem;
pub mod memory;
pub mod range_ops;
pub mod reference;
pub mod store;
pub mod table;
pub mod trap;
pub mod decode;
pub mod stack;
