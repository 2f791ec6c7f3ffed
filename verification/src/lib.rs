//! A typed value codec and query-binding layer for a relational database
//! client.
//!
//! The crate maps between an application's typed values and the
//! database's binary wire representation, binds result rows to declared
//! record shapes, prepares statements for sending, and tracks the life of a
//! transaction. It performs no I/O: a caller hands it the bytes that came
//! from the server and sends the bytes that it produces.

pub mod wire;
pub mod descriptor;
pub mod value;
pub mod error;
pub mod scalar;
pub mod array;
pub mod codec;
pub mod registry;
pub mod binder;
pub mod executor;
pub mod transaction;
pub mod script;
pub mod sample;
