//! A minimal HTTP/1.1 server core, verified with Verus.
//!
//! The library holds the protocol engine: delimiter-driven parsing of a
//! request off a byte stream, routing of method and target to a handler,
//! response construction with exact `Content-Length` framing, and the
//! serialization of a response back to bytes. Sockets, files, command-line
//! handling and the worker pool live outside the library and exchange plain
//! byte values with it.

pub mod ascii;
pub mod bytes;
pub mod reader;
pub mod request;
pub mod response;
pub mod parser;
pub mod handler;
