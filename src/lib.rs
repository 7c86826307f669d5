//! Resource-access core of a sandboxed WebAssembly host: driver dispatch by
//! URI scheme, capability checks, a small HTTP/1.1 client with an incremental
//! chunked-body decoder, and the handle tables behind the host calls.

pub mod args;
pub mod chunked;
pub mod error;
pub mod handle_table;
pub mod http_bridge;
pub mod http_raw;
pub mod path;
pub mod permission;
pub mod registry;
pub mod socket;
pub mod text;
pub mod url_parts;
