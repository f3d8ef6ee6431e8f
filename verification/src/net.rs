//! Network library: HTTP types and builders, buffers, the text codecs used
//! on the wire, JSON, and the values and functions that programs see.

pub mod client;
pub mod codec;
pub mod conn;
pub mod http;
pub mod transport;
pub mod transport_laws;
pub mod json;
pub mod json_laws;
pub mod utils;
pub mod value;
