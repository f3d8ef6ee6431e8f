//! Shared core of the Kumir 3 toolchain: the lexer, the binary128 software
//! float, language constants, and the pure parts of the standard libraries
//! (HTTP messages and their parsing, the HTTP client's transport logic, URL
//! and Base64 codecs, JSON, the values handed to programs, ring buffers,
//! token reading and timers).

pub mod text;
pub mod types;
pub mod constants;
pub mod lexer;
pub mod net;
pub mod f128;
pub mod iostream;
pub mod timer;
