//! A newline-delimited text protocol: framing of lines over a byte buffer,
//! the binding of that framing to a connection, and an echo handler that
//! numbers the requests it serves.

pub mod buffer;
pub mod codec;
pub mod echo;
pub mod proto;

pub use codec::{FormatError, LineCodec};
pub use echo::{Echo, EchoStats};
pub use proto::{Exchange, LineProto};
