//! The ways in which the library refuses an input.

use vstd::prelude::*;

verus! {

/// Why an operation of the library failed.
#[derive(Debug, Clone, Copy, PartialEq, Eq, Structural)]
pub enum RfbError {
    /// The client asked for a protocol version or a security type that the
    /// server does not speak, or did not send what the handshake awaited.
    HandshakeFailed,
    /// A client message has an unknown tag, carries a malformed pixel format,
    /// or the stream ended in the middle of a message.
    ProtocolError,
    /// A pixel format is too short, names a width other than 8, 16 or 32 bits,
    /// or a depth above its width.
    InvalidFormat,
    /// The pixel format asks for something the encoders cannot express.
    Unsupported,
    /// A picture is wider or taller than 65535 pixels, or its planes do not
    /// match its dimensions.
    ConfigError,
    /// An update has more rectangles, or a compressed payload more bytes,
    /// than its length field can hold.
    FrameTooLarge,
    /// The zlib stream of the connection reported a failure and is unusable.
    Compression,
}

} // verus!
