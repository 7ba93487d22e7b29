//! Server side of the Remote Framebuffer protocol for a still picture.
//!
//! The library shows one picture, with an optional cursor sprite, to clients
//! of the protocol. It does no input or output of its own: the caller owns
//! the socket, hands over what it has read, and sends what it is given.
//!
//! - [`handshake`] takes a connection from the version line to ServerInit.
//! - [`message`] reads the messages of the client one at a time.
//! - [`session`] keeps the state of a connection and answers each message.
//! - [`screen`] holds the picture and draws it raw, as ZRLE tiles, and as a
//!   cursor; [`tiles`] and [`bitmask`] describe the layouts it draws.
//! - [`pixel`] packs pixels under the format a client asks for.
//! - [`frame`] wraps drawn rectangles into a FramebufferUpdate message.
//! - [`zlib`] is the compressed stream that the ZRLE frames of a connection
//!   share.
//! - [`encoding`], [`error`] and [`wire`] hold the encoding codes, the
//!   failures, and the byte order of numbers on the wire.

pub mod bitmask;
pub mod encoding;
pub mod error;
pub mod frame;
pub mod handshake;
pub mod message;
pub mod pixel;
pub mod screen;
pub mod session;
pub mod tiles;
pub mod wire;
pub mod zlib;
