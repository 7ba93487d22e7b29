//! Messages from the client, and the reader that takes them off the stream
//! one at a time.
//!
//! The reader does no input of its own. The caller keeps the bytes of the
//! message under way in a buffer, starting empty, and asks [`read_message`]
//! what to do: read so many bytes more and ask again, or take the message.

use crate::encoding::Encoding;
use crate::error::RfbError;
use crate::pixel::PixelFormat;
use crate::wire::{get_be16, get_be32, i32_from_bits, to_i32, u16_from_be, u32_from_be};
use vstd::prelude::*;

verus! {

/// A message from the client. Key, pointer and clipboard events carry
/// nothing: their bytes are read and dropped.
#[derive(Debug)]
pub enum ClientMessage {
    SetPixelFormat(PixelFormat),
    SetEncodings(Vec<Encoding>),
    FramebufferUpdateRequest { incremental: bool, position: (u16, u16), size: (u16, u16) },
    KeyEvent,
    PointerEvent,
    ClientCutText,
}

/// A client message as a mathematical value.
pub enum MessageView {
    SetPixelFormat(PixelFormat),
    SetEncodings(Seq<Encoding>),
    FramebufferUpdateRequest { incremental: bool, position: (u16, u16), size: (u16, u16) },
    KeyEvent,
    PointerEvent,
    ClientCutText,
}

impl View for ClientMessage {
    type V = MessageView;

    open spec fn view(&self) -> MessageView {
        match self {
            ClientMessage::SetPixelFormat(format) => MessageView::SetPixelFormat(*format),
            ClientMessage::SetEncodings(encodings) => MessageView::SetEncodings(encodings@),
            ClientMessage::FramebufferUpdateRequest { incremental, position, size } => {
                MessageView::FramebufferUpdateRequest {
                    incremental: *incremental,
                    position: *position,
                    size: *size,
                }
            },
            ClientMessage::KeyEvent => MessageView::KeyEvent,
            ClientMessage::PointerEvent => MessageView::PointerEvent,
            ClientMessage::ClientCutText => MessageView::ClientCutText,
        }
    }
}

impl Clone for ClientMessage {
    fn clone(&self) -> (copy: ClientMessage)
        ensures
            copy@ == self@,
    {
        match self {
            ClientMessage::SetPixelFormat(format) => ClientMessage::SetPixelFormat(*format),
            ClientMessage::SetEncodings(encodings) => {
                let mut copy: Vec<Encoding> = Vec::new();
                let mut i: usize = 0;
                while i < encodings.len()
                    invariant
                        i <= encodings.len(),
                        copy@ == encodings@.take(i as int),
                    decreases encodings.len() - i,
                {
                    copy.push(encodings[i]);
                    i += 1;
                }
                assert(encodings@.take(encodings.len() as int) =~= encodings@);
                ClientMessage::SetEncodings(copy)
            },
            ClientMessage::FramebufferUpdateRequest { incremental, position, size } => {
                ClientMessage::FramebufferUpdateRequest {
                    incremental: *incremental,
                    position: *position,
                    size: *size,
                }
            },
            ClientMessage::KeyEvent => ClientMessage::KeyEvent,
            ClientMessage::PointerEvent => ClientMessage::PointerEvent,
            ClientMessage::ClientCutText => ClientMessage::ClientCutText,
        }
    }
}

/// What the reader asks of its caller.
#[derive(Debug)]
pub enum Reading {
    /// Read exactly this many bytes more, append them, and ask again.
    Need(usize),
    /// The buffer holds this message; start the next one with an empty buffer.
    Message(ClientMessage),
    /// The stream ended between two messages.
    End,
}

/// A reader's answer as a mathematical value.
pub enum ReadingView {
    Need(usize),
    Message(MessageView),
    End,
}

impl View for Reading {
    type V = ReadingView;

    open spec fn view(&self) -> ReadingView {
        match self {
            Reading::Need(n) => ReadingView::Need(*n),
            Reading::Message(message) => ReadingView::Message(message@),
            Reading::End => ReadingView::End,
        }
    }
}

/// The length of the message that `buf` starts, tag included, as far as the
/// bytes in `buf` tell: a message with a count in it is as long as its fixed
/// part until the count is there. An unknown tag has no length.
///
/// | tag | message | after the tag |
/// |-----|---------|---------------|
/// | 0 | SetPixelFormat | 3 of padding, 16 of pixel format |
/// | 2 | SetEncodings | 1 of padding, a 16-bit count, 4 for each encoding |
/// | 3 | FramebufferUpdateRequest | the incremental flag, four 16-bit numbers |
/// | 4 | KeyEvent | 1, 2 and 4 |
/// | 5 | PointerEvent | 1, 2 and 2 |
/// | 6 | ClientCutText | 3 of padding, a 32-bit count, the text |
pub open spec fn message_length(buf: Seq<u8>) -> Option<int> {
    if buf.len() == 0 {
        Some(1)
    } else if buf[0] == 0 {
        Some(20)
    } else if buf[0] == 2 {
        if buf.len() < 4 {
            Some(4)
        } else {
            Some(4 + 4 * u16_from_be(buf[2], buf[3]))
        }
    } else if buf[0] == 3 {
        Some(10)
    } else if buf[0] == 4 {
        Some(8)
    } else if buf[0] == 5 {
        Some(6)
    } else if buf[0] == 6 {
        if buf.len() < 8 {
            Some(8)
        } else {
            Some(8 + u32_from_be(buf[4], buf[5], buf[6], buf[7]))
        }
    } else {
        None
    }
}

/// The encoding whose code stands in the four bytes of `buf` from `at` on.
pub open spec fn encoding_at(buf: Seq<u8>, at: int) -> Encoding {
    Encoding::spec_from_code(
        i32_from_bits(u32_from_be(buf[at], buf[at + 1], buf[at + 2], buf[at + 3])),
    )
}

/// The message that a complete buffer holds.
pub open spec fn decoded(buf: Seq<u8>) -> Result<MessageView, RfbError> {
    if buf[0] == 0 {
        match PixelFormat::parse(buf.subrange(4, 20)) {
            Ok(format) => Ok(MessageView::SetPixelFormat(format)),
            Err(_) => Err(RfbError::ProtocolError),
        }
    } else if buf[0] == 2 {
        Ok(
            MessageView::SetEncodings(
                Seq::new(u16_from_be(buf[2], buf[3]) as nat, |i: int| encoding_at(buf, 4 + 4 * i)),
            ),
        )
    } else if buf[0] == 3 {
        Ok(
            MessageView::FramebufferUpdateRequest {
                incremental: buf[1] > 0,
                position: (u16_from_be(buf[2], buf[3]), u16_from_be(buf[4], buf[5])),
                size: (u16_from_be(buf[6], buf[7]), u16_from_be(buf[8], buf[9])),
            },
        )
    } else if buf[0] == 4 {
        Ok(MessageView::KeyEvent)
    } else if buf[0] == 5 {
        Ok(MessageView::PointerEvent)
    } else if buf[0] == 6 {
        Ok(MessageView::ClientCutText)
    } else {
        Err(RfbError::ProtocolError)
    }
}

/// What the reader answers on the bytes in `buf`. `at_end` says that the
/// stream has ended, so that no more bytes will come.
///
/// An unknown tag is an error. A buffer that reaches the end of its message
/// is decoded, and what may follow in it is not looked at. A shorter one
/// asks for the bytes that are missing; at the end of the stream that is a
/// clean end if the buffer is empty, and an error if a message was under way.
pub open spec fn reading(buf: Seq<u8>, at_end: bool) -> Result<ReadingView, RfbError> {
    match message_length(buf) {
        None => Err(RfbError::ProtocolError),
        Some(length) => if buf.len() >= length {
            match decoded(buf) {
                Ok(message) => Ok(ReadingView::Message(message)),
                Err(e) => Err(e),
            }
        } else if !at_end {
            Ok(ReadingView::Need((length - buf.len()) as usize))
        } else if buf.len() == 0 {
            Ok(ReadingView::End)
        } else {
            Err(RfbError::ProtocolError)
        },
    }
}

/// The reader never asks for bytes past the end of the message under way:
/// with what it asked for, the buffer ends within the message or at its end.
/// So no byte of the message that follows is taken too early.
pub proof fn lemma_reads_stay_within_message(buf: Seq<u8>, more: Seq<u8>)
    requires
        reading(buf, false) matches Ok(ReadingView::Need(n)) && more.len() == n,
    ensures
        more.len() > 0,
        message_length(buf + more) is Some ==> (buf + more).len() <= message_length(
            buf + more,
        )->Some_0,
        buf.len() > 0 ==> message_length(buf + more) is Some,
{
    let whole = buf + more;
    if buf.len() > 0 {
        assert(whole[0] == buf[0]);
        if buf[0] == 2 && buf.len() >= 4 {
            assert(whole[2] == buf[2] && whole[3] == buf[3]);
        }
        if buf[0] == 6 && buf.len() >= 8 {
            assert(whole[4] == buf[4] && whole[5] == buf[5] && whole[6] == buf[6] && whole[7]
                == buf[7]);
        }
    }
}

/// The length of the message under way, as far as the buffer tells.
fn total_length(buf: &[u8]) -> (length: Option<u64>)
    ensures
        match message_length(buf@) {
            Some(n) => length == Some(n as u64) && 0 < n <= 8 + 0xffff_ffff,
            None => length is None,
        },
{
    if buf.len() == 0 {
        return Some(1);
    }
    match buf[0] {
        0 => Some(20),
        2 => if buf.len() < 4 {
            Some(4)
        } else {
            Some(4 + 4 * (get_be16(buf, 2) as u64))
        },
        3 => Some(10),
        4 => Some(8),
        5 => Some(6),
        6 => if buf.len() < 8 {
            Some(8)
        } else {
            Some(8 + get_be32(buf, 4) as u64)
        },
        _ => None,
    }
}

/// Decodes the message that the buffer holds.
fn decode(buf: &[u8]) -> (result: Result<ClientMessage, RfbError>)
    requires
        message_length(buf@) matches Some(n) && buf@.len() >= n,
    ensures
        match decoded(buf@) {
            Ok(message) => result matches Ok(m) && m@ == message,
            Err(e) => result matches Err(r) && r == e,
        },
{
    match buf[0] {
        0 => match PixelFormat::read_from(vstd::slice::slice_subrange(buf, 4, 20)) {
            Ok(format) => Ok(ClientMessage::SetPixelFormat(format)),
            Err(_) => Err(RfbError::ProtocolError),
        },
        2 => {
            let count: usize = get_be16(buf, 2) as usize;
            let mut encodings: Vec<Encoding> = Vec::new();
            let mut i: usize = 0;
            while i < count
                invariant
                    i <= count,
                    count == u16_from_be(buf@[2], buf@[3]),
                    buf@.len() >= 4 + 4 * count,
                    encodings@ == Seq::new(i as nat, |k: int| encoding_at(buf@, 4 + 4 * k)),
                decreases count - i,
            {
                let code = to_i32(get_be32(buf, 4 + 4 * i));
                encodings.push(Encoding::from_code(code));
                i += 1;
            }
            Ok(ClientMessage::SetEncodings(encodings))
        },
        3 => Ok(
            ClientMessage::FramebufferUpdateRequest {
                incremental: buf[1] > 0,
                position: (get_be16(buf, 2), get_be16(buf, 4)),
                size: (get_be16(buf, 6), get_be16(buf, 8)),
            },
        ),
        4 => Ok(ClientMessage::KeyEvent),
        5 => Ok(ClientMessage::PointerEvent),
        _ => Ok(ClientMessage::ClientCutText),
    }
}

/// Takes the next step in reading one client message.
pub fn read_message(buf: &[u8], at_end: bool) -> (result: Result<Reading, RfbError>)
    ensures
        match reading(buf@, at_end) {
            Ok(answer) => result matches Ok(r) && r@ == answer,
            Err(e) => result matches Err(r) && r == e,
        },
{
    match total_length(buf) {
        None => Err(RfbError::ProtocolError),
        Some(length) => {
            let have: u64 = buf.len() as u64;
            if have >= length {
                match decode(buf) {
                    Ok(message) => Ok(Reading::Message(message)),
                    Err(e) => Err(e),
                }
            } else if !at_end {
                Ok(Reading::Need((length - have) as usize))
            } else if buf.len() == 0 {
                Ok(Reading::End)
            } else {
                Err(RfbError::ProtocolError)
            }
        },
    }
}

} // verus!
