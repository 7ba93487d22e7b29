//! What the server does with each message of a connected client.
//!
//! The caller reads the messages and sends the replies; this module holds
//! the state of the connection and decides what each message changes and
//! what, if anything, is sent back.

use crate::encoding::Encoding;
use crate::error::RfbError;
use crate::frame::{frame_fits, frame_wire, write_frame, FrameRectangle, RectangleView};
use crate::message::{ClientMessage, MessageView};
use crate::screen::{Screen, ScreenView};
use crate::zlib::{frame_accepted, sync_block, ZrleStream};
use vstd::prelude::*;

verus! {

/// The state of one connection after the handshake.
pub struct Connection {
    /// The screen on show, in the format the client asked for.
    pub screen: Screen,
    /// The zlib stream of the connection, once the client has named ZRLE.
    pub zlib: Option<ZrleStream>,
    /// True once the client has named the cursor pseudo-encoding.
    pub pointer_supported: bool,
}

/// The rectangles of an update whose screen rectangle carries `payload`:
/// the screen, as ZRLE or raw, and behind it the cursor where the client
/// takes cursors and the screen can draw one.
pub open spec fn update_rectangles(
    screen: ScreenView,
    pointer_supported: bool,
    zrle: bool,
    payload: Seq<u8>,
) -> Seq<RectangleView> {
    let first = if zrle {
        RectangleView::zrle(screen.dimensions, payload)
    } else {
        RectangleView::raw(screen.dimensions, payload)
    };
    match screen.cursor_payload() {
        Some(cursor) => if pointer_supported {
            seq![first, RectangleView::cursor(screen.pointer_size(), cursor)]
        } else {
            seq![first]
        },
        None => seq![first],
    }
}

/// True when `result` is the update made of `rectangles`: the message, or
/// the refusal of rectangles that do not fit their length fields.
pub open spec fn framed(
    rectangles: Seq<RectangleView>,
    result: Result<Option<Vec<u8>>, RfbError>,
) -> bool {
    if frame_fits(rectangles) {
        result matches Ok(Some(bytes)) && bytes@ == frame_wire(rectangles)
    } else {
        result == Err::<Option<Vec<u8>>, RfbError>(RfbError::FrameTooLarge)
    }
}

/// True when `result` and `after` are what a full update over the zlib
/// stream `before` gives on `screen`.
///
/// Where the tiles cannot be made the stream is untouched. Where they can,
/// and the stream is whole and its compressor takes them, the update
/// carries the block that the stream puts out for the tiles, and the stream
/// has one frame more. Otherwise the request fails and the stream is broken.
pub open spec fn zrle_update(
    screen: ScreenView,
    pointer_supported: bool,
    before: ZrleStream,
    after: ZrleStream,
    result: Result<Option<Vec<u8>>, RfbError>,
) -> bool {
    match screen.zrle_tiles() {
        Err(e) => result == Err::<Option<Vec<u8>>, RfbError>(e) && after == before,
        Ok(tiles) => if !before.broken() && frame_accepted(before.frames(), tiles) {
            &&& !after.broken()
            &&& after.frames() == before.frames().push(tiles)
            &&& framed(
                update_rectangles(
                    screen,
                    pointer_supported,
                    true,
                    sync_block(before.frames(), tiles),
                ),
                result,
            )
        } else {
            &&& result == Err::<Option<Vec<u8>>, RfbError>(RfbError::Compression)
            &&& after.broken()
        },
    }
}

/// True when `result` is what a full raw update gives on `screen`.
pub open spec fn raw_update(
    screen: ScreenView,
    pointer_supported: bool,
    result: Result<Option<Vec<u8>>, RfbError>,
) -> bool {
    match screen.format.encoded(screen.background) {
        Err(e) => result == Err::<Option<Vec<u8>>, RfbError>(e),
        Ok(payload) => framed(update_rectangles(screen, pointer_supported, false, payload), result),
    }
}

/// Tells whether a list of encodings names `wanted`.
fn names(encodings: &Vec<Encoding>, wanted: Encoding) -> (found: bool)
    ensures
        found == encodings@.contains(wanted),
{
    let mut i: usize = 0;
    while i < encodings.len()
        invariant
            i <= encodings.len(),
            forall|k: int| 0 <= k < i ==> encodings@[k] != wanted,
        decreases encodings.len() - i,
    {
        if encodings[i] == wanted {
            return true;
        }
        i += 1;
    }
    false
}

impl Connection {
    /// The state of a connection that has just finished its handshake: no
    /// encodings named yet.
    pub fn new(screen: Screen) -> (connection: Connection)
        ensures
            connection.screen == screen,
            connection.zlib is None,
            !connection.pointer_supported,
    {
        Connection { screen, zlib: None, pointer_supported: false }
    }

    /// Frames an update around the payload of its screen rectangle, which is
    /// ZRLE data if `zrle` is set and raw pixels if not. The cursor follows
    /// where the client takes cursors and the screen can draw one.
    pub fn frame_update(&self, payload: Vec<u8>, zrle: bool) -> (result: Result<Vec<u8>, RfbError>)
        ensures
            match result {
                Ok(bytes) => framed(
                    update_rectangles(self.screen@, self.pointer_supported, zrle, payload@),
                    Ok(Some(bytes)),
                ),
                Err(e) => framed(
                    update_rectangles(self.screen@, self.pointer_supported, zrle, payload@),
                    Err(e),
                ),
            },
    {
        let dimensions = self.screen.dimensions();
        let first = if zrle {
            FrameRectangle::new_zrle_frame(dimensions, payload)
        } else {
            FrameRectangle::new_raw_frame(dimensions, payload)
        };
        let ghost expected = update_rectangles(
            self.screen@,
            self.pointer_supported,
            zrle,
            payload@,
        );
        let cursor = if self.pointer_supported {
            self.screen.draw_cursor()
        } else {
            None
        };
        match cursor {
            Some(pointer) => {
                let second = FrameRectangle::new_cursor(self.screen.pointer_size(), pointer);
                let rectangles = [first, second];
                assert(crate::frame::views(rectangles@) =~= expected);
                write_frame(rectangles.as_slice())
            },
            None => {
                let rectangles = [first];
                assert(crate::frame::views(rectangles@) =~= expected);
                write_frame(rectangles.as_slice())
            },
        }
    }

    /// Takes one message of the client and gives the bytes to send back, if
    /// the message calls for any.
    ///
    /// A pixel format is taken if it is true colour and refused if not. A
    /// list of encodings opens the zlib stream if it names ZRLE and none is
    /// open, and turns cursors on if it names the cursor. A request for an
    /// incremental update is not answered, since the picture never changes.
    /// Any other request is answered with the whole screen, over the zlib
    /// stream if it is open and raw if not. Key, pointer and clipboard events
    /// change nothing.
    pub fn handle_message(&mut self, message: ClientMessage) -> (result: Result<
        Option<Vec<u8>>,
        RfbError,
    >)
        ensures
            match message@ {
                MessageView::SetPixelFormat(format) => {
                    &&& final(self).zlib == old(self).zlib
                    &&& final(self).pointer_supported == old(self).pointer_supported
                    &&& format.true_color_flag ==> result == Ok::<Option<Vec<u8>>, RfbError>(None)
                        && final(self).screen@ == (ScreenView { format, ..old(self).screen@ })
                    &&& !format.true_color_flag ==> result == Err::<Option<Vec<u8>>, RfbError>(
                        RfbError::Unsupported,
                    ) && final(self).screen@ == old(self).screen@
                },
                MessageView::SetEncodings(encodings) => {
                    &&& result == Ok::<Option<Vec<u8>>, RfbError>(None)
                    &&& final(self).screen == old(self).screen
                    &&& final(self).pointer_supported == (old(self).pointer_supported
                        || encodings.contains(Encoding::Cursor))
                    &&& if encodings.contains(Encoding::Zrle) && old(self).zlib is None {
                        final(self).zlib matches Some(stream) && !stream.broken() && stream.frames()
                            == Seq::<Seq<Seq<u8>>>::empty()
                    } else {
                        final(self).zlib == old(self).zlib
                    }
                },
                MessageView::FramebufferUpdateRequest { incremental, .. } => {
                    &&& final(self).screen == old(self).screen
                    &&& final(self).pointer_supported == old(self).pointer_supported
                    &&& incremental ==> result == Ok::<Option<Vec<u8>>, RfbError>(None)
                        && final(self).zlib == old(self).zlib
                    &&& !incremental ==> match old(self).zlib {
                        Some(before) => final(self).zlib matches Some(after) && zrle_update(
                            old(self).screen@,
                            old(self).pointer_supported,
                            before,
                            after,
                            result,
                        ),
                        None => final(self).zlib is None && raw_update(
                            old(self).screen@,
                            old(self).pointer_supported,
                            result,
                        ),
                    }
                },
                _ => result == Ok::<Option<Vec<u8>>, RfbError>(None) && *final(self) == *old(self),
            },
    {
        match message {
            ClientMessage::SetPixelFormat(format) => {
                match self.screen.set_pixel_format(format) {
                    Ok(()) => Ok(None),
                    Err(e) => Err(e),
                }
            },
            ClientMessage::SetEncodings(encodings) => {
                if names(&encodings, Encoding::Zrle) && self.zlib.is_none() {
                    self.zlib = Some(ZrleStream::new());
                }
                if names(&encodings, Encoding::Cursor) {
                    self.pointer_supported = true;
                }
                Ok(None)
            },
            ClientMessage::FramebufferUpdateRequest { incremental, position: _, size: _ } => {
                if incremental {
                    return Ok(None);
                }
                let drawn = match &mut self.zlib {
                    Some(stream) => (self.screen.draw_zrle(stream), true),
                    None => (self.screen.draw_raw(), false),
                };
                match drawn.0 {
                    Err(e) => Err(e),
                    Ok(payload) => match self.frame_update(payload, drawn.1) {
                        Ok(bytes) => Ok(Some(bytes)),
                        Err(e) => Err(e),
                    },
                }
            },
            ClientMessage::KeyEvent => Ok(None),
            ClientMessage::PointerEvent => Ok(None),
            ClientMessage::ClientCutText => Ok(None),
        }
    }
}

} // verus!
