//! Rectangles of encoded picture data and the FramebufferUpdate message that
//! carries them to the client.

use crate::encoding::Encoding;
use crate::error::RfbError;
use crate::wire::{be16, be32, i32_bits, push_all, push_be16, push_be32, to_bits};
use vstd::prelude::*;

verus! {

/// A positioned region of the picture in some encoding.
#[derive(Debug)]
pub struct FrameRectangle {
    pub position: (u16, u16),
    pub size: (u16, u16),
    pub encoding: Encoding,
    pub buf: Vec<u8>,
}

/// A rectangle as a mathematical value.
pub struct RectangleView {
    pub position: (u16, u16),
    pub size: (u16, u16),
    pub encoding: Encoding,
    pub payload: Seq<u8>,
}

impl View for FrameRectangle {
    type V = RectangleView;

    open spec fn view(&self) -> RectangleView {
        RectangleView {
            position: self.position,
            size: self.size,
            encoding: self.encoding,
            payload: self.buf@,
        }
    }
}

impl RectangleView {
    /// A raw rectangle of the given size at the top left corner.
    pub open spec fn raw(size: (u16, u16), payload: Seq<u8>) -> RectangleView {
        RectangleView { position: (0, 0), size, encoding: Encoding::Raw, payload }
    }

    /// A ZRLE rectangle of the given size at the top left corner.
    pub open spec fn zrle(size: (u16, u16), payload: Seq<u8>) -> RectangleView {
        RectangleView { position: (0, 0), size, encoding: Encoding::Zrle, payload }
    }

    /// A cursor rectangle. Its position is the hotspot: the middle of the
    /// sprite, rounded down.
    pub open spec fn cursor(size: (u16, u16), payload: Seq<u8>) -> RectangleView {
        RectangleView {
            position: ((size.0 / 2) as u16, (size.1 / 2) as u16),
            size,
            encoding: Encoding::Cursor,
            payload,
        }
    }

    /// The rectangle on the wire: position, size and encoding code, all
    /// big-endian, then the payload. A ZRLE payload stands behind its length.
    pub open spec fn wire(self) -> Seq<u8> {
        be16(self.position.0) + be16(self.position.1) + be16(self.size.0) + be16(self.size.1)
            + be32(i32_bits(self.encoding.spec_code())) + if self.encoding == Encoding::Zrle {
            be32(self.payload.len() as u32) + self.payload
        } else {
            self.payload
        }
    }

    /// True unless the payload is ZRLE and too long for its length field.
    pub open spec fn fits(self) -> bool {
        self.encoding == Encoding::Zrle ==> self.payload.len() <= 0xffff_ffff
    }
}

impl FrameRectangle {
    /// A raw rectangle of the given size at the top left corner.
    pub fn new_raw_frame(size: (u16, u16), buf: Vec<u8>) -> (rect: FrameRectangle)
        ensures
            rect@ == RectangleView::raw(size, buf@),
    {
        FrameRectangle { position: (0, 0), encoding: Encoding::Raw, size, buf }
    }

    /// A ZRLE rectangle of the given size at the top left corner.
    pub fn new_zrle_frame(size: (u16, u16), buf: Vec<u8>) -> (rect: FrameRectangle)
        ensures
            rect@ == RectangleView::zrle(size, buf@),
    {
        FrameRectangle { position: (0, 0), encoding: Encoding::Zrle, size, buf }
    }

    /// A cursor rectangle. Its position is the hotspot: the middle of the
    /// sprite, rounded down.
    pub fn new_cursor(size: (u16, u16), buf: Vec<u8>) -> (rect: FrameRectangle)
        ensures
            rect@ == RectangleView::cursor(size, buf@),
    {
        FrameRectangle { position: (size.0 / 2, size.1 / 2), size, encoding: Encoding::Cursor, buf }
    }
}

/// The rectangles of a slice as mathematical values.
pub open spec fn views(rectangles: Seq<FrameRectangle>) -> Seq<RectangleView> {
    rectangles.map_values(|rect: FrameRectangle| rect@)
}

/// The rectangles on the wire, one after the other.
pub open spec fn rectangles_wire(rectangles: Seq<RectangleView>) -> Seq<u8>
    decreases rectangles.len(),
{
    if rectangles.len() == 0 {
        Seq::empty()
    } else {
        rectangles_wire(rectangles.drop_last()) + rectangles.last().wire()
    }
}

/// The FramebufferUpdate message: type 0, a byte of padding, the number of
/// rectangles, and the rectangles.
pub open spec fn frame_wire(rectangles: Seq<RectangleView>) -> Seq<u8> {
    seq![0u8, 0u8] + be16(rectangles.len() as u16) + rectangles_wire(rectangles)
}

/// True when the number of rectangles and every ZRLE payload fit their
/// length fields.
pub open spec fn frame_fits(rectangles: Seq<RectangleView>) -> bool {
    rectangles.len() <= 0xffff && forall|i: int|
        0 <= i < rectangles.len() ==> (#[trigger] rectangles[i]).fits()
}

/// Serialises a FramebufferUpdate message with the given rectangles.
pub fn write_frame(rectangles: &[FrameRectangle]) -> (result: Result<Vec<u8>, RfbError>)
    ensures
        match result {
            Ok(bytes) => frame_fits(views(rectangles@)) && bytes@ == frame_wire(
                views(rectangles@),
            ),
            Err(e) => e == RfbError::FrameTooLarge && !frame_fits(views(rectangles@)),
        },
{
    if rectangles.len() > 0xffff {
        return Err(RfbError::FrameTooLarge);
    }
    let ghost all = views(rectangles@);
    let mut out: Vec<u8> = Vec::new();
    push_be16(&mut out, 0);
    push_be16(&mut out, rectangles.len() as u16);
    let ghost head = out@;
    let mut i: usize = 0;
    while i < rectangles.len()
        invariant
            i <= rectangles.len(),
            all == views(rectangles@),
            forall|k: int| 0 <= k < i ==> (#[trigger] all[k]).fits(),
            out@ == head + rectangles_wire(all.take(i as int)),
        decreases rectangles.len() - i,
    {
        let rect = &rectangles[i];
        assert(all[i as int] == rect@);
        push_be16(&mut out, rect.position.0);
        push_be16(&mut out, rect.position.1);
        push_be16(&mut out, rect.size.0);
        push_be16(&mut out, rect.size.1);
        push_be32(&mut out, to_bits(rect.encoding.code()));
        if rect.encoding == Encoding::Zrle {
            if rect.buf.len() > 0xffff_ffff {
                return Err(RfbError::FrameTooLarge);
            }
            push_be32(&mut out, rect.buf.len() as u32);
        }
        push_all(&mut out, rect.buf.as_slice());
        i += 1;
        assert(all.take(i as int).drop_last() =~= all.take(i - 1));
    }
    assert(all.take(rectangles.len() as int) =~= all);
    Ok(out)
}

} // verus!
