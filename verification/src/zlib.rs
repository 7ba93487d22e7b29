//! The zlib stream of a connection.
//!
//! ZRLE sends every update of a connection through one zlib stream, so the
//! compressor lives as long as the connection and is flushed, not finished,
//! after each update. Compression itself is the work of `flate2`; what this
//! module believes of it is stated on the items marked `external_body`.
//!
//! The compressed bytes are not described here. They are named: what a
//! flush puts out is a function of all that was written before it, and the
//! contracts say of which writes each block is the result. Whether the
//! compressor accepts a write or a flush is named in the same way: the
//! encoder writes into a vector, which takes everything, so that only the
//! compressor can refuse, and what it does follows from what it was given.

use crate::error::RfbError;
use flate2::write::ZlibEncoder;
use flate2::Compression;
use std::io::Write;
use vstd::prelude::*;

verus! {

/// `std::io::Error`, which the writing and the flushing of a `flate2`
/// encoder return when they fail. Nothing is read from it.
#[verifier::external_type_specification]
#[verifier::external_body]
pub struct ExIoError(std::io::Error);

/// A `flate2::write::ZlibEncoder` over a vector of its own, at the default
/// compression level. Values are made by [`deflater_new`] alone.
#[verifier::external_body]
pub struct Deflater {
    encoder: ZlibEncoder<Vec<u8>>,
}

/// The frames that the compressor has closed: for each sync flush made so
/// far, in order, the slices written between the flush before it and itself.
pub uninterp spec fn deflater_closed(deflater: Deflater) -> Seq<Seq<Seq<u8>>>;

/// The slices written since the last sync flush, in order. The cuts between
/// them are kept: nothing is assumed of what they do to the output.
pub uninterp spec fn deflater_open(deflater: Deflater) -> Seq<Seq<u8>>;

/// The compressed bytes of closed frames that stand in the output vector:
/// those put out by the flushes so far and not taken out since.
///
/// This is a part of the vector, not always the whole of it. Every write
/// begins by moving into the vector what the encoder has buffered, so that
/// while a frame is open the vector may hold bytes of that frame as well,
/// and the encoder may still hold others back. Between a flush and the next
/// write the vector holds these bytes and nothing else.
pub uninterp spec fn deflater_ready(deflater: Deflater) -> Seq<u8>;

/// The compressed bytes that a flush adds to the output: what the encoder
/// puts out for the slices of `open` and the flush that follows them, after
/// it has compressed the frames of `closed`. `flate2` documents the flush as
/// a sync flush, after which all input so far can be decoded from the output.
pub uninterp spec fn sync_block(closed: Seq<Seq<Seq<u8>>>, open: Seq<Seq<u8>>) -> Seq<u8>;

/// Whether the encoder takes the slice `data` when it has compressed the
/// frames of `closed` and, since the last flush, the slices of `open`.
pub uninterp spec fn write_accepted(
    closed: Seq<Seq<Seq<u8>>>,
    open: Seq<Seq<u8>>,
    data: Seq<u8>,
) -> bool;

/// Whether the encoder carries out a flush when it has compressed the frames
/// of `closed` and, since the last flush, the slices of `open`.
pub uninterp spec fn flush_accepted(closed: Seq<Seq<Seq<u8>>>, open: Seq<Seq<u8>>) -> bool;

/// Whether an encoder that has compressed the frames of `closed` takes the
/// frame `slices`: each slice in its turn, and then the flush.
pub open spec fn frame_accepted(closed: Seq<Seq<Seq<u8>>>, slices: Seq<Seq<u8>>) -> bool {
    &&& forall|i: int|
        0 <= i < slices.len() ==> #[trigger] write_accepted(closed, slices.take(i), slices[i])
    &&& flush_accepted(closed, slices)
}

/// `ZlibEncoder::new` on an empty vector with `Compression::default()`:
/// nothing is written, flushed or emitted yet.
#[verifier::external_body]
fn deflater_new() -> (deflater: Deflater)
    ensures
        deflater_closed(deflater) == Seq::<Seq<Seq<u8>>>::empty(),
        deflater_open(deflater) == Seq::<Seq<u8>>::empty(),
        deflater_ready(deflater) == Seq::<u8>::empty(),
{
    Deflater { encoder: ZlibEncoder::new(Vec::new(), Compression::default()) }
}

/// `Write::write_all` on the encoder: when it succeeds the whole of `data`
/// was taken as one more slice of the open frame. After a failure nothing
/// is known of the compressor. Whether it succeeds follows from what the
/// encoder was given so far and from `data`: its vector refuses nothing, and
/// the compressor has no other input.
#[verifier::external_body]
fn deflater_write(deflater: &mut Deflater, data: &[u8]) -> (result: Result<
    (),
    std::io::Error,
>)
    ensures
        result is Ok <==> write_accepted(
            deflater_closed(*old(deflater)),
            deflater_open(*old(deflater)),
            data@,
        ),
        result is Ok ==> deflater_open(*final(deflater)) == deflater_open(*old(deflater)).push(
            data@,
        ),
        result is Ok ==> deflater_closed(*final(deflater)) == deflater_closed(*old(deflater)),
        result is Ok ==> deflater_ready(*final(deflater)) == deflater_ready(*old(deflater)),
{
    deflater.encoder.write_all(data)
}

/// `Write::flush` on the encoder: when it succeeds the open frame is closed,
/// and the bytes that the encoder put out for it stand in the output vector
/// behind what was there. After a failure nothing is known of the
/// compressor. Whether it succeeds follows from what the encoder was given
/// so far.
#[verifier::external_body]
fn deflater_flush(deflater: &mut Deflater) -> (result: Result<(), std::io::Error>)
    ensures
        result is Ok <==> flush_accepted(
            deflater_closed(*old(deflater)),
            deflater_open(*old(deflater)),
        ),
        result is Ok ==> deflater_closed(*final(deflater)) == deflater_closed(*old(deflater)).push(
            deflater_open(*old(deflater)),
        ),
        result is Ok ==> deflater_open(*final(deflater)) == Seq::<Seq<u8>>::empty(),
        result is Ok ==> deflater_ready(*final(deflater)) == deflater_ready(*old(deflater))
            + sync_block(deflater_closed(*old(deflater)), deflater_open(*old(deflater))),
{
    deflater.encoder.flush()
}

/// `ZlibEncoder::get_mut`: the output vector itself. While no frame is open
/// it holds the compressed bytes of the closed frames that were not taken
/// out yet and nothing else, and what the caller leaves in it is what it
/// holds afterwards. While a frame is open the vector may hold bytes of
/// that frame too, and the encoder may hold others back, so the call is
/// kept to the time between a flush and the next write.
#[verifier::external_body]
fn deflater_output(deflater: &mut Deflater) -> (output: &mut Vec<u8>)
    requires
        deflater_open(*old(deflater)).len() == 0,
    ensures
        output@ == deflater_ready(*old(deflater)),
        deflater_ready(*final(deflater)) == final(output)@,
        deflater_closed(*final(deflater)) == deflater_closed(*old(deflater)),
        deflater_open(*final(deflater)) == deflater_open(*old(deflater)),
{
    deflater.encoder.get_mut()
}

/// The compressed stream of a connection whose frames so far are `frames`:
/// the blocks that the flushes completed, one after the other.
pub open spec fn stream_bytes(frames: Seq<Seq<Seq<u8>>>) -> Seq<u8>
    decreases frames.len(),
{
    if frames.len() == 0 {
        Seq::empty()
    } else {
        stream_bytes(frames.drop_last()) + sync_block(frames.drop_last(), frames.last())
    }
}

/// One frame more adds its block to the end of the stream and leaves what
/// was sent before as it is: the updates of a connection, put together in
/// the order in which they were made, are the output of one compressor.
pub proof fn lemma_stream_grows(frames: Seq<Seq<Seq<u8>>>, frame: Seq<Seq<u8>>)
    ensures
        stream_bytes(frames.push(frame)) == stream_bytes(frames) + sync_block(frames, frame),
{
    assert(frames.push(frame).drop_last() =~= frames);
}

/// The slices of a list as sequences of bytes.
pub open spec fn slice_views(slices: Seq<Vec<u8>>) -> Seq<Seq<u8>> {
    slices.map_values(|slice: Vec<u8>| slice@)
}

/// The zlib stream of one connection, between two updates: every frame so
/// far was flushed and its compressed bytes were handed out.
///
/// A stream whose compressor once reported a failure is broken for good,
/// since the client can no longer follow it.
pub struct ZrleStream {
    deflater: Option<Deflater>,
}

impl ZrleStream {
    #[verifier::type_invariant]
    spec fn idle(&self) -> bool {
        self.deflater matches Some(deflater) ==> deflater_open(deflater).len() == 0
            && deflater_ready(deflater).len() == 0
    }

    /// The frames compressed so far, each as the slices it was written in.
    pub closed spec fn frames(&self) -> Seq<Seq<Seq<u8>>> {
        match self.deflater {
            Some(deflater) => deflater_closed(deflater),
            None => Seq::empty(),
        }
    }

    /// True once the compressor has failed.
    pub closed spec fn broken(&self) -> bool {
        self.deflater is None
    }

    /// A stream on which nothing was compressed yet.
    pub fn new() -> (stream: ZrleStream)
        ensures
            !stream.broken(),
            stream.frames() == Seq::<Seq<Seq<u8>>>::empty(),
    {
        ZrleStream { deflater: Some(deflater_new()) }
    }

    /// True once the compressor has failed.
    pub fn is_broken(&self) -> (broken: bool)
        ensures
            broken == self.broken(),
    {
        self.deflater.is_none()
    }

    /// Compresses one frame: writes the slices to the compressor one by one,
    /// makes a sync flush, and takes the compressed bytes of the frame out
    /// of the compressor, which stays ready for the next frame.
    ///
    /// On a broken stream nothing is done. A compressor that fails breaks
    /// the stream. The frame is compressed whenever the stream is whole and
    /// the compressor takes it.
    pub fn compress(&mut self, slices: &[Vec<u8>]) -> (result: Result<Vec<u8>, RfbError>)
        ensures
            result is Ok <==> !old(self).broken() && frame_accepted(
                old(self).frames(),
                slice_views(slices@),
            ),
            match result {
                Ok(block) => {
                    &&& !old(self).broken()
                    &&& !final(self).broken()
                    &&& block@ == sync_block(old(self).frames(), slice_views(slices@))
                    &&& final(self).frames() == old(self).frames().push(slice_views(slices@))
                },
                Err(e) => e == RfbError::Compression && final(self).broken(),
            },
    {
        proof {
            use_type_invariant(&*self);
        }
        let mut slot: Option<Deflater> = None;
        std::mem::swap(&mut self.deflater, &mut slot);
        let mut deflater = match slot {
            Some(deflater) => deflater,
            None => {
                return Err(RfbError::Compression);
            },
        };
        let ghost closed = deflater_closed(deflater);
        let ghost frame = slice_views(slices@);
        let mut i: usize = 0;
        while i < slices.len()
            invariant
                i <= slices.len(),
                self.deflater is None,
                closed == old(self).frames(),
                frame == slice_views(slices@),
                deflater_closed(deflater) == closed,
                deflater_ready(deflater).len() == 0,
                deflater_open(deflater) == frame.take(i as int),
                forall|k: int|
                    0 <= k < i ==> #[trigger] write_accepted(closed, frame.take(k), frame[k]),
            decreases slices.len() - i,
        {
            match deflater_write(&mut deflater, slices[i].as_slice()) {
                Ok(()) => {},
                Err(_) => {
                    assert(!write_accepted(closed, frame.take(i as int), frame[i as int]));
                    return Err(RfbError::Compression);
                },
            }
            assert(frame.take(i as int).push(frame[i as int]) =~= frame.take(i + 1));
            i += 1;
        }
        assert(frame.take(slices.len() as int) =~= frame);
        match deflater_flush(&mut deflater) {
            Ok(()) => {},
            Err(_) => {
                return Err(RfbError::Compression);
            },
        }
        let mut block: Vec<u8> = Vec::new();
        let output = deflater_output(&mut deflater);
        std::mem::swap(output, &mut block);
        self.deflater = Some(deflater);
        Ok(block)
    }
}

} // verus!
