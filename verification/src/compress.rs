//! The zstd stream around the payload of a replay.

use vstd::prelude::*;
use zstd::stream::write::Encoder;

verus! {

/// A zstd compressing stream: a `zstd::stream::write::Encoder` that writes
/// into a buffer in memory.
#[verifier::external_body]
pub struct ZstdStream {
    encoder: Encoder<'static, Vec<u8>>,
}

/// The uncompressed bytes that have been handed to a compressing stream so far.
pub uninterp spec fn stream_input(e: ZstdStream) -> Seq<u8>;

/// The compressed bytes that a stream has written to its buffer and that have
/// not been taken out yet (what `get_ref` shows of the buffer).
pub uninterp spec fn stream_output(e: ZstdStream) -> Seq<u8>;

/// The compressed bytes that have been taken out of a stream's buffer (by
/// [`encoder_take_output`]) since the stream was made. What the stream has
/// written in all is these bytes followed by [`stream_output`].
pub uninterp spec fn stream_taken(e: ZstdStream) -> Seq<u8>;

/// How decompressing a stream ended.
#[derive(Debug, Clone, Copy, PartialEq, Eq, Structural)]
pub enum StreamEnd {
    /// Every frame was complete.
    Clean,
    /// The input ended inside a frame (zstd reports an incomplete frame as
    /// `UnexpectedEof`).
    Truncated,
    /// The decoder rejected the input with another error.
    Broken,
}

/// What `zstd::stream::copy_decode` writes when it decompresses `compressed`
/// into an empty buffer, and how it ended.
pub uninterp spec fn zstd_copy_decode(compressed: Seq<u8>) -> (Seq<u8>, StreamEnd);

/// `zstd::stream::copy_decode` into an empty buffer: the bytes that the stream
/// decompressed to before it ended or broke off, and how it ended (without
/// error, with an `UnexpectedEof` error, or with another error).
/// Nothing is stated of these bytes beyond their name.
#[verifier::external_body]
pub fn decompress(compressed: &[u8]) -> (r: (Vec<u8>, StreamEnd))
    ensures
        (r.0@, r.1) == zstd_copy_decode(compressed@),
{
    let mut out: Vec<u8> = Vec::new();
    let end = match zstd::stream::copy_decode(compressed, &mut out) {
        Ok(()) => StreamEnd::Clean,
        Err(e) => match e.kind() {
            std::io::ErrorKind::UnexpectedEof => StreamEnd::Truncated,
            _ => StreamEnd::Broken,
        },
    };
    (out, end)
}

/// `Encoder::new` of zstd over an empty buffer, at compression `level`.
/// It succeeds: zstd clamps the level, loads the empty dictionary, and fails
/// only where memory runs out. A new stream has been handed nothing and has
/// written nothing.
#[verifier::external_body]
pub fn encoder_new(level: i32) -> (r: Result<ZstdStream, ()>)
    ensures
        r is Ok,
        r matches Ok(e) ==> stream_input(e) == Seq::<u8>::empty(),
        r matches Ok(e) ==> stream_output(e) == Seq::<u8>::empty(),
        r matches Ok(e) ==> stream_taken(e) == Seq::<u8>::empty(),
{
    match Encoder::new(Vec::new(), level) {
        Ok(encoder) => Ok(ZstdStream { encoder }),
        Err(_) => Err(()),
    }
}

/// `write_all` on a zstd `Encoder` over a buffer in memory. It succeeds (a
/// buffer in memory takes every write) and the stream has been handed all of
/// `data`. Compressed bytes that it writes are appended to the buffer.
#[verifier::external_body]
pub fn encoder_write_all(e: &mut ZstdStream, data: &[u8]) -> (r: Result<(), ()>)
    ensures
        r is Ok,
        stream_input(*final(e)) == stream_input(*old(e)) + data@,
        stream_taken(*final(e)) == stream_taken(*old(e)),
        stream_output(*old(e)).len() <= stream_output(*final(e)).len(),
        stream_output(*final(e)).take(stream_output(*old(e)).len() as int) == stream_output(*old(e)),
{
    match std::io::Write::write_all(&mut e.encoder, data) {
        Ok(()) => Ok(()),
        Err(_) => Err(()),
    }
}

/// `flush` on a zstd `Encoder` over a buffer in memory. It succeeds and hands
/// the stream nothing; it appends compressed bytes to the buffer such that
/// everything the stream has written decompresses to all of its input so far
/// (the frame is not ended, so the decoder reports an incomplete frame after it).
#[verifier::external_body]
pub fn encoder_flush(e: &mut ZstdStream) -> (r: Result<(), ()>)
    ensures
        r is Ok,
        stream_input(*final(e)) == stream_input(*old(e)),
        stream_taken(*final(e)) == stream_taken(*old(e)),
        stream_output(*old(e)).len() <= stream_output(*final(e)).len(),
        stream_output(*final(e)).take(stream_output(*old(e)).len() as int) == stream_output(*old(e)),
        zstd_copy_decode(stream_taken(*final(e)) + stream_output(*final(e))).0 == stream_input(
            *final(e),
        ),
{
    match std::io::Write::flush(&mut e.encoder) {
        Ok(()) => Ok(()),
        Err(_) => Err(()),
    }
}

/// Takes the compressed bytes that a zstd `Encoder` has written to its buffer
/// (through `get_mut`): the bytes in the buffer, which is left empty; the
/// stream's input stays as it was.
#[verifier::external_body]
pub fn encoder_take_output(e: &mut ZstdStream) -> (out: Vec<u8>)
    ensures
        stream_input(*final(e)) == stream_input(*old(e)),
        out@ == stream_output(*old(e)),
        stream_output(*final(e)) == Seq::<u8>::empty(),
        stream_taken(*final(e)) == stream_taken(*old(e)) + stream_output(*old(e)),
{
    std::mem::take(e.encoder.get_mut())
}

/// `Encoder::finish` of zstd over a buffer in memory: it succeeds, ends the
/// frame and gives back the buffer, which starts with the bytes that were
/// in it and goes on with the end of the frame. Everything the stream wrote
/// then is one complete zstd frame, which decompresses to the stream's input.
#[verifier::external_body]
pub fn encoder_finish(e: ZstdStream) -> (r: Result<Vec<u8>, ()>)
    ensures
        r is Ok,
        r matches Ok(v) ==> stream_output(e).len() <= v@.len(),
        r matches Ok(v) ==> v@.take(stream_output(e).len() as int) == stream_output(e),
        r matches Ok(v) ==> zstd_copy_decode(stream_taken(e) + v@) == (stream_input(e), StreamEnd::Clean),
{
    match e.encoder.finish() {
        Ok(v) => Ok(v),
        Err(_) => Err(()),
    }
}

} // verus!
