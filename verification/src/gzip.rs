//! Trusted boundary to the gzip decompressor of the `flate2` crate.
//!
//! The decompressor is an outside, stateful object: verified code cannot look
//! inside it, and its type cannot be declared to the verifier because its
//! `std::io::Write` bound is a trait the verifier does not know. It is held
//! instead in the opaque `GzipStream` below. Its observable content is named
//! by two uninterpreted functions — the compressed bytes written into it so
//! far (`gz_fed`) and the decompressed bytes it has handed back so far
//! (`gz_taken`) — and what a complete run produces is named by `gunzip` /
//! `gunzip_ok`. The wrappers state how each call moves those quantities;
//! everything else about decompression is proved in verified code from these
//! contracts.

use std::io::Write;

use vstd::prelude::*;

verus! {

/// An in-flight gzip decompression, fed compressed bytes chunk by chunk.
/// Opaque to the verifier: all knowledge of it flows through `gz_fed` and
/// `gz_taken` and the contracts of the functions below.
#[verifier::external_body]
pub struct GzipStream {
    dec: flate2::write::GzDecoder<Vec<u8>>,
}

/// Whether `data` is one complete, well-formed gzip stream (header, deflate
/// body, and trailer with matching checksum and length).
pub uninterp spec fn gunzip_ok(data: Seq<u8>) -> bool;

/// The decompressed content of the complete gzip stream `data`.
pub uninterp spec fn gunzip(data: Seq<u8>) -> Seq<u8>;

/// Whether `data` is a prefix of some well-formed gzip stream — the bytes
/// fed so far cannot yet have made decompression fail.
pub open spec fn gunzip_viable(data: Seq<u8>) -> bool {
    exists|rest: Seq<u8>| gunzip_ok(data + rest)
}

/// The compressed bytes written into this decompressor so far.
pub uninterp spec fn gz_fed(d: GzipStream) -> Seq<u8>;

/// The decompressed bytes this decompressor has handed back so far.
pub uninterp spec fn gz_taken(d: GzipStream) -> Seq<u8>;

/// Relies on `flate2::write::GzDecoder::new`: a fresh decompressor over an
/// empty sink has consumed nothing and handed back nothing.
#[verifier::external_body]
pub(crate) fn gz_new() -> (d: GzipStream)
    ensures
        gz_fed(d) == Seq::<u8>::empty(),
        gz_taken(d) == Seq::<u8>::empty(),
{
    GzipStream { dec: flate2::write::GzDecoder::new(Vec::new()) }
}

/// Relies on the `Write` impl of `flate2::write::GzDecoder`: `write_all`
/// consumes the whole chunk as compressed input, the decompressed output
/// lands in the `Vec` sink, and taking the sink's content (the pattern the
/// crate documents for incremental forwarding) hands that output back. On an
/// error the decompressor is no longer usable and nothing is claimed of it.
/// Writing never fails while everything fed so far is a prefix of some
/// well-formed gzip stream: header parsing tolerates a partial header, a
/// valid deflate prefix never errors, and flushing into a `Vec` sink cannot
/// fail.
#[verifier::external_body]
pub(crate) fn gz_write(d: &mut GzipStream, chunk: &Vec<u8>) -> (r: Result<Vec<u8>, String>)
    ensures
        r matches Ok(out) ==> gz_fed(*final(d)) == gz_fed(*old(d)) + chunk@ && gz_taken(*final(d))
            == gz_taken(*old(d)) + out@,
        gunzip_viable(gz_fed(*old(d)) + chunk@) ==> r is Ok,
{
    match d.dec.write_all(chunk) {
        Ok(()) => match d.dec.flush() {
            Ok(()) => Ok(std::mem::take(d.dec.get_mut())),
            Err(e) => Err(e.to_string()),
        },
        Err(e) => Err(e.to_string()),
    }
}

/// Relies on `flate2::write::GzDecoder::finish`: it succeeds if and only if
/// the bytes fed are one complete gzip stream whose checksum and length
/// trailer check out; it flushes the remaining decompressed bytes into the
/// sink and returns the sink — so on success everything handed back,
/// followed by the returned rest, is exactly the decompression of everything
/// fed.
#[verifier::external_body]
pub(crate) fn gz_finish(d: GzipStream) -> (r: Result<Vec<u8>, String>)
    ensures
        r matches Ok(rest) ==> gunzip_ok(gz_fed(d)) && gz_taken(d) + rest@ == gunzip(gz_fed(d)),
        gunzip_ok(gz_fed(d)) ==> r is Ok,
{
    match d.dec.finish() {
        Ok(v) => Ok(v),
        Err(e) => Err(e.to_string()),
    }
}

} // verus!
