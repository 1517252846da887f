//! Response-body decoding pipeline: a header-driven format detector and a
//! decoder state machine that turns a raw, possibly gzip-compressed stream of
//! byte chunks into a transparently decompressed stream of byte chunks.

pub mod decoder;
pub mod detect;
pub mod gzip;
pub mod headers;

pub use decoder::{DecodeError, Decoder, Event, Mode, Step, TransportError};
pub use detect::BodyFormat;
pub use headers::Headers;
