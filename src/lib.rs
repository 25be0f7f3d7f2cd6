//! Streaming codec for print raster images: CUPS Raster (versions 1 to 3, both byte orders)
//! and Apple URF.
//!
//! The codecs are explicit state machines that never perform I/O themselves: each call is
//! handed the bytes that the transport has made available (or the room that it offers) and
//! reports how far it got, so that work can be suspended at any byte and resumed later.
//!
//! - `decoder`, `encoder`: the packbits-style line codec, each with a byte-level model
//!   (`trace`) that its calls follow, and the laws of resuming.
//! - `roundtrip`: decoding what the encoder emits gives back the page.
//! - `passthrough`: the byte-count-limited copy of uncompressed pages.
//! - `framing`: fixed-size headers gathered or handed out in pieces.
//! - `cups`, `urf`: the header models, their byte layouts, and the codec parameters that a
//!   header implies.
//! - `reader`, `writer`: page by page reading and writing of whole files.

pub mod bytes;
pub mod codec;
pub mod cups;
pub mod decoder;
pub mod encoder;
pub mod error;
pub mod framing;
pub mod limits;
pub mod passthrough;
pub mod reader;
pub mod roundtrip;
pub mod urf;
pub mod variant;
pub mod writer;

pub use limits::Limits;
