//! Decoder for the MOSS (Monolithic Stitched Sensor) pixel-detector readout
//! protocol.
//!
//! The input is a buffer of raw 8-bit readout words. The decoder walks the
//! buffer with a finite state machine, recognises framing words (unit frame
//! header and trailer, region headers, idle) and data words (three-word
//! triplets encoding region/row/column), enforces their legal ordering, and
//! emits fully decoded pixel hits grouped into per-unit packets.

pub mod words;
pub mod hits;
pub mod fsm;
pub mod decoder;
pub mod render;

pub use hits::MossHit;
pub use hits::MossPacket;
pub use words::MossWord;
pub use decoder::DecodeError;
pub use decoder::decode_event;
pub use decoder::decode_multiple_events;
pub use decoder::extract_packet;
pub use decoder::extract_hits;
