//! Decoder for the binary frame protocol of a presence and vital-signs radar.
//!
//! A frame on the wire is
//! `[sync 0x01][id:2][length:2][type:2][header checksum:1][payload:length][body checksum:1]`,
//! with big-endian header fields. Bytes in front of a sync byte are discarded, so the
//! decoder recovers from any desynchronisation of the stream. The payload is read as
//! little-endian 32-bit words holding `f32` bit patterns, which the library carries as `u32`.
//!
//! - `checksum`: the complement of the XOR of a byte span.
//! - `protocol`: message types, headers, payload buffers and the frame reader.
//! - `message`: the typed interpretation of a payload.
//! - `stream`: incremental decoding of received bytes into messages.
//! - `aggregate`: the latest plausible value of each measurement channel.
//! - `laws`: general properties of the above, proved.
pub mod aggregate;
pub mod checksum;
pub mod laws;
pub mod message;
pub mod protocol;
pub mod stream;
