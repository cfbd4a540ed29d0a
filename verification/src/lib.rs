//! A decoder for the ITM and DWT trace packet protocol of ARMv7-M
//! (Architecture Reference Manual, Appendix D4).
//!
//! Raw trace bytes are pushed into a [`Decoder`], which yields one
//! [`TracePacket`] per pull, or batches of packets under the timestamp
//! that the target gave them. Every function is verified against a
//! mathematical model of the bit stream.
//!
//! - [`buffer`]: the bit FIFO that the bytes are fed into.
//! - [`header`], [`hardware`], [`extract`]: what a header byte, the
//!   payload of a hardware source packet and the payload of a timestamp
//!   mean.
//! - [`decoder`]: the state machine that yields the packets.
//! - [`iter`]: iteration over packets, and over batches of packets under
//!   their timestamps.
//! - [`packet`]: the packets by category, with the accessors of their
//!   fields.
//! - [`encode`]: the bytes of the packets that have a canonical encoding.
//! - [`stream`]: what holds of decoding any stream.

pub mod buffer;
pub mod decoder;
pub mod encode;
pub mod error;
pub mod extract;
pub mod hardware;
pub mod header;
pub mod iter;
pub mod packet;
pub mod stream;
pub mod trace;

pub use buffer::Buffer;
pub use decoder::{Decoder, from_slice};
pub use encode::encode;
pub use error::Error;
pub use extract::extract_timestamp;
pub use hardware::handle_hardware_source;
pub use header::{HeaderVariant, PacketStub, PayloadSize, decode_header};
pub use iter::{
    Gts, LocalTimestampOptions, Singles, Timestamp, TimestampedTracePackets, Timestamps,
    TimestampsConfiguration, calc_offset,
};
pub use packet::{Kind, Packet};
pub use trace::{
    Exception, ExceptionAction, MalformedPacket, MemoryAccessType, TimestampDataRelation,
    TracePacket, VectActive,
};
