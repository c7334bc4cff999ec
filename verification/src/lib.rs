//! A verified codec for a fixed-framing binary packet format.
//!
//! Every packet starts with a 16-byte fixed header (version, header length,
//! payload length, magic, source id, sequence number, all multi-byte fields
//! big-endian), followed by zero or more fixed-size 8-byte TLV metadata
//! records, followed by the opaque payload bytes.
//!
//! The modules, leaf first:
//! - [`endian`]: big-endian byte packing of 16-, 32- and 48-bit integers;
//! - [`error`]: the failure taxonomy of encoding and decoding;
//! - [`tlv`]: the closed set of TLV record variants and their 8-byte codec;
//! - [`header`]: the fixed header and the composed header (fixed part plus
//!   an ordered TLV sequence);
//! - [`packet`]: the stateful packet assembler that owns a source id, a
//!   sequence counter and a static TLV list.

pub mod endian;
pub mod error;
pub mod header;
pub mod packet;
pub mod tlv;
