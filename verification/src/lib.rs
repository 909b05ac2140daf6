//! Decoder for IS-IS Level-2 Link State PDUs.
//!
//! Raw network bytes are decoded into structured records, recursively
//! unpacking nested TLV and Sub-TLV regions. Every length-prefixed region is
//! carved out with the bounded-region reader in [`reader`], so an inner
//! length field can never make a parse escape its outer container.

pub mod hex;
pub mod isis;
pub mod parser;
pub mod reader;
pub mod subtlv;
pub mod tlv;

pub use crate::isis::{
    skipper, Chksm, Irpd, IsisL2LinkStatePacket, IsisPacketHeader, IsisPacketType, LspId, SeqNo,
};
pub use crate::parser::{parse_isis_packet, IsisPacket};
pub use crate::subtlv::{
    parse_isis_subtlvs, IsisSubTlv, IsisSubTlvIpv4InterfaceAddress, IsisSubTlvIpv4NeighborAddress,
    IsisSubTlvType,
};
pub use crate::tlv::{
    parse_is_neighbors, parse_isis_tlvs, IsNeighbor, IsisGenericTlvHeader, IsisTlv,
    IsisTlvExtendedIsReachability, IsisTlvType,
};

use vstd::prelude::*;

verus! {

/// Failure conditions reported by the decoders.
///
/// `TruncatedInput` is recoverable by supplying more bytes; the others are
/// format or dispatch defects for the buffer position at hand.
#[derive(Clone, Copy, Debug, PartialEq, Eq, Structural)]
pub enum IsisError {
    /// Fewer bytes are present than a fixed or declared length requires.
    TruncatedInput,
    /// The leading protocol discriminator byte is not the IS-IS value 0x83.
    UnsupportedProtocolDiscriminator,
    /// A recognized but not yet handled PDU type.
    UnsupportedPduType,
    /// An inner decoder's type-tag assertion did not match the tag used to
    /// select it; indicates a dispatch inconsistency, not bad input.
    VerifyFailed,
    /// A declared length is inconsistent with the surrounding region.
    MalformedLength,
}

} // verus!
