//! Top-level packet dispatch.
//!
//! The dispatcher inspects the protocol discriminator and the PDU type with
//! a fixed-width peek over the first eight bytes, and routes to the PDU
//! decoder without paying for a structured parse of PDU kinds it does not
//! handle.

use crate::isis::{
    IsisL2LinkStatePacket, spec_parse_lsp, ISIS_PROTOCOL_DISCRIMINATOR, L2_LINK_STATE_PDU_TYPE,
    PDU_TYPE_MASK,
};
use crate::IsisError;
use vstd::prelude::*;

verus! {

/// One decoded IS-IS packet. Only the Level-2 Link State PDU is handled;
/// other PDU types are reported as [`IsisError::UnsupportedPduType`].
#[derive(Clone, Debug)]
pub enum IsisPacket {
    LinkStateProtocolDataUnit(IsisL2LinkStatePacket),
}

/// Decodes one IS-IS packet from the front of `input`, returning the
/// unconsumed remainder beside it.
///
/// The first eight bytes are peeked as one fixed-width word: the top byte
/// must be the IS-IS protocol discriminator, and the low five bits of the
/// fifth byte select the PDU kind. Only the Level-2 Link State PDU kind is
/// decoded; any other kind is a recognized-but-unhandled outcome, distinct
/// from a malformed-input error.
pub fn parse_isis_packet(input: &[u8]) -> (r: Result<(&[u8], IsisPacket), IsisError>)
    ensures
        input@.len() < 8 ==> (r matches Err(e) && e == IsisError::TruncatedInput),
        input@.len() >= 8 && input@[0] != ISIS_PROTOCOL_DISCRIMINATOR ==> (r matches Err(e) && e
            == IsisError::UnsupportedProtocolDiscriminator),
        input@.len() >= 8 && input@[0] == ISIS_PROTOCOL_DISCRIMINATOR && (input@[4] & PDU_TYPE_MASK)
            != L2_LINK_STATE_PDU_TYPE ==> (r matches Err(e) && e == IsisError::UnsupportedPduType),
        input@.len() >= 8 && input@[0] == ISIS_PROTOCOL_DISCRIMINATOR && (input@[4] & PDU_TYPE_MASK)
            == L2_LINK_STATE_PDU_TYPE ==> match spec_parse_lsp(input@) {
            Ok((p, n)) => r matches Ok((rest, pkt)) && (pkt matches
                IsisPacket::LinkStateProtocolDataUnit(l) && l@ == p) && rest@ == input@.skip(n),
            Err(e) => r matches Err(e2) && e2 == e,
        },
{
    if input.len() < 8 {
        return Err(IsisError::TruncatedInput);
    }
    let irpd = input[0];
    if irpd != ISIS_PROTOCOL_DISCRIMINATOR {
        return Err(IsisError::UnsupportedProtocolDiscriminator);
    }
    let pkt_type = input[4] & PDU_TYPE_MASK;
    if pkt_type != L2_LINK_STATE_PDU_TYPE {
        return Err(IsisError::UnsupportedPduType);
    }
    match IsisL2LinkStatePacket::parse(input) {
        Ok((rest, pkt)) => Ok((rest, IsisPacket::LinkStateProtocolDataUnit(pkt))),
        Err(e) => Err(e),
    }
}

} // verus!
