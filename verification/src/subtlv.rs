//! Sub-TLV records nested inside an Extended IS Reachability Neighbor.
//!
//! Two tags are recognized, both carrying a 4-byte IPv4 address after the
//! common 2-byte header; every other tag is skipped generically, consuming
//! the header plus the declared payload length, and reported as
//! `Unsupported`.

use crate::reader::{
    lemma_be_u32_round_trip, read_be_u32, spec_be_u32, spec_be_u32_bytes, split_region,
};
use crate::tlv::IsisGenericTlvHeader;
use crate::IsisError;
use vstd::prelude::*;

verus! {

/// Type tag of the IPv4 interface address Sub-TLV.
pub const SUB_TLV_IPV4_INTERFACE_ADDRESS: u8 = 6;

/// Type tag of the IPv4 neighbor address Sub-TLV.
pub const SUB_TLV_IPV4_NEIGHBOR_ADDRESS: u8 = 8;

/// A Sub-TLV type tag, one byte.
#[derive(Clone, Copy, Debug, Default, PartialEq, Eq, Structural)]
pub struct IsisSubTlvType(pub u8);

/// The header of a Sub-TLV record.
pub type IsisSubTlvHeader = IsisGenericTlvHeader<IsisSubTlvType>;

/// An IPv4 interface address Sub-TLV: the 2-byte header followed by the
/// address as a big-endian 32-bit value.
#[derive(Clone, Copy, Debug)]
pub struct IsisSubTlvIpv4InterfaceAddress {
    pub header: IsisSubTlvHeader,
    pub addr: u32,
}

/// An IPv4 neighbor address Sub-TLV: the 2-byte header followed by the
/// address as a big-endian 32-bit value.
#[derive(Clone, Copy, Debug)]
pub struct IsisSubTlvIpv4NeighborAddress {
    pub header: IsisSubTlvHeader,
    pub addr: u32,
}

/// One decoded Sub-TLV record. Unrecognized tags are a first-class outcome,
/// not an error: their bytes are consumed and discarded.
#[derive(Clone, Copy, Debug)]
pub enum IsisSubTlv {
    Ipv4InterfaceAddress(IsisSubTlvIpv4InterfaceAddress),
    Ipv4NeighborAddress(IsisSubTlvIpv4NeighborAddress),
    Unsupported,
}

/// One Sub-TLV decoded from the front of `s`: the record and the count of
/// bytes it consumes, or `None` if no complete record starts `s`.
///
/// A recognized record is the 2-byte header plus a 4-byte address, six bytes
/// in all; an unrecognized one is the header plus the declared payload
/// length.
pub open spec fn spec_parse_sub_tlv(s: Seq<u8>) -> Option<(IsisSubTlv, int)> {
    if s.len() < 2 {
        None
    } else {
        let tag = s[0];
        let len = s[1];
        if tag == SUB_TLV_IPV4_INTERFACE_ADDRESS {
            if s.len() >= 6 {
                Some(
                    (
                        IsisSubTlv::Ipv4InterfaceAddress(
                            IsisSubTlvIpv4InterfaceAddress {
                                header: IsisGenericTlvHeader {
                                    tlv_type: IsisSubTlvType(tag),
                                    len: len,
                                },
                                addr: spec_be_u32(s, 2),
                            },
                        ),
                        6,
                    ),
                )
            } else {
                None
            }
        } else if tag == SUB_TLV_IPV4_NEIGHBOR_ADDRESS {
            if s.len() >= 6 {
                Some(
                    (
                        IsisSubTlv::Ipv4NeighborAddress(
                            IsisSubTlvIpv4NeighborAddress {
                                header: IsisGenericTlvHeader {
                                    tlv_type: IsisSubTlvType(tag),
                                    len: len,
                                },
                                addr: spec_be_u32(s, 2),
                            },
                        ),
                        6,
                    ),
                )
            } else {
                None
            }
        } else {
            if s.len() >= 2 + len {
                Some((IsisSubTlv::Unsupported, 2 + len))
            } else {
                None
            }
        }
    }
}

/// The Sub-TLV records of a bounded region, decoded front to back until the
/// region is exhausted or no complete record remains; a trailing remainder
/// that forms no complete record is dropped, not an error.
pub open spec fn spec_parse_sub_tlvs(s: Seq<u8>) -> Seq<IsisSubTlv>
    decreases s.len(),
{
    match spec_parse_sub_tlv(s) {
        Some((st, n)) => if 0 < n <= s.len() {
            seq![st] + spec_parse_sub_tlvs(s.skip(n))
        } else {
            seq![st]
        },
        None => Seq::empty(),
    }
}

/// The total count of bytes consumed by the records of
/// [`spec_parse_sub_tlvs`].
pub open spec fn spec_sub_tlvs_consumed(s: Seq<u8>) -> int
    decreases s.len(),
{
    match spec_parse_sub_tlv(s) {
        Some((st, n)) => if 0 < n <= s.len() {
            n + spec_sub_tlvs_consumed(s.skip(n))
        } else {
            n
        },
        None => 0,
    }
}

/// The decoded records of a Sub-TLV region never consume more bytes than
/// the region holds; whatever remains is dropped rather than reported as an
/// error.
pub proof fn lemma_sub_tlvs_consumed_le_region(s: Seq<u8>)
    ensures
        0 <= spec_sub_tlvs_consumed(s) <= s.len(),
    decreases s.len(),
{
    match spec_parse_sub_tlv(s) {
        Some((st, n)) => {
            if 0 < n <= s.len() {
                lemma_sub_tlvs_consumed_le_region(s.skip(n));
            }
        },
        None => {},
    }
}

/// The byte encoding of a recognized Sub-TLV record: its 2-byte header
/// followed by the 4-byte big-endian address. An `Unsupported` record has
/// dropped its payload and encodes to nothing.
pub open spec fn spec_encode_sub_tlv(st: IsisSubTlv) -> Seq<u8> {
    match st {
        IsisSubTlv::Ipv4InterfaceAddress(t) => seq![t.header.tlv_type.0, t.header.len]
            + spec_be_u32_bytes(t.addr),
        IsisSubTlv::Ipv4NeighborAddress(t) => seq![t.header.tlv_type.0, t.header.len]
            + spec_be_u32_bytes(t.addr),
        IsisSubTlv::Unsupported => Seq::empty(),
    }
}

/// Decoding a recognized Sub-TLV and re-encoding its fields reproduces
/// exactly the bytes the record consumed.
pub proof fn lemma_sub_tlv_round_trip(s: Seq<u8>, st: IsisSubTlv, n: int)
    requires
        spec_parse_sub_tlv(s) == Some((st, n)),
        !(st is Unsupported),
    ensures
        spec_encode_sub_tlv(st) == s.take(n),
{
    lemma_be_u32_round_trip(s, 2);
    assert(spec_encode_sub_tlv(st) =~= s.take(n));
}

/// Decodes one Sub-TLV at byte offset `pos` of `input`, returning the
/// record and the offset just past it.
pub fn parse_one_sub_tlv(input: &[u8], pos: usize) -> (r: Result<(IsisSubTlv, usize), IsisError>)
    requires
        pos <= input@.len(),
    ensures
        match spec_parse_sub_tlv(input@.skip(pos as int)) {
            Some((st, n)) => r matches Ok((v, next)) && v == st && next == pos + n,
            None => r matches Err(e) && e == IsisError::TruncatedInput,
        },
{
    let ghost s = input@.skip(pos as int);
    let n = input.len();
    if n - pos < 2 {
        return Err(IsisError::TruncatedInput);
    }
    let tag = input[pos];
    let len = input[pos + 1];
    assert(tag == s[0] && len == s[1]);
    if tag == SUB_TLV_IPV4_INTERFACE_ADDRESS {
        if n - pos < 6 {
            return Err(IsisError::TruncatedInput);
        }
        let addr = read_be_u32(input, pos + 2);
        assert(addr == spec_be_u32(s, 2));
        Ok(
            (
                IsisSubTlv::Ipv4InterfaceAddress(
                    IsisSubTlvIpv4InterfaceAddress {
                        header: IsisGenericTlvHeader { tlv_type: IsisSubTlvType(tag), len: len },
                        addr: addr,
                    },
                ),
                pos + 6,
            ),
        )
    } else if tag == SUB_TLV_IPV4_NEIGHBOR_ADDRESS {
        if n - pos < 6 {
            return Err(IsisError::TruncatedInput);
        }
        let addr = read_be_u32(input, pos + 2);
        assert(addr == spec_be_u32(s, 2));
        Ok(
            (
                IsisSubTlv::Ipv4NeighborAddress(
                    IsisSubTlvIpv4NeighborAddress {
                        header: IsisGenericTlvHeader { tlv_type: IsisSubTlvType(tag), len: len },
                        addr: addr,
                    },
                ),
                pos + 6,
            ),
        )
    } else {
        if n - pos - 2 < len as usize {
            return Err(IsisError::TruncatedInput);
        }
        Ok((IsisSubTlv::Unsupported, pos + 2 + len as usize))
    }
}

/// Decodes a whole Sub-TLV region front to back, dropping any trailing
/// remainder that forms no complete record.
fn parse_sub_tlv_sequence(region: &[u8]) -> (v: Vec<IsisSubTlv>)
    ensures
        v@ == spec_parse_sub_tlvs(region@),
{
    let mut v: Vec<IsisSubTlv> = Vec::new();
    let mut pos: usize = 0;
    proof {
        assert(region@.skip(0) =~= region@);
        assert(v@ + spec_parse_sub_tlvs(region@) =~= spec_parse_sub_tlvs(region@));
    }
    loop
        invariant
            pos <= region@.len(),
            spec_parse_sub_tlvs(region@) == v@ + spec_parse_sub_tlvs(region@.skip(pos as int)),
        ensures
            v@ == spec_parse_sub_tlvs(region@),
        decreases region@.len() - pos,
    {
        match parse_one_sub_tlv(region, pos) {
            Ok((st, next)) => {
                proof {
                    let s = region@.skip(pos as int);
                    assert(s.skip(next - pos) =~= region@.skip(next as int));
                    assert(spec_parse_sub_tlvs(s) == seq![st] + spec_parse_sub_tlvs(
                        region@.skip(next as int),
                    ));
                    assert(v@ + spec_parse_sub_tlvs(s) == v@.push(st) + spec_parse_sub_tlvs(
                        region@.skip(next as int),
                    )) by {
                        assert(v@ + (seq![st] + spec_parse_sub_tlvs(region@.skip(next as int)))
                            =~= v@.push(st) + spec_parse_sub_tlvs(region@.skip(next as int)));
                    }
                }
                v.push(st);
                pos = next;
            },
            Err(_) => {
                proof {
                    assert(spec_parse_sub_tlvs(region@.skip(pos as int))
                        =~= Seq::<IsisSubTlv>::empty());
                    assert(v@ + Seq::<IsisSubTlv>::empty() =~= v@);
                }
                break ;
            },
        }
    }
    v
}

/// Decodes the Sub-TLV region of a Neighbor record.
///
/// The first `len` bytes of `input` are the bounded region; the records
/// decoded from it are returned together with the remainder of `input`
/// after the region. No inner record can consume bytes past the region,
/// whatever its own length field claims.
pub fn parse_isis_subtlvs<'a>(len: u8, input: &'a [u8]) -> (r: Result<
    (&'a [u8], Vec<IsisSubTlv>),
    IsisError,
>)
    ensures
        len as int <= input@.len() ==> (r matches Ok((rest, v)) && rest@ == input@.skip(len as int)
            && v@ == spec_parse_sub_tlvs(input@.take(len as int))),
        len as int > input@.len() ==> (r matches Err(e) && e == IsisError::TruncatedInput),
{
    match split_region(input, len as usize) {
        Ok((region, rest)) => {
            let v = parse_sub_tlv_sequence(region);
            Ok((rest, v))
        },
        Err(e) => Err(e),
    }
}

} // verus!
