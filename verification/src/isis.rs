//! The Level-2 Link State PDU: fixed-width header and trailer fields, and
//! the TLV region computed from the declared PDU length.

use crate::reader::{
    lemma_be_u16_round_trip, lemma_be_u32_round_trip, read_be_u16, read_be_u32, spec_be_u16,
    spec_be_u16_bytes, spec_be_u32, spec_be_u32_bytes,
};
use crate::tlv::{
    spec_parse_tlvs, spec_tlv_views, parse_isis_tlvs, IsisTlv, SpecIsisTlv,
};
use crate::hex::{push_hex1, push_hex2, push_hex4, push_hex8, spec_hex2, spec_hex4, spec_hex8,
    spec_hex_digit};
use crate::IsisError;
use vstd::prelude::*;
use vstd::slice::slice_subrange;
use vstd::string::StringExecFns;

verus! {

/// The fixed leading byte identifying the network-layer protocol as IS-IS.
pub const ISIS_PROTOCOL_DISCRIMINATOR: u8 = 0x83;

/// The PDU type value of the Level-2 Link State PDU.
pub const L2_LINK_STATE_PDU_TYPE: u8 = 20;

/// Only the low five bits of the PDU type byte carry the type; the top
/// three are reserved.
pub const PDU_TYPE_MASK: u8 = 0x1f;

/// The count of fixed-width bytes preceding the TLV region: the 8-byte
/// packet header plus the 19-byte Link State PDU trailer fields.
pub const LSP_FIXED_PREFIX_LEN: u16 = 27;

/// A PDU type tag, one byte of which the low five bits are meaningful.
#[derive(Clone, Copy, Debug, Default, PartialEq, Eq, Structural)]
pub struct IsisPacketType(pub u8);

/// The Initial Routing Protocol Discriminator byte.
#[derive(Clone, Copy, Debug, PartialEq, Eq, Structural)]
pub struct Irpd(pub u8);

/// A 32-bit LSP sequence number.
#[derive(Clone, Copy, Debug, PartialEq, Eq, Structural)]
pub struct SeqNo(pub u32);

/// A 16-bit LSP checksum, stored but not verified.
#[derive(Clone, Copy, Debug, PartialEq, Eq, Structural)]
pub struct Chksm(pub u16);

/// The fixed 8-byte packet header shared by every IS-IS PDU.
#[derive(Clone, Copy, Debug, PartialEq, Eq, Structural)]
pub struct IsisPacketHeader {
    pub irpd: Irpd,
    pub len: u8,
    pub version: u8,
    pub sysid_len: u8,
    pub pkt_type: IsisPacketType,
    pub version2: u8,
    pub reserved: u8,
    pub max_area_adr: u8,
}

/// The 8-byte LSP identifier: a 6-byte system ID read as three big-endian
/// 16-bit groups, a pseudonode ID and a fragment ID.
#[derive(Clone, Copy, Debug, PartialEq, Eq, PartialOrd, Ord, Hash)]
pub struct LspId {
    pub system_id: [u16; 3],
    pub pseudo_id: u8,
    pub frag_id: u8,
}

/// The mathematical value of an [`LspId`].
pub struct SpecLspId {
    pub system_id: Seq<u16>,
    pub pseudo_id: u8,
    pub frag_id: u8,
}

impl View for LspId {
    type V = SpecLspId;

    open spec fn view(&self) -> SpecLspId {
        SpecLspId {
            system_id: self.system_id@,
            pseudo_id: self.pseudo_id,
            frag_id: self.frag_id,
        }
    }
}

/// The textual form of an [`LspId`]: the three system-ID groups in four
/// hex digits each, the pseudonode ID in two, and the fragment ID in two,
/// as in `1234.5678.9012.00-00`.
pub open spec fn spec_lsp_id_display(id: SpecLspId) -> Seq<char>
    recommends
        id.system_id.len() == 3,
{
    spec_hex4(id.system_id[0]) + seq!['.'] + spec_hex4(id.system_id[1]) + seq!['.'] + spec_hex4(
        id.system_id[2],
    ) + seq!['.'] + spec_hex2(id.pseudo_id) + seq!['-'] + spec_hex2(id.frag_id)
}

impl LspId {
    /// Renders the identifier in its conventional dotted hex form.
    pub fn display_string(&self) -> (r: String)
        ensures
            r@ == spec_lsp_id_display(self@),
    {
        let mut out = String::new();
        push_hex4(&mut out, self.system_id[0]);
        out.append(".");
        push_hex4(&mut out, self.system_id[1]);
        out.append(".");
        push_hex4(&mut out, self.system_id[2]);
        out.append(".");
        push_hex2(&mut out, self.pseudo_id);
        out.append("-");
        push_hex2(&mut out, self.frag_id);
        proof {
            reveal_strlit(".");
            reveal_strlit("-");
            assert(out@ =~= spec_lsp_id_display(self@));
        }
        out
    }
}

/// The textual form of an [`Irpd`]: `0x` followed by the byte's hex digits
/// without a leading zero.
pub open spec fn spec_irpd_display(b: u8) -> Seq<char> {
    seq!['0', 'x'] + (if b < 16 {
        seq![spec_hex_digit(b as int)]
    } else {
        spec_hex2(b)
    })
}

impl Irpd {
    /// Renders the discriminator byte as `0x`-prefixed hex.
    pub fn display_string(&self) -> (r: String)
        ensures
            r@ == spec_irpd_display(self.0),
    {
        let mut out = String::new();
        out.append("0x");
        if self.0 < 16 {
            push_hex1(&mut out, self.0);
        } else {
            push_hex2(&mut out, self.0);
        }
        proof {
            reveal_strlit("0x");
            assert(out@ =~= spec_irpd_display(self.0));
        }
        out
    }
}

/// The textual form of a [`SeqNo`]: `0x` followed by eight hex digits.
pub open spec fn spec_seq_no_display(v: u32) -> Seq<char> {
    seq!['0', 'x'] + spec_hex8(v)
}

impl SeqNo {
    /// Renders the sequence number as `0x`-prefixed, zero-padded hex.
    pub fn display_string(&self) -> (r: String)
        ensures
            r@ == spec_seq_no_display(self.0),
    {
        let mut out = String::new();
        out.append("0x");
        push_hex8(&mut out, self.0);
        proof {
            reveal_strlit("0x");
            assert(out@ =~= spec_seq_no_display(self.0));
        }
        out
    }
}

/// The textual form of a [`Chksm`]: `0x` followed by four hex digits.
pub open spec fn spec_checksum_display(v: u16) -> Seq<char> {
    seq!['0', 'x'] + spec_hex4(v)
}

impl Chksm {
    /// Renders the checksum as `0x`-prefixed, zero-padded hex.
    pub fn display_string(&self) -> (r: String)
        ensures
            r@ == spec_checksum_display(self.0),
    {
        let mut out = String::new();
        out.append("0x");
        push_hex4(&mut out, self.0);
        proof {
            reveal_strlit("0x");
            assert(out@ =~= spec_checksum_display(self.0));
        }
        out
    }
}

/// A decoded Level-2 Link State PDU. The TLV field is absent, not an empty
/// list, when the declared PDU length leaves no TLV region.
#[derive(Clone, Debug)]
pub struct IsisL2LinkStatePacket {
    pub header: IsisPacketHeader,
    pub pdu_length: u16,
    pub remaining_life: u16,
    pub lsp_id: LspId,
    pub seq_no: SeqNo,
    pub checksum: Chksm,
    pub type_block: u8,
    pub tlvs: Option<Vec<IsisTlv>>,
}

/// The mathematical value of an [`IsisL2LinkStatePacket`].
pub struct SpecL2LinkStatePacket {
    pub header: IsisPacketHeader,
    pub pdu_length: u16,
    pub remaining_life: u16,
    pub lsp_id: SpecLspId,
    pub seq_no: SeqNo,
    pub checksum: Chksm,
    pub type_block: u8,
    pub tlvs: Option<Seq<SpecIsisTlv>>,
}

impl View for IsisL2LinkStatePacket {
    type V = SpecL2LinkStatePacket;

    open spec fn view(&self) -> SpecL2LinkStatePacket {
        SpecL2LinkStatePacket {
            header: self.header,
            pdu_length: self.pdu_length,
            remaining_life: self.remaining_life,
            lsp_id: self.lsp_id@,
            seq_no: self.seq_no,
            checksum: self.checksum,
            type_block: self.type_block,
            tlvs: match self.tlvs {
                Some(v) => Some(spec_tlv_views(v@)),
                None => None,
            },
        }
    }
}

/// Skips one TLV of any type: the 2-byte header is read and `len` further
/// payload bytes are consumed, producing an `Unsupported` marker.
pub fn skipper(input: &[u8]) -> (r: Result<(&[u8], IsisTlv), IsisError>)
    ensures
        input@.len() >= 2 && input@.len() >= 2 + input@[1] ==> (r matches Ok((rest, t))
            && t is Unsupported && rest@ == input@.skip(2 + input@[1] as int)),
        !(input@.len() >= 2 && input@.len() >= 2 + input@[1]) ==> (r matches Err(e)
            && e == IsisError::TruncatedInput),
{
    if input.len() < 2 {
        return Err(IsisError::TruncatedInput);
    }
    let len = input[1];
    if input.len() - 2 < len as usize {
        return Err(IsisError::TruncatedInput);
    }
    let rest = slice_subrange(input, 2 + len as usize, input.len());
    Ok((rest, IsisTlv::Unsupported))
}

/// The fixed 8-byte packet header decoded from the front of `s`.
pub open spec fn spec_parse_packet_header(s: Seq<u8>) -> IsisPacketHeader
    recommends
        s.len() >= 8,
{
    IsisPacketHeader {
        irpd: Irpd(s[0]),
        len: s[1],
        version: s[2],
        sysid_len: s[3],
        pkt_type: IsisPacketType(s[4]),
        version2: s[5],
        reserved: s[6],
        max_area_adr: s[7],
    }
}

/// The LSP identifier decoded from the eight bytes of `s` starting at `i`.
pub open spec fn spec_parse_lsp_id(s: Seq<u8>, i: int) -> SpecLspId
    recommends
        0 <= i,
        i + 8 <= s.len(),
{
    SpecLspId {
        system_id: seq![spec_be_u16(s, i), spec_be_u16(s, i + 2), spec_be_u16(s, i + 4)],
        pseudo_id: s[i + 6],
        frag_id: s[i + 7],
    }
}

/// The Level-2 Link State PDU decoded from the front of `s`, with the count
/// of bytes it consumes, or the failure that stops it.
///
/// The 8-byte header is decoded first and its type byte re-verified against
/// the Level-2 LSP type. The declared PDU length then fixes the TLV region:
/// a value under the 27-byte fixed prefix is malformed, a value equal to it
/// leaves the TLV field absent, and a larger one demands exactly that many
/// region bytes, decoded as a TLV sequence.
pub open spec fn spec_parse_lsp(s: Seq<u8>) -> Result<(SpecL2LinkStatePacket, int), IsisError> {
    if s.len() < 8 {
        Err(IsisError::TruncatedInput)
    } else if s[4] != L2_LINK_STATE_PDU_TYPE {
        Err(IsisError::VerifyFailed)
    } else if s.len() < 27 {
        Err(IsisError::TruncatedInput)
    } else {
        let pdu_length = spec_be_u16(s, 8);
        if pdu_length < LSP_FIXED_PREFIX_LEN {
            Err(IsisError::MalformedLength)
        } else if pdu_length == LSP_FIXED_PREFIX_LEN {
            Ok((spec_lsp_value(s, None), 27))
        } else if s.len() < pdu_length {
            Err(IsisError::TruncatedInput)
        } else {
            Ok(
                (
                    spec_lsp_value(
                        s,
                        Some(spec_parse_tlvs(s.subrange(27, pdu_length as int))),
                    ),
                    pdu_length as int,
                ),
            )
        }
    }
}

/// The fixed-width fields of the PDU, assembled with the given TLV field.
pub open spec fn spec_lsp_value(s: Seq<u8>, tlvs: Option<Seq<SpecIsisTlv>>)
    -> SpecL2LinkStatePacket
    recommends
        s.len() >= 27,
{
    SpecL2LinkStatePacket {
        header: spec_parse_packet_header(s),
        pdu_length: spec_be_u16(s, 8),
        remaining_life: spec_be_u16(s, 10),
        lsp_id: spec_parse_lsp_id(s, 12),
        seq_no: SeqNo(spec_be_u32(s, 20)),
        checksum: Chksm(spec_be_u16(s, 24)),
        type_block: s[26],
        tlvs: tlvs,
    }
}

/// The byte encoding of the PDU's fixed-width portion: the 8-byte packet
/// header followed by the 19 trailer bytes before the TLV region.
pub open spec fn spec_encode_lsp_fixed(p: SpecL2LinkStatePacket) -> Seq<u8>
    recommends
        p.lsp_id.system_id.len() == 3,
{
    seq![
        p.header.irpd.0,
        p.header.len,
        p.header.version,
        p.header.sysid_len,
        p.header.pkt_type.0,
        p.header.version2,
        p.header.reserved,
        p.header.max_area_adr,
    ] + spec_be_u16_bytes(p.pdu_length) + spec_be_u16_bytes(p.remaining_life) + spec_be_u16_bytes(
        p.lsp_id.system_id[0],
    ) + spec_be_u16_bytes(p.lsp_id.system_id[1]) + spec_be_u16_bytes(p.lsp_id.system_id[2]) + seq![
        p.lsp_id.pseudo_id,
        p.lsp_id.frag_id,
    ] + spec_be_u32_bytes(p.seq_no.0) + spec_be_u16_bytes(p.checksum.0) + seq![p.type_block]
}

/// Decoding a Level-2 Link State PDU and re-encoding its fixed-width
/// fields reproduces exactly the 27-byte prefix the PDU consumed them
/// from.
pub proof fn lemma_lsp_fixed_round_trip(s: Seq<u8>, p: SpecL2LinkStatePacket, n: int)
    requires
        spec_parse_lsp(s) == Ok::<_, IsisError>((p, n)),
    ensures
        spec_encode_lsp_fixed(p) == s.take(27),
{
    lemma_be_u16_round_trip(s, 8);
    lemma_be_u16_round_trip(s, 10);
    lemma_be_u16_round_trip(s, 12);
    lemma_be_u16_round_trip(s, 14);
    lemma_be_u16_round_trip(s, 16);
    lemma_be_u32_round_trip(s, 20);
    lemma_be_u16_round_trip(s, 24);
    assert(spec_encode_lsp_fixed(p) =~= s.take(27));
}

impl IsisL2LinkStatePacket {
    /// Decodes one Level-2 Link State PDU from the front of `input`,
    /// returning the unconsumed remainder beside it.
    pub fn parse(input: &[u8]) -> (r: Result<(&[u8], Self), IsisError>)
        ensures
            match spec_parse_lsp(input@) {
                Ok((p, n)) => r matches Ok((rest, pkt)) && pkt@ == p && rest@ == input@.skip(n),
                Err(e) => r matches Err(e2) && e2 == e,
            },
    {
        if input.len() < 8 {
            return Err(IsisError::TruncatedInput);
        }
        let header = IsisPacketHeader {
            irpd: Irpd(input[0]),
            len: input[1],
            version: input[2],
            sysid_len: input[3],
            pkt_type: IsisPacketType(input[4]),
            version2: input[5],
            reserved: input[6],
            max_area_adr: input[7],
        };
        if header.pkt_type.0 != L2_LINK_STATE_PDU_TYPE {
            // Defensive re-verification of the type the dispatcher selected on.
            return Err(IsisError::VerifyFailed);
        }
        if input.len() < 27 {
            return Err(IsisError::TruncatedInput);
        }
        let pdu_length = read_be_u16(input, 8);
        let remaining_life = read_be_u16(input, 10);
        let lsp_id = LspId {
            system_id: [read_be_u16(input, 12), read_be_u16(input, 14), read_be_u16(input, 16)],
            pseudo_id: input[18],
            frag_id: input[19],
        };
        let seq_no = SeqNo(read_be_u32(input, 20));
        let checksum = Chksm(read_be_u16(input, 24));
        let type_block = input[26];
        proof {
            assert(lsp_id@.system_id =~= spec_parse_lsp_id(input@, 12).system_id);
        }
        if pdu_length < LSP_FIXED_PREFIX_LEN {
            return Err(IsisError::MalformedLength);
        }
        if pdu_length == LSP_FIXED_PREFIX_LEN {
            let rest = slice_subrange(input, 27, input.len());
            return Ok(
                (
                    rest,
                    IsisL2LinkStatePacket {
                        header,
                        pdu_length,
                        remaining_life,
                        lsp_id,
                        seq_no,
                        checksum,
                        type_block,
                        tlvs: None,
                    },
                ),
            );
        }
        let tlv_len: u16 = pdu_length - LSP_FIXED_PREFIX_LEN;
        let tail = slice_subrange(input, 27, input.len());
        match parse_isis_tlvs(tlv_len, tail) {
            Ok((rest, tlvs)) => {
                proof {
                    assert(tail@.take(tlv_len as int) =~= input@.subrange(27, pdu_length as int));
                    assert(tail@.skip(tlv_len as int) =~= input@.skip(pdu_length as int));
                }
                Ok(
                    (
                        rest,
                        IsisL2LinkStatePacket {
                            header,
                            pdu_length,
                            remaining_life,
                            lsp_id,
                            seq_no,
                            checksum,
                            type_block,
                            tlvs: Some(tlvs),
                        },
                    ),
                )
            },
            Err(e) => Err(e),
        }
    }
}

} // verus!
