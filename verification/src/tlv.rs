//! TLV records of the Link State PDU body.
//!
//! The one recognized kind is Extended IS Reachability, a list of Neighbor
//! records each optionally followed by its own bounded Sub-TLV region. Any
//! other type tag is skipped generically and reported as `Unsupported`.

use crate::reader::split_region;
use crate::subtlv::{spec_parse_sub_tlvs, IsisSubTlv, parse_isis_subtlvs};
use crate::IsisError;
use vstd::prelude::*;
use vstd::slice::slice_subrange;

verus! {

/// Type tag of the Extended IS Reachability TLV.
pub const TLV_EXTENDED_IS_REACHABILITY: u8 = 22;

/// A TLV type tag, one byte.
#[derive(Clone, Copy, Debug, Default, PartialEq, Eq, Structural)]
pub struct IsisTlvType(pub u8);

/// The common 2-byte record header: a type tag and a declared payload length.
#[derive(Clone, Copy, Debug)]
pub struct IsisGenericTlvHeader<T> {
    pub tlv_type: T,
    pub len: u8,
}

/// The header of a TLV record.
pub type IsisTlvHeader = IsisGenericTlvHeader<IsisTlvType>;

/// One IS neighbor entry of an Extended IS Reachability TLV: a 7-byte
/// neighbor ID, a 3-byte metric, and a 1-byte Sub-TLV region length,
/// followed by that many bytes of Sub-TLV records when it is non-zero.
#[derive(Clone, Debug)]
pub struct IsNeighbor {
    pub is_neighbor_id: [u8; 7],
    pub metric: [u8; 3],
    pub sub_tlvs_len: u8,
    pub sub_tlvs: Option<Vec<IsisSubTlv>>,
}

/// The mathematical value of an [`IsNeighbor`].
pub struct SpecIsNeighbor {
    pub is_neighbor_id: Seq<u8>,
    pub metric: Seq<u8>,
    pub sub_tlvs_len: u8,
    pub sub_tlvs: Option<Seq<IsisSubTlv>>,
}

impl View for IsNeighbor {
    type V = SpecIsNeighbor;

    open spec fn view(&self) -> SpecIsNeighbor {
        SpecIsNeighbor {
            is_neighbor_id: self.is_neighbor_id@,
            metric: self.metric@,
            sub_tlvs_len: self.sub_tlvs_len,
            sub_tlvs: match self.sub_tlvs {
                Some(v) => Some(v@),
                None => None,
            },
        }
    }
}

/// The Extended IS Reachability TLV: its 2-byte header and the Neighbor
/// records decoded from exactly `header.len` payload bytes.
#[derive(Clone, Debug)]
pub struct IsisTlvExtendedIsReachability {
    pub header: IsisTlvHeader,
    pub neighbors: Vec<IsNeighbor>,
}

/// One decoded TLV record. Unrecognized tags are a first-class outcome, not
/// an error: their bytes are consumed and discarded.
#[derive(Clone, Debug)]
pub enum IsisTlv {
    TlvExtendedIsReachability(IsisTlvExtendedIsReachability),
    Unsupported,
}

/// The views of a sequence of Neighbor records.
pub open spec fn spec_neighbor_views(v: Seq<IsNeighbor>) -> Seq<SpecIsNeighbor> {
    v.map_values(|n: IsNeighbor| n@)
}

/// The mathematical value of an [`IsisTlvExtendedIsReachability`].
pub struct SpecIsisTlvExtendedIsReachability {
    pub header: IsisTlvHeader,
    pub neighbors: Seq<SpecIsNeighbor>,
}

impl View for IsisTlvExtendedIsReachability {
    type V = SpecIsisTlvExtendedIsReachability;

    open spec fn view(&self) -> SpecIsisTlvExtendedIsReachability {
        SpecIsisTlvExtendedIsReachability {
            header: self.header,
            neighbors: spec_neighbor_views(self.neighbors@),
        }
    }
}

/// The mathematical value of an [`IsisTlv`].
pub enum SpecIsisTlv {
    TlvExtendedIsReachability(SpecIsisTlvExtendedIsReachability),
    Unsupported,
}

impl View for IsisTlv {
    type V = SpecIsisTlv;

    open spec fn view(&self) -> SpecIsisTlv {
        match self {
            IsisTlv::TlvExtendedIsReachability(t) => SpecIsisTlv::TlvExtendedIsReachability(t@),
            IsisTlv::Unsupported => SpecIsisTlv::Unsupported,
        }
    }
}

/// The views of a sequence of TLV records.
pub open spec fn spec_tlv_views(v: Seq<IsisTlv>) -> Seq<SpecIsisTlv> {
    v.map_values(|t: IsisTlv| t@)
}

/// One Neighbor record decoded from the front of `s`: the record and the
/// count of bytes it consumes, or `None` if no complete record starts `s`.
///
/// The fixed prefix is eleven bytes; when the Sub-TLV length byte is
/// non-zero, that many further bytes form the record's bounded Sub-TLV
/// region, and the region must be complete for the record to decode.
pub open spec fn spec_parse_neighbor(s: Seq<u8>) -> Option<(SpecIsNeighbor, int)> {
    if s.len() < 11 {
        None
    } else {
        let sl = s[10] as int;
        if sl == 0 {
            Some(
                (
                    SpecIsNeighbor {
                        is_neighbor_id: s.subrange(0, 7),
                        metric: s.subrange(7, 10),
                        sub_tlvs_len: s[10],
                        sub_tlvs: None,
                    },
                    11,
                ),
            )
        } else if s.len() >= 11 + sl {
            Some(
                (
                    SpecIsNeighbor {
                        is_neighbor_id: s.subrange(0, 7),
                        metric: s.subrange(7, 10),
                        sub_tlvs_len: s[10],
                        sub_tlvs: Some(spec_parse_sub_tlvs(s.subrange(11, 11 + sl))),
                    },
                    11 + sl,
                ),
            )
        } else {
            None
        }
    }
}

/// The Neighbor records of a bounded region, decoded front to back until
/// the region is exhausted or no complete record remains; a trailing
/// remainder that forms no complete record is dropped, not an error.
pub open spec fn spec_parse_neighbors(s: Seq<u8>) -> Seq<SpecIsNeighbor>
    decreases s.len(),
{
    match spec_parse_neighbor(s) {
        Some((sn, n)) => if 0 < n <= s.len() {
            seq![sn] + spec_parse_neighbors(s.skip(n))
        } else {
            seq![sn]
        },
        None => Seq::empty(),
    }
}

/// The total count of bytes consumed by the records of
/// [`spec_parse_neighbors`].
pub open spec fn spec_neighbors_consumed(s: Seq<u8>) -> int
    decreases s.len(),
{
    match spec_parse_neighbor(s) {
        Some((sn, n)) => if 0 < n <= s.len() {
            n + spec_neighbors_consumed(s.skip(n))
        } else {
            n
        },
        None => 0,
    }
}

/// The decoded records of a Neighbor region never consume more bytes than
/// the region holds; whatever remains is dropped rather than reported as an
/// error.
pub proof fn lemma_neighbors_consumed_le_region(s: Seq<u8>)
    ensures
        0 <= spec_neighbors_consumed(s) <= s.len(),
    decreases s.len(),
{
    match spec_parse_neighbor(s) {
        Some((sn, n)) => {
            if 0 < n <= s.len() {
                lemma_neighbors_consumed_le_region(s.skip(n));
            }
        },
        None => {},
    }
}

/// The byte encoding of a Neighbor record's fixed-width portion: the
/// 7-byte neighbor ID, the 3-byte metric, and the Sub-TLV length byte.
pub open spec fn spec_encode_neighbor_fixed(sn: SpecIsNeighbor) -> Seq<u8> {
    sn.is_neighbor_id + sn.metric + seq![sn.sub_tlvs_len]
}

/// Decoding a Neighbor record and re-encoding its fixed-width fields
/// reproduces exactly the first eleven bytes the record consumed.
pub proof fn lemma_neighbor_fixed_round_trip(s: Seq<u8>, sn: SpecIsNeighbor, n: int)
    requires
        spec_parse_neighbor(s) == Some((sn, n)),
    ensures
        spec_encode_neighbor_fixed(sn) == s.take(11),
{
    assert(spec_encode_neighbor_fixed(sn) =~= s.take(11));
}

/// Decoding an Extended IS Reachability TLV and re-encoding its header
/// reproduces exactly the two header bytes, and the record consumes
/// exactly the header plus its declared payload length.
pub proof fn lemma_ext_reach_header_round_trip(
    s: Seq<u8>,
    t: SpecIsisTlvExtendedIsReachability,
    n: int,
)
    requires
        spec_parse_ext_reach(s) == Ok::<_, IsisError>((t, n)),
    ensures
        seq![t.header.tlv_type.0, t.header.len] == s.take(2),
        n == 2 + t.header.len,
{
    assert(seq![t.header.tlv_type.0, t.header.len] =~= s.take(2));
}

/// Decodes one Neighbor record at byte offset `pos` of `input`, returning
/// the record and the offset just past it.
pub fn parse_one_neighbor(input: &[u8], pos: usize) -> (r: Result<(IsNeighbor, usize), IsisError>)
    requires
        pos <= input@.len(),
    ensures
        match spec_parse_neighbor(input@.skip(pos as int)) {
            Some((sn, n)) => r matches Ok((v, next)) && v@ == sn && next == pos + n,
            None => r matches Err(e) && e == IsisError::TruncatedInput,
        },
{
    let ghost s = input@.skip(pos as int);
    if input.len() - pos < 11 {
        return Err(IsisError::TruncatedInput);
    }
    let is_neighbor_id: [u8; 7] = [
        input[pos],
        input[pos + 1],
        input[pos + 2],
        input[pos + 3],
        input[pos + 4],
        input[pos + 5],
        input[pos + 6],
    ];
    let metric: [u8; 3] = [input[pos + 7], input[pos + 8], input[pos + 9]];
    let sub_tlvs_len = input[pos + 10];
    proof {
        assert(is_neighbor_id@ =~= s.subrange(0, 7));
        assert(metric@ =~= s.subrange(7, 10));
        assert(sub_tlvs_len == s[10]);
    }
    if sub_tlvs_len == 0 {
        Ok(
            (
                IsNeighbor { is_neighbor_id, metric, sub_tlvs_len, sub_tlvs: None },
                pos + 11,
            ),
        )
    } else {
        let tail = slice_subrange(input, pos + 11, input.len());
        match parse_isis_subtlvs(sub_tlvs_len, tail) {
            Ok((_rest, subs)) => {
                proof {
                    assert(tail@.take(sub_tlvs_len as int) =~= s.subrange(
                        11,
                        11 + sub_tlvs_len as int,
                    ));
                }
                Ok(
                    (
                        IsNeighbor { is_neighbor_id, metric, sub_tlvs_len, sub_tlvs: Some(subs) },
                        pos + 11 + sub_tlvs_len as usize,
                    ),
                )
            },
            Err(e) => Err(e),
        }
    }
}

impl IsNeighbor {
    /// Decodes one Neighbor record from the front of `input`, returning the
    /// unconsumed remainder beside it.
    pub fn parse(input: &[u8]) -> (r: Result<(&[u8], IsNeighbor), IsisError>)
        ensures
            match spec_parse_neighbor(input@) {
                Some((sn, n)) => r matches Ok((rest, v)) && v@ == sn && rest@ == input@.skip(n),
                None => r matches Err(e) && e == IsisError::TruncatedInput,
            },
    {
        proof {
            assert(input@.skip(0) =~= input@);
        }
        match parse_one_neighbor(input, 0) {
            Ok((v, next)) => {
                let rest = slice_subrange(input, next, input.len());
                Ok((rest, v))
            },
            Err(e) => Err(e),
        }
    }
}

/// Decodes a whole Neighbor region front to back, dropping any trailing
/// remainder that forms no complete record.
fn parse_neighbor_sequence(region: &[u8]) -> (v: Vec<IsNeighbor>)
    ensures
        spec_neighbor_views(v@) == spec_parse_neighbors(region@),
{
    let mut v: Vec<IsNeighbor> = Vec::new();
    let mut pos: usize = 0;
    proof {
        assert(region@.skip(0) =~= region@);
        assert(spec_neighbor_views(v@) + spec_parse_neighbors(region@) =~= spec_parse_neighbors(
            region@,
        ));
    }
    loop
        invariant
            pos <= region@.len(),
            spec_parse_neighbors(region@) == spec_neighbor_views(v@) + spec_parse_neighbors(
                region@.skip(pos as int),
            ),
        ensures
            spec_neighbor_views(v@) == spec_parse_neighbors(region@),
        decreases region@.len() - pos,
    {
        match parse_one_neighbor(region, pos) {
            Ok((nb, next)) => {
                proof {
                    let s = region@.skip(pos as int);
                    assert(s.skip(next - pos) =~= region@.skip(next as int));
                    assert(spec_parse_neighbors(s) == seq![nb@] + spec_parse_neighbors(
                        region@.skip(next as int),
                    ));
                    assert(spec_neighbor_views(v@) + spec_parse_neighbors(s)
                        == spec_neighbor_views(v@.push(nb)) + spec_parse_neighbors(
                        region@.skip(next as int),
                    )) by {
                        assert(spec_neighbor_views(v@.push(nb)) =~= spec_neighbor_views(v@).push(
                            nb@,
                        ));
                        assert(spec_neighbor_views(v@) + (seq![nb@] + spec_parse_neighbors(
                            region@.skip(next as int),
                        )) =~= spec_neighbor_views(v@).push(nb@) + spec_parse_neighbors(
                            region@.skip(next as int),
                        ));
                    }
                }
                v.push(nb);
                pos = next;
            },
            Err(_) => {
                proof {
                    assert(spec_parse_neighbors(region@.skip(pos as int))
                        =~= Seq::<SpecIsNeighbor>::empty());
                    assert(spec_neighbor_views(v@) + Seq::<SpecIsNeighbor>::empty()
                        =~= spec_neighbor_views(v@));
                }
                break ;
            },
        }
    }
    v
}

/// Decodes the Neighbor region of an Extended IS Reachability TLV.
///
/// The first `len` bytes of `input` are the bounded region; the records
/// decoded from it are returned together with the remainder of `input`
/// after the region. No inner record can consume bytes past the region,
/// whatever its own length fields claim.
pub fn parse_is_neighbors<'a>(len: u8, input: &'a [u8]) -> (r: Result<
    (&'a [u8], Vec<IsNeighbor>),
    IsisError,
>)
    ensures
        len as int <= input@.len() ==> (r matches Ok((rest, v)) && rest@ == input@.skip(len as int)
            && spec_neighbor_views(v@) == spec_parse_neighbors(input@.take(len as int))),
        len as int > input@.len() ==> (r matches Err(e) && e == IsisError::TruncatedInput),
{
    match split_region(input, len as usize) {
        Ok((region, rest)) => {
            let v = parse_neighbor_sequence(region);
            Ok((rest, v))
        },
        Err(e) => Err(e),
    }
}

/// The IPv4 interface addresses carried by a Sub-TLV sequence, in order.
pub open spec fn spec_interface_addrs(subs: Seq<IsisSubTlv>) -> Seq<u32>
    decreases subs.len(),
{
    if subs.len() == 0 {
        Seq::empty()
    } else {
        spec_interface_addrs(subs.drop_last()) + (match subs.last() {
            IsisSubTlv::Ipv4InterfaceAddress(t) => seq![t.addr],
            _ => Seq::empty(),
        })
    }
}

impl SpecIsNeighbor {
    /// The topology-change-relevant equality rule over two decoded Neighbor
    /// records.
    ///
    /// Neighbor ID and metric must match byte for byte. When both records
    /// lack a Sub-TLV region that suffices. When both have one, each side
    /// must carry exactly one IPv4 interface address and the two addresses
    /// must be equal; IPv4 neighbor addresses are deliberately ignored, as a
    /// readvertised peer address does not by itself mean the adjacency
    /// changed. Every other combination compares unequal.
    pub open spec fn equals(self, other: SpecIsNeighbor) -> bool {
        &&& self.is_neighbor_id == other.is_neighbor_id
        &&& self.metric == other.metric
        &&& match (self.sub_tlvs, other.sub_tlvs) {
            (None, None) => true,
            (Some(x), Some(y)) => {
                let xa = spec_interface_addrs(x);
                let ya = spec_interface_addrs(y);
                xa.len() == 1 && ya.len() == 1 && xa[0] == ya[0]
            },
            _ => false,
        }
    }
}

/// Compares two 7-byte neighbor identifiers.
fn bytes7_eq(a: &[u8; 7], b: &[u8; 7]) -> (r: bool)
    ensures
        r == (a@ == b@),
{
    let r = a[0] == b[0] && a[1] == b[1] && a[2] == b[2] && a[3] == b[3] && a[4] == b[4] && a[5]
        == b[5] && a[6] == b[6];
    proof {
        if r {
            assert(a@ =~= b@);
        }
    }
    r
}

/// Compares two 3-byte metrics.
fn bytes3_eq(a: &[u8; 3], b: &[u8; 3]) -> (r: bool)
    ensures
        r == (a@ == b@),
{
    let r = a[0] == b[0] && a[1] == b[1] && a[2] == b[2];
    proof {
        if r {
            assert(a@ =~= b@);
        }
    }
    r
}

/// Collects the IPv4 interface addresses of a Sub-TLV list, in order.
fn interface_addrs(subs: &Vec<IsisSubTlv>) -> (v: Vec<u32>)
    ensures
        v@ == spec_interface_addrs(subs@),
{
    let mut v: Vec<u32> = Vec::new();
    let mut i: usize = 0;
    proof {
        assert(subs@.take(0) =~= Seq::<IsisSubTlv>::empty());
        assert(v@ =~= spec_interface_addrs(subs@.take(0)));
    }
    while i < subs.len()
        invariant
            i <= subs@.len(),
            v@ == spec_interface_addrs(subs@.take(i as int)),
        decreases subs@.len() - i,
    {
        proof {
            assert(subs@.take(i + 1).drop_last() =~= subs@.take(i as int));
            assert(subs@.take(i + 1).last() == subs@[i as int]);
        }
        match &subs[i] {
            IsisSubTlv::Ipv4InterfaceAddress(t) => {
                v.push(t.addr);
                proof {
                    assert(v@ =~= spec_interface_addrs(subs@.take(i + 1)));
                }
            },
            _ => {
                proof {
                    assert(v@ =~= spec_interface_addrs(subs@.take(i + 1)));
                }
            },
        }
        i = i + 1;
    }
    proof {
        assert(subs@.take(subs@.len() as int) =~= subs@);
    }
    v
}

impl IsNeighbor {
    /// Decides whether two decoded Neighbor records represent the same
    /// adjacency under the topology-change-relevant rule of
    /// [`SpecIsNeighbor::equals`].
    pub fn equals(&self, other: &IsNeighbor) -> (r: bool)
        ensures
            r == self@.equals(other@),
    {
        if !bytes7_eq(&self.is_neighbor_id, &other.is_neighbor_id) {
            return false;
        }
        if !bytes3_eq(&self.metric, &other.metric) {
            return false;
        }
        match (&self.sub_tlvs, &other.sub_tlvs) {
            (None, None) => true,
            (Some(x), Some(y)) => {
                let xa = interface_addrs(x);
                let ya = interface_addrs(y);
                if xa.len() == 1 && ya.len() == 1 {
                    xa[0] == ya[0]
                } else {
                    false
                }
            },
            _ => false,
        }
    }
}

/// The equality rule is reflexive on every record it can hold of itself:
/// one whose Sub-TLV region is absent, or present carrying exactly one
/// IPv4 interface address. (A record whose region is present with any
/// other interface-address count compares unequal even to itself.)
pub proof fn lemma_equals_reflexive(a: SpecIsNeighbor)
    requires
        a.sub_tlvs matches Some(x) ==> spec_interface_addrs(x).len() == 1,
    ensures
        a.equals(a),
{
}

/// The equality rule is symmetric for all Neighbor pairs. It is not
/// generally transitive, so no such lemma is stated.
pub proof fn lemma_equals_symmetric(a: SpecIsNeighbor, b: SpecIsNeighbor)
    ensures
        a.equals(b) == b.equals(a),
{
}

/// The Extended IS Reachability record decoded from the front of `s`, with
/// the count of bytes it consumes: the 2-byte header, whose type field is
/// re-verified against the tag used to select this decoder, followed by a
/// Neighbor region of exactly `header.len` bytes.
pub open spec fn spec_parse_ext_reach(s: Seq<u8>) -> Result<
    (SpecIsisTlvExtendedIsReachability, int),
    IsisError,
> {
    if s.len() < 2 {
        Err(IsisError::TruncatedInput)
    } else if s[0] != TLV_EXTENDED_IS_REACHABILITY {
        Err(IsisError::VerifyFailed)
    } else if s.len() < 2 + s[1] {
        Err(IsisError::TruncatedInput)
    } else {
        Ok(
            (
                SpecIsisTlvExtendedIsReachability {
                    header: IsisGenericTlvHeader { tlv_type: IsisTlvType(s[0]), len: s[1] },
                    neighbors: spec_parse_neighbors(s.subrange(2, 2 + s[1])),
                },
                2 + s[1],
            ),
        )
    }
}

/// Decodes one Extended IS Reachability record at byte offset `pos` of
/// `input`, returning the record and the offset just past it.
fn parse_ext_reach_at(input: &[u8], pos: usize) -> (r: Result<
    (IsisTlvExtendedIsReachability, usize),
    IsisError,
>)
    requires
        pos <= input@.len(),
    ensures
        match spec_parse_ext_reach(input@.skip(pos as int)) {
            Ok((t, n)) => r matches Ok((v, next)) && v@ == t && next == pos + n,
            Err(e) => r matches Err(e2) && e2 == e,
        },
{
    let ghost s = input@.skip(pos as int);
    if input.len() - pos < 2 {
        return Err(IsisError::TruncatedInput);
    }
    let tag = input[pos];
    let len = input[pos + 1];
    if tag != TLV_EXTENDED_IS_REACHABILITY {
        // Defensive re-verification of the tag the dispatcher selected on.
        return Err(IsisError::VerifyFailed);
    }
    let tail = slice_subrange(input, pos + 2, input.len());
    match parse_is_neighbors(len, tail) {
        Ok((_rest, neighbors)) => {
            proof {
                assert(tail@.take(len as int) =~= s.subrange(2, 2 + len as int));
            }
            Ok(
                (
                    IsisTlvExtendedIsReachability {
                        header: IsisGenericTlvHeader { tlv_type: IsisTlvType(tag), len: len },
                        neighbors,
                    },
                    pos + 2 + len as usize,
                ),
            )
        },
        Err(e) => Err(e),
    }
}

impl IsisTlvExtendedIsReachability {
    /// Decodes one Extended IS Reachability TLV from the front of `input`,
    /// returning the unconsumed remainder beside it.
    pub fn parse(input: &[u8]) -> (r: Result<(&[u8], Self), IsisError>)
        ensures
            match spec_parse_ext_reach(input@) {
                Ok((t, n)) => r matches Ok((rest, v)) && v@ == t && rest@ == input@.skip(n),
                Err(e) => r matches Err(e2) && e2 == e,
            },
    {
        proof {
            assert(input@.skip(0) =~= input@);
        }
        match parse_ext_reach_at(input, 0) {
            Ok((v, next)) => {
                let rest = slice_subrange(input, next, input.len());
                Ok((rest, v))
            },
            Err(e) => Err(e),
        }
    }
}

/// One TLV decoded from the front of `s`: the record and the count of bytes
/// it consumes, or `None` if no complete record starts `s`.
///
/// The Extended IS Reachability tag selects its record decoder; any other
/// tag is skipped generically, consuming the header plus the declared
/// payload length.
pub open spec fn spec_parse_tlv(s: Seq<u8>) -> Option<(SpecIsisTlv, int)> {
    if s.len() < 2 {
        None
    } else if s[0] == TLV_EXTENDED_IS_REACHABILITY {
        match spec_parse_ext_reach(s) {
            Ok((t, n)) => Some((SpecIsisTlv::TlvExtendedIsReachability(t), n)),
            Err(_) => None,
        }
    } else {
        if s.len() >= 2 + s[1] {
            Some((SpecIsisTlv::Unsupported, 2 + s[1]))
        } else {
            None
        }
    }
}

/// The TLV records of a bounded region, decoded front to back until the
/// region is exhausted or no complete record remains; a trailing remainder
/// that forms no complete record is dropped, not an error.
pub open spec fn spec_parse_tlvs(s: Seq<u8>) -> Seq<SpecIsisTlv>
    decreases s.len(),
{
    match spec_parse_tlv(s) {
        Some((st, n)) => if 0 < n <= s.len() {
            seq![st] + spec_parse_tlvs(s.skip(n))
        } else {
            seq![st]
        },
        None => Seq::empty(),
    }
}

/// The total count of bytes consumed by the records of [`spec_parse_tlvs`].
pub open spec fn spec_tlvs_consumed(s: Seq<u8>) -> int
    decreases s.len(),
{
    match spec_parse_tlv(s) {
        Some((st, n)) => if 0 < n <= s.len() {
            n + spec_tlvs_consumed(s.skip(n))
        } else {
            n
        },
        None => 0,
    }
}

/// The decoded records of a TLV region never consume more bytes than the
/// region holds; whatever remains is dropped rather than reported as an
/// error.
pub proof fn lemma_tlvs_consumed_le_region(s: Seq<u8>)
    ensures
        0 <= spec_tlvs_consumed(s) <= s.len(),
    decreases s.len(),
{
    match spec_parse_tlv(s) {
        Some((st, n)) => {
            if 0 < n <= s.len() {
                lemma_tlvs_consumed_le_region(s.skip(n));
            }
        },
        None => {},
    }
}

/// Decodes one TLV at byte offset `pos` of `input`, returning the record
/// and the offset just past it.
pub fn parse_one_tlv(input: &[u8], pos: usize) -> (r: Result<(IsisTlv, usize), IsisError>)
    requires
        pos <= input@.len(),
    ensures
        match spec_parse_tlv(input@.skip(pos as int)) {
            Some((st, n)) => r matches Ok((v, next)) && v@ == st && next == pos + n,
            None => r matches Err(e) && e == IsisError::TruncatedInput,
        },
{
    let ghost s = input@.skip(pos as int);
    if input.len() - pos < 2 {
        return Err(IsisError::TruncatedInput);
    }
    let tag = input[pos];
    let len = input[pos + 1];
    if tag == TLV_EXTENDED_IS_REACHABILITY {
        match parse_ext_reach_at(input, pos) {
            Ok((t, next)) => Ok((IsisTlv::TlvExtendedIsReachability(t), next)),
            Err(e) => Err(e),
        }
    } else {
        if input.len() - pos - 2 < len as usize {
            return Err(IsisError::TruncatedInput);
        }
        Ok((IsisTlv::Unsupported, pos + 2 + len as usize))
    }
}

/// Decodes a whole TLV region front to back, dropping any trailing
/// remainder that forms no complete record.
fn parse_tlv_sequence(region: &[u8]) -> (v: Vec<IsisTlv>)
    ensures
        spec_tlv_views(v@) == spec_parse_tlvs(region@),
{
    let mut v: Vec<IsisTlv> = Vec::new();
    let mut pos: usize = 0;
    proof {
        assert(region@.skip(0) =~= region@);
        assert(spec_tlv_views(v@) + spec_parse_tlvs(region@) =~= spec_parse_tlvs(region@));
    }
    loop
        invariant
            pos <= region@.len(),
            spec_parse_tlvs(region@) == spec_tlv_views(v@) + spec_parse_tlvs(
                region@.skip(pos as int),
            ),
        ensures
            spec_tlv_views(v@) == spec_parse_tlvs(region@),
        decreases region@.len() - pos,
    {
        match parse_one_tlv(region, pos) {
            Ok((t, next)) => {
                proof {
                    let s = region@.skip(pos as int);
                    assert(s.skip(next - pos) =~= region@.skip(next as int));
                    assert(spec_parse_tlvs(s) == seq![t@] + spec_parse_tlvs(
                        region@.skip(next as int),
                    ));
                    assert(spec_tlv_views(v@) + spec_parse_tlvs(s) == spec_tlv_views(v@.push(t))
                        + spec_parse_tlvs(region@.skip(next as int))) by {
                        assert(spec_tlv_views(v@.push(t)) =~= spec_tlv_views(v@).push(t@));
                        assert(spec_tlv_views(v@) + (seq![t@] + spec_parse_tlvs(
                            region@.skip(next as int),
                        )) =~= spec_tlv_views(v@).push(t@) + spec_parse_tlvs(
                            region@.skip(next as int),
                        ));
                    }
                }
                v.push(t);
                pos = next;
            },
            Err(_) => {
                proof {
                    assert(spec_parse_tlvs(region@.skip(pos as int))
                        =~= Seq::<SpecIsisTlv>::empty());
                    assert(spec_tlv_views(v@) + Seq::<SpecIsisTlv>::empty() =~= spec_tlv_views(
                        v@,
                    ));
                }
                break ;
            },
        }
    }
    v
}

/// Decodes the TLV region of a Link State PDU body.
///
/// The first `len` bytes of `input` are the bounded region; the records
/// decoded from it are returned together with the remainder of `input`
/// after the region. No inner record can consume bytes past the region,
/// whatever its own length fields claim.
pub fn parse_isis_tlvs<'a>(len: u16, input: &'a [u8]) -> (r: Result<
    (&'a [u8], Vec<IsisTlv>),
    IsisError,
>)
    ensures
        len as int <= input@.len() ==> (r matches Ok((rest, v)) && rest@ == input@.skip(len as int)
            && spec_tlv_views(v@) == spec_parse_tlvs(input@.take(len as int))),
        len as int > input@.len() ==> (r matches Err(e) && e == IsisError::TruncatedInput),
{
    match split_region(input, len as usize) {
        Ok((region, rest)) => {
            let v = parse_tlv_sequence(region);
            Ok((rest, v))
        },
        Err(e) => Err(e),
    }
}

} // verus!
