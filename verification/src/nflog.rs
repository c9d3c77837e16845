//! Netfilter-log link-layer encapsulation: a fixed 4-byte prefix
//! (`address_family`, `version`, little-endian `resource_id`) followed by
//! length-prefixed, 4-byte-aligned TLV attribute records. The record of
//! attribute type `NFULA_PAYLOAD` carries the captured network-layer payload.

use vstd::assert_seqs_equal;
use vstd::prelude::*;
use vstd::slice::slice_subrange;
use vstd::slice::slice_to_vec;

use crate::wire::le16;
use crate::wire::le16_hi;
use crate::wire::le16_lo;
use crate::wire::read_le16;
use crate::PipelineError;

verus! {

/// Attribute type of the record whose value is the captured payload.
pub const NFULA_PAYLOAD: u16 = 9;

/// Mathematical model of one TLV record: its attribute type and value bytes.
/// The on-wire `length` field is determined by the value: `value.len() + 4`.
#[verifier::ext_equal]
pub ghost struct TlvModel {
    pub t: u16,
    pub v: Seq<u8>,
}

/// One parsed TLV record: `l` is the on-wire length field (value length plus
/// the 4-byte length/type prefix), `t` the attribute type, `v` the value.
#[derive(Debug)]
pub struct NflogTlv {
    pub l: u16,
    pub t: u16,
    pub v: Vec<u8>,
}

impl View for NflogTlv {
    type V = TlvModel;

    open spec fn view(&self) -> TlvModel {
        TlvModel { t: self.t, v: self.v@ }
    }
}

/// Padding after a record whose length field is `l`: records are aligned to
/// 4-byte boundaries.
pub open spec fn tlv_pad(l: int) -> int {
    if l % 4 == 0 {
        0int
    } else {
        4 - l % 4
    }
}

/// Bytes a record with length field `l` occupies on the wire, padding included.
pub open spec fn tlv_record_size(l: int) -> int {
    l + tlv_pad(l)
}

/// The TLV record stream: records until the input is exhausted. `None` when
/// the input is truncated mid-record, when a length field is smaller than the
/// 4-byte prefix it must include, or when a record's padding is missing.
pub open spec fn parse_tlvs(s: Seq<u8>) -> Option<Seq<TlvModel>>
    decreases s.len(),
{
    if s.len() == 0 {
        Some(Seq::empty())
    } else if s.len() < 4 {
        None
    } else {
        let l = le16(s[0], s[1]) as int;
        let t = le16(s[2], s[3]);
        if l < 4 {
            None
        } else if s.len() < tlv_record_size(l) {
            None
        } else {
            match parse_tlvs(s.skip(tlv_record_size(l))) {
                Some(rest) => Some(seq![TlvModel { t, v: s.subrange(4, l) }] + rest),
                None => None,
            }
        }
    }
}

/// The models of a sequence of parsed records.
pub open spec fn tlv_views(tlvs: Seq<NflogTlv>) -> Seq<TlvModel> {
    Seq::new(tlvs.len(), |i: int| tlvs[i]@)
}

/// Walks the TLV records of `s` from start to end.
///
/// Returns the records exactly as `parse_tlvs` describes them, or
/// `MalformedHeader` exactly when `parse_tlvs` rejects the input.
pub fn parse_nflog_tlvs(s: &[u8]) -> (r: Result<Vec<NflogTlv>, PipelineError>)
    ensures
        match r {
            Ok(tlvs) => {
                &&& parse_tlvs(s@) == Some(tlv_views(tlvs@))
                &&& forall|i: int|
                    0 <= i < tlvs@.len() ==> (#[trigger] tlvs@[i]).l == tlvs@[i].v@.len() + 4
            },
            Err(e) => {
                &&& parse_tlvs(s@) is None
                &&& e == PipelineError::MalformedHeader
            },
        },
{
    let n = s.len();
    let mut i: usize = 0;
    let mut out: Vec<NflogTlv> = Vec::new();
    proof {
        assert(s@.skip(0) =~= s@);
        if parse_tlvs(s@) is Some {
            assert_seqs_equal!(tlv_views(out@) + parse_tlvs(s@).unwrap()
                == parse_tlvs(s@).unwrap());
        }
    }
    while i < n
        invariant
            n == s@.len(),
            i <= n,
            parse_tlvs(s@.skip(i as int)) matches Some(rest) ==> parse_tlvs(s@) == Some(
                tlv_views(out@) + rest,
            ),
            parse_tlvs(s@.skip(i as int)) is None ==> parse_tlvs(s@) is None,
            forall|j: int| 0 <= j < out@.len() ==> (#[trigger] out@[j]).l == out@[j].v@.len() + 4,
        decreases n - i,
    {
        let ghost rem = s@.skip(i as int);
        if n - i < 4 {
            return Err(PipelineError::MalformedHeader);
        }
        let l = read_le16(s[i], s[i + 1]);
        let t = read_le16(s[i + 2], s[i + 3]);
        assert(rem[0] == s@[i as int] && rem[1] == s@[i + 1] && rem[2] == s@[i + 2] && rem[3]
            == s@[i + 3]);
        if l < 4 {
            return Err(PipelineError::MalformedHeader);
        }
        let lu = l as usize;
        let pad: usize = if lu % 4 == 0 {
            0
        } else {
            4 - lu % 4
        };
        assert(pad == tlv_pad(l as int));
        if n - i < lu + pad {
            return Err(PipelineError::MalformedHeader);
        }
        let v = slice_to_vec(slice_subrange(s, i + 4, i + lu));
        proof {
            assert_seqs_equal!(rem.subrange(4, l as int) == s@.subrange(i + 4, i + lu));
            assert_seqs_equal!(rem.skip(tlv_record_size(l as int)) == s@.skip(i + lu + pad));
        }
        let tlv = NflogTlv { l, t, v };
        let ghost m = tlv@;
        let ghost prev = out@;
        out.push(tlv);
        proof {
            assert(out@ == prev.push(NflogTlv { l, t, v: out@[prev.len() as int].v }));
            assert(out@.len() == prev.len() + 1);
            assert(m == TlvModel { t, v: rem.subrange(4, l as int) });
            if parse_tlvs(s@.skip(i + lu + pad)) is Some {
                let rest = parse_tlvs(s@.skip(i + lu + pad)).unwrap();
                assert(parse_tlvs(rem) == Some(seq![m] + rest));
                assert_seqs_equal!(
                    tlv_views(out@) + rest == tlv_views(prev) + (seq![m] + rest)
                );
            }
        }
        i = i + lu + pad;
    }
    proof {
        assert(s@.skip(i as int) =~= Seq::<u8>::empty());
        assert_seqs_equal!(tlv_views(out@) + Seq::<TlvModel>::empty() == tlv_views(out@));
    }
    Ok(out)
}

/// A record model small enough for its length field: the on-wire length
/// `value.len() + 4` must fit in 16 bits.
pub open spec fn tlv_model_wf(m: TlvModel) -> bool {
    m.v.len() + 4 <= 0xffff
}

/// The wire bytes of one record: little-endian length and type, the value,
/// then zero padding to the next 4-byte boundary.
pub open spec fn encode_tlv(m: TlvModel) -> Seq<u8> {
    let l = (m.v.len() + 4) as u16;
    seq![le16_lo(l), le16_hi(l), le16_lo(m.t), le16_hi(m.t)] + m.v + Seq::new(
        tlv_pad(l as int) as nat,
        |j: int| 0u8,
    )
}

/// The wire bytes of a record sequence, in order.
pub open spec fn encode_tlvs(ms: Seq<TlvModel>) -> Seq<u8>
    decreases ms.len(),
{
    if ms.len() == 0 {
        Seq::empty()
    } else {
        encode_tlv(ms[0]) + encode_tlvs(ms.skip(1))
    }
}

/// Round trip: parsing the encoding of any well-formed record sequence
/// recovers exactly that sequence, consuming every encoded byte.
pub proof fn lemma_tlv_round_trip(ms: Seq<TlvModel>)
    requires
        forall|i: int| 0 <= i < ms.len() ==> tlv_model_wf(#[trigger] ms[i]),
    ensures
        parse_tlvs(encode_tlvs(ms)) == Some(ms),
    decreases ms.len(),
{
    let e = encode_tlvs(ms);
    if ms.len() == 0 {
        assert(ms =~= Seq::<TlvModel>::empty());
    } else {
        let m = ms[0];
        let l = (m.v.len() + 4) as u16;
        let first = encode_tlv(m);
        let rest_enc = encode_tlvs(ms.skip(1));
        let size = tlv_record_size(l as int);
        assert(first.len() == size);
        assert(e.len() == first.len() + rest_enc.len());
        crate::wire::lemma_le16_of_bytes(l);
        crate::wire::lemma_le16_of_bytes(m.t);
        assert(e[0] == le16_lo(l) && e[1] == le16_hi(l) && e[2] == le16_lo(m.t) && e[3]
            == le16_hi(m.t));
        assert(le16(e[0], e[1]) == l);
        assert(le16(e[2], e[3]) == m.t);
        assert_seqs_equal!(e.subrange(4, l as int) == m.v);
        assert_seqs_equal!(e.skip(size) == rest_enc);
        lemma_tlv_round_trip(ms.skip(1));
        assert(parse_tlvs(e.skip(size)) == Some(ms.skip(1)));
        assert(parse_tlvs(e) == Some(seq![TlvModel { t: m.t, v: e.subrange(4, l as int) }]
            + ms.skip(1)));
        assert(TlvModel { t: m.t, v: e.subrange(4, l as int) } =~= m);
        assert_seqs_equal!(seq![m] + ms.skip(1) == ms);
    }
}

/// Writes the wire form of `tlvs`, as `encode_tlvs` describes it.
///
/// Each record's `l` field must be consistent with its value bytes.
pub fn encode_nflog_tlvs(tlvs: &Vec<NflogTlv>) -> (r: Vec<u8>)
    requires
        forall|i: int|
            0 <= i < tlvs@.len() ==> (#[trigger] tlvs@[i]).l == tlvs@[i].v@.len() + 4,
    ensures
        r@ == encode_tlvs(tlv_views(tlvs@)),
{
    let mut out: Vec<u8> = Vec::new();
    let mut k: usize = 0;
    proof {
        assert(tlv_views(tlvs@).skip(0) =~= tlv_views(tlvs@));
        assert_seqs_equal!(out@ + encode_tlvs(tlv_views(tlvs@)) == encode_tlvs(tlv_views(tlvs@)));
    }
    while k < tlvs.len()
        invariant
            k <= tlvs@.len(),
            forall|i: int|
                0 <= i < tlvs@.len() ==> (#[trigger] tlvs@[i]).l == tlvs@[i].v@.len() + 4,
            out@ + encode_tlvs(tlv_views(tlvs@).skip(k as int)) == encode_tlvs(tlv_views(tlvs@)),
        decreases tlvs@.len() - k,
    {
        let tlv = &tlvs[k];
        let ghost m = tlv@;
        let ghost before = out@;
        let (lo, hi) = crate::wire::split_le16(tlv.l);
        out.push(lo);
        out.push(hi);
        let (tlo, thi) = crate::wire::split_le16(tlv.t);
        out.push(tlo);
        out.push(thi);
        let mut j: usize = 0;
        while j < tlv.v.len()
            invariant
                j <= tlv.v@.len(),
                out@ == before + seq![le16_lo((m.v.len() + 4) as u16), le16_hi((m.v.len() + 4) as u16), le16_lo(m.t), le16_hi(m.t)] + m.v.take(j as int),
                m == tlv@,
                tlv.l == tlv.v@.len() + 4,
            decreases tlv.v@.len() - j,
        {
            out.push(tlv.v[j]);
            proof {
                assert_seqs_equal!(m.v.take(j + 1) == m.v.take(j as int).push(m.v[j as int]));
            }
            j = j + 1;
        }
        let lv = tlv.l as usize;
        let pad: usize = if lv % 4 == 0 {
            0
        } else {
            4 - lv % 4
        };
        let mut p: usize = 0;
        proof {
            assert(m.v.take(m.v.len() as int) =~= m.v);
        }
        while p < pad
            invariant
                p <= pad,
                pad == tlv_pad((m.v.len() + 4) as int),
                out@ == before + seq![le16_lo((m.v.len() + 4) as u16), le16_hi((m.v.len() + 4) as u16), le16_lo(m.t), le16_hi(m.t)] + m.v + Seq::new(p as nat, |q: int| 0u8),
                m == tlv@,
            decreases pad - p,
        {
            out.push(0u8);
            proof {
                assert_seqs_equal!(Seq::new((p + 1) as nat, |q: int| 0u8)
                    == Seq::new(p as nat, |q: int| 0u8).push(0u8));
            }
            p = p + 1;
        }
        proof {
            assert(out@ =~= before + encode_tlv(m));
            let all = tlv_views(tlvs@);
            assert(all[k as int] == m);
            assert(all.skip(k as int)[0] == m);
            assert_seqs_equal!(all.skip(k as int).skip(1) == all.skip(k + 1));
            assert(encode_tlvs(all.skip(k as int)) == encode_tlv(m) + encode_tlvs(
                all.skip(k + 1),
            ));
            assert_seqs_equal!(out@ + encode_tlvs(all.skip(k + 1))
                == (before + encode_tlvs(all.skip(k as int))));
        }
        k = k + 1;
    }
    proof {
        assert(tlv_views(tlvs@).skip(k as int) =~= Seq::<TlvModel>::empty());
        assert_seqs_equal!(out@ + Seq::<u8>::empty() == out@);
    }
    out
}

/// Mathematical model of a whole netfilter-log header.
#[verifier::ext_equal]
pub ghost struct NflogHeaderModel {
    pub af: u8,
    pub vers: u8,
    pub res_id: u16,
    pub data: Seq<TlvModel>,
}

/// A parsed netfilter-log header: address family, version, little-endian
/// resource id, and the attribute records that follow them.
#[derive(Debug)]
pub struct NflogHdr {
    pub af: u8,
    pub vers: u8,
    pub res_id: u16,
    pub data: Vec<NflogTlv>,
}

impl View for NflogHdr {
    type V = NflogHeaderModel;

    open spec fn view(&self) -> NflogHeaderModel {
        NflogHeaderModel { af: self.af, vers: self.vers, res_id: self.res_id, data: tlv_views(self.data@) }
    }
}

/// The whole header: the fixed 4-byte prefix, then the TLV records.
pub open spec fn parse_nflog(s: Seq<u8>) -> Option<NflogHeaderModel> {
    if s.len() < 4 {
        None
    } else {
        match parse_tlvs(s.skip(4)) {
            Some(d) => Some(
                NflogHeaderModel { af: s[0], vers: s[1], res_id: le16(s[2], s[3]), data: d },
            ),
            None => None,
        }
    }
}

/// Parses a netfilter-log header, exactly as `parse_nflog` describes it;
/// `MalformedHeader` exactly when `parse_nflog` rejects the input.
pub fn parse_nflog_header(s: &[u8]) -> (r: Result<NflogHdr, PipelineError>)
    ensures
        match r {
            Ok(hdr) => {
                &&& parse_nflog(s@) == Some(hdr@)
                &&& forall|i: int|
                    0 <= i < hdr.data@.len() ==> (#[trigger] hdr.data@[i]).l == hdr.data@[i].v@.len() + 4
            },
            Err(e) => {
                &&& parse_nflog(s@) is None
                &&& e == PipelineError::MalformedHeader
            },
        },
{
    if s.len() < 4 {
        return Err(PipelineError::MalformedHeader);
    }
    let af = s[0];
    let vers = s[1];
    let res_id = read_le16(s[2], s[3]);
    let rest = slice_subrange(s, 4, s.len());
    match parse_nflog_tlvs(rest) {
        Ok(data) => Ok(NflogHdr { af, vers, res_id, data }),
        Err(e) => Err(e),
    }
}

/// The wire bytes of a whole netfilter-log header: the fixed 4-byte prefix,
/// then the records.
pub open spec fn encode_nflog(h: NflogHeaderModel) -> Seq<u8> {
    seq![h.af, h.vers, le16_lo(h.res_id), le16_hi(h.res_id)] + encode_tlvs(h.data)
}

/// Round trip at the header level: parsing the encoding of any header whose
/// records are well-formed recovers exactly that header.
pub proof fn lemma_nflog_round_trip(h: NflogHeaderModel)
    requires
        forall|i: int| 0 <= i < h.data.len() ==> tlv_model_wf(#[trigger] h.data[i]),
    ensures
        parse_nflog(encode_nflog(h)) == Some(h),
{
    let e = encode_nflog(h);
    assert_seqs_equal!(e.skip(4) == encode_tlvs(h.data));
    lemma_tlv_round_trip(h.data);
    crate::wire::lemma_le16_of_bytes(h.res_id);
    assert(parse_nflog(e) matches Some(g) && g =~= h);
}

/// Writes the wire form of a header, as `encode_nflog` describes it.
pub fn encode_nflog_header(h: &NflogHdr) -> (r: Vec<u8>)
    requires
        forall|i: int|
            0 <= i < h.data@.len() ==> (#[trigger] h.data@[i]).l == h.data@[i].v@.len() + 4,
    ensures
        r@ == encode_nflog(h@),
{
    let mut out: Vec<u8> = Vec::new();
    out.push(h.af);
    out.push(h.vers);
    let (lo, hi) = crate::wire::split_le16(h.res_id);
    out.push(lo);
    out.push(hi);
    let mut records = encode_nflog_tlvs(&h.data);
    out.append(&mut records);
    proof {
        assert_seqs_equal!(out@ == encode_nflog(h@));
    }
    out
}

/// The value of the first record whose attribute type is `NFULA_PAYLOAD`.
pub open spec fn first_payload(ds: Seq<TlvModel>) -> Option<Seq<u8>>
    decreases ds.len(),
{
    if ds.len() == 0 {
        None
    } else if ds[0].t == NFULA_PAYLOAD {
        Some(ds[0].v)
    } else {
        first_payload(ds.skip(1))
    }
}

/// Link-layer demultiplexing for netfilter-log captures: parses the variable
/// header and hands back the captured network-layer payload, the value of the
/// first attribute record of type `NFULA_PAYLOAD`.
///
/// `MalformedHeader` exactly when the header does not parse;
/// `MissingPayloadAttribute` exactly when no record carries the payload.
pub fn get_data_nflog(data: &[u8]) -> (r: Result<Vec<u8>, PipelineError>)
    ensures
        match parse_nflog(data@) {
            Some(h) => match first_payload(h.data) {
                Some(p) => r matches Ok(payload) && payload@ == p,
                None => r == Err::<Vec<u8>, _>(PipelineError::MissingPayloadAttribute),
            },
            None => r == Err::<Vec<u8>, _>(PipelineError::MalformedHeader),
        },
{
    let hdr = match parse_nflog_header(data) {
        Ok(h) => h,
        Err(e) => {
            return Err(e);
        },
    };
    let mut tlvs = hdr.data;
    let n = tlvs.len();
    let mut k: usize = 0;
    proof {
        assert(tlv_views(tlvs@).skip(0) =~= tlv_views(tlvs@));
    }
    while k < n
        invariant
            n == tlvs@.len(),
            k <= n,
            parse_nflog(data@) matches Some(h) && h.data == tlv_views(tlvs@),
            forall|j: int| 0 <= j < k ==> (#[trigger] tlvs@[j]).t != NFULA_PAYLOAD,
            first_payload(tlv_views(tlvs@)) == first_payload(tlv_views(tlvs@).skip(k as int)),
        decreases n - k,
    {
        if tlvs[k].t == NFULA_PAYLOAD {
            proof {
                assert(tlv_views(tlvs@).skip(k as int)[0] == tlvs@[k as int]@);
                assert(first_payload(tlv_views(tlvs@).skip(k as int)) == Some(
                    tlvs@[k as int].v@,
                ));
            }
            let tlv = tlvs.remove(k);
            return Ok(tlv.v);
        }
        proof {
            let views = tlv_views(tlvs@);
            assert(views.skip(k as int)[0] == tlvs@[k as int]@);
            assert(views.skip(k as int).len() > 0);
            assert_seqs_equal!(views.skip(k as int).skip(1) == views.skip(k + 1));
        }
        k = k + 1;
    }
    proof {
        assert(tlv_views(tlvs@).skip(k as int) =~= Seq::<TlvModel>::empty());
    }
    Err(PipelineError::MissingPayloadAttribute)
}

} // verus!
