//! The per-packet pipeline: IP and transport header parsing, capture-artifact
//! trimming, flow resolution, and delivery of the corrected payload into the
//! flow's decoder.

use vstd::prelude::*;
use vstd::slice::slice_subrange;

use crate::flow::FlowKey;
use crate::ip::parse_ipv4;
use crate::ip::parse_tcp;
use crate::ip::parse_udp;
use crate::ip::ipv4_header_len;
use crate::ip::ipv4_protocol;
use crate::ip::ipv4_source;
use crate::ip::ipv4_destination;
use crate::ip::ipv4_total_length;
use crate::ip::ipv4_wf;
use crate::ip::tcp_header_len;
use crate::ip::tcp_header_spec;
use crate::ip::tcp_wf;
use crate::ip::udp_header_spec;
use crate::ip::udp_wf;
use crate::ip::IPPROTO_TCP;
use crate::ip::IPPROTO_UDP;
use crate::ip::UDP_HEADER_LEN;
use crate::session::Decoder;
use crate::session::ParserRegistry;
use crate::session::SessionTable;
use crate::PipelineError;

verus! {

/// What the pipeline decides for the IP bytes of one frame: either the frame
/// is silently skipped (no well-formed TCP or UDP segment, or an impossible
/// length combination), or it belongs to a flow and carries a corrected
/// payload.
#[verifier::ext_equal]
pub ghost enum Disposition {
    Skip,
    Flow { key: FlowKey, payload: Seq<u8> },
}

/// The bytes after the IPv4 header.
pub open spec fn ip_payload(data: Seq<u8>) -> Seq<u8> {
    data.skip(ipv4_header_len(data))
}

/// The transport header length: the TCP data offset, or the fixed UDP size.
pub open spec fn transport_header_len(data: Seq<u8>) -> int {
    if ipv4_protocol(data) == IPPROTO_TCP {
        tcp_header_len(ip_payload(data))
    } else {
        UDP_HEADER_LEN as int
    }
}

/// Whether the IP payload holds a well-formed segment of a transport
/// protocol the pipeline follows (TCP or UDP).
pub open spec fn transport_wf(data: Seq<u8>) -> bool {
    if ipv4_protocol(data) == IPPROTO_TCP {
        tcp_wf(ip_payload(data))
    } else if ipv4_protocol(data) == IPPROTO_UDP {
        udp_wf(ip_payload(data))
    } else {
        false
    }
}

/// The transport payload before any trimming.
pub open spec fn transport_payload(data: Seq<u8>) -> Seq<u8> {
    ip_payload(data).skip(transport_header_len(data))
}

/// Trailer bytes some capture setups append beyond the declared IP total
/// length: the captured size (IP header plus segment) minus that field.
pub open spec fn capture_extra(data: Seq<u8>) -> int {
    ipv4_header_len(data) + ip_payload(data).len() - ipv4_total_length(data)
}

/// A frame the pipeline follows to a flow: well-formed IPv4 and transport
/// headers, and a trailer that is no larger than the transport payload
/// (captured bytes short of the declared total length would make the trailer
/// negative; both impossibilities skip the frame).
pub open spec fn packet_accepted(data: Seq<u8>) -> bool {
    &&& ipv4_wf(data)
    &&& transport_wf(data)
    &&& 0 <= capture_extra(data) <= transport_payload(data).len()
}

/// The flow key the frame's headers declare.
pub open spec fn packet_key(data: Seq<u8>) -> FlowKey {
    FlowKey {
        src_addr: ipv4_source(data),
        dst_addr: ipv4_destination(data),
        src_port: if ipv4_protocol(data) == IPPROTO_TCP {
            tcp_header_spec(ip_payload(data)).source
        } else {
            udp_header_spec(ip_payload(data)).source
        },
        dst_port: if ipv4_protocol(data) == IPPROTO_TCP {
            tcp_header_spec(ip_payload(data)).destination
        } else {
            udp_header_spec(ip_payload(data)).destination
        },
        protocol: ipv4_protocol(data),
    }
}

/// The corrected payload: the transport payload with the trailer bytes
/// trimmed from its tail.
pub open spec fn packet_payload(data: Seq<u8>) -> Seq<u8> {
    transport_payload(data).take(transport_payload(data).len() - capture_extra(data))
}

/// The pipeline's whole decision for one frame's IP bytes.
pub open spec fn disposition(data: Seq<u8>) -> Disposition {
    if packet_accepted(data) {
        Disposition::Flow { key: packet_key(data), payload: packet_payload(data) }
    } else {
        Disposition::Skip
    }
}

/// Trimming correctness: the corrected payload is exactly `capture_extra`
/// bytes shorter than the untrimmed transport payload, and the bytes that
/// remain are the leading ones, unchanged — trimming takes from the tail
/// only.
pub proof fn lemma_trimming(data: Seq<u8>)
    requires
        packet_accepted(data),
    ensures
        packet_payload(data).len() + capture_extra(data) == transport_payload(data).len(),
        forall|i: int|
            0 <= i < packet_payload(data).len() ==> packet_payload(data)[i]
                == transport_payload(data)[i],
{
}

/// Outcome of dispatching one frame that did not fail fatally.
#[derive(PartialEq, Eq, Structural, Clone, Copy, Debug)]
pub enum DispatchOutcome {
    /// The frame was silently skipped.
    Ignored,
    /// The frame was resolved to a flow: its direction label, whether this
    /// packet created the session, and whether a non-empty payload was
    /// delivered to the decoder (an empty corrected payload is suppressed).
    Accepted { direction: u8, created: bool, delivered: bool },
}

/// All state a run keeps between packets: the read-only registry chosen at
/// startup and the table of live sessions.
pub struct GlobalState<D> {
    pub registry: ParserRegistry<D>,
    pub sessions: SessionTable<D>,
}

impl<D: Decoder + Clone> GlobalState<D> {
    /// A fresh run state around the given registry, with no sessions yet.
    pub fn new(registry: ParserRegistry<D>) -> (r: GlobalState<D>)
        ensures
            r.registry == registry,
            r.sessions.keys() == Seq::<FlowKey>::empty(),
            r.sessions.wf(),
    {
        GlobalState { registry, sessions: SessionTable::new() }
    }
}

/// Resolves a packet's flow key against the session table — direct match,
/// reverse match, or first-packet creation through the registry — and feeds
/// the corrected payload and direction to the flow's decoder.
fn deliver<D: Decoder + Clone>(
    globalstate: &mut GlobalState<D>,
    ptype: &String,
    key: FlowKey,
    payload: &[u8],
) -> (r: Result<DispatchOutcome, PipelineError>)
    requires
        old(globalstate).sessions.wf(),
    ensures
        final(globalstate).sessions.wf(),
        final(globalstate).registry == old(globalstate).registry,
        ({
            let t0 = old(globalstate).sessions;
            let known = t0.contains_key(key) || t0.contains_key(key.spec_reverse());
            &&& (!known && !old(globalstate).registry.knows(ptype@)) ==> (r == Err::<
                DispatchOutcome,
                _,
            >(PipelineError::UnknownDecoder) && *final(globalstate) == *old(globalstate))
            &&& (known || old(globalstate).registry.knows(ptype@)) ==> {
                &&& final(globalstate).sessions.keys() == t0.keys_after(key)
                &&& r == Ok::<_, PipelineError>(
                    DispatchOutcome::Accepted {
                        direction: t0.spec_direction(key),
                        created: !known,
                        delivered: payload@.len() > 0,
                    },
                )
                &&& (payload@.len() == 0 && known) ==> *final(globalstate) == *old(globalstate)
            }
        }),
{
    let resolved = globalstate.sessions.lookup(&key);
    let (idx, direction, created) = match resolved {
        Some(p) => (p.0, p.1, false),
        None => {
            let d = match globalstate.registry.create(ptype) {
                Ok(d) => d,
                Err(e) => {
                    return Err(e);
                },
            };
            let idx = globalstate.sessions.insert(key, d);
            (idx, 0u8, true)
        },
    };
    globalstate.sessions.feed(idx, payload, direction);
    Ok(DispatchOutcome::Accepted { direction, created, delivered: payload.len() > 0 })
}

/// Dispatches one frame's IP bytes, exactly as `disposition` describes it:
/// a skipped frame leaves the run state untouched; a frame resolved to a
/// flow is labeled with its direction, creates the session if this is the
/// flow's first packet, and delivers its corrected payload to the decoder
/// unless that payload is empty. `UnknownDecoder` exactly when a session
/// must be created and the operator-selected decoder name is not registered.
pub fn callback<D: Decoder + Clone>(
    data: &[u8],
    ptype: &String,
    globalstate: &mut GlobalState<D>,
) -> (r: Result<DispatchOutcome, PipelineError>)
    requires
        old(globalstate).sessions.wf(),
    ensures
        final(globalstate).sessions.wf(),
        final(globalstate).registry == old(globalstate).registry,
        match disposition(data@) {
            Disposition::Skip => r == Ok::<_, PipelineError>(DispatchOutcome::Ignored)
                && *final(globalstate) == *old(globalstate),
            Disposition::Flow { key, payload } => {
                let t0 = old(globalstate).sessions;
                let known = t0.contains_key(key) || t0.contains_key(key.spec_reverse());
                &&& (!known && !old(globalstate).registry.knows(ptype@)) ==> (r == Err::<
                    DispatchOutcome,
                    _,
                >(PipelineError::UnknownDecoder) && *final(globalstate) == *old(globalstate))
                &&& (known || old(globalstate).registry.knows(ptype@)) ==> {
                    &&& final(globalstate).sessions.keys() == t0.keys_after(key)
                    &&& r == Ok::<_, PipelineError>(
                        DispatchOutcome::Accepted {
                            direction: t0.spec_direction(key),
                            created: !known,
                            delivered: payload.len() > 0,
                        },
                    )
                    &&& (payload.len() == 0 && known) ==> *final(globalstate) == *old(globalstate)
                }
            },
        },
{
    let ipv4 = match parse_ipv4(data) {
        Some(h) => h,
        None => {
            return Ok(DispatchOutcome::Ignored);
        },
    };
    let ippay = slice_subrange(data, ipv4.header_len, data.len());
    if ipv4.protocol == IPPROTO_TCP {
        let tcp = match parse_tcp(ippay) {
            Some(h) => h,
            None => {
                return Ok(DispatchOutcome::Ignored);
            },
        };
        let seg_payload = slice_subrange(ippay, tcp.header_len, ippay.len());
        let actual = ipv4.header_len + ippay.len();
        let declared = ipv4.total_length as usize;
        if actual < declared {
            return Ok(DispatchOutcome::Ignored);
        }
        let extra = actual - declared;
        if extra > seg_payload.len() {
            return Ok(DispatchOutcome::Ignored);
        }
        let payload = slice_subrange(seg_payload, 0, seg_payload.len() - extra);
        let key = FlowKey {
            src_addr: ipv4.source,
            dst_addr: ipv4.destination,
            src_port: tcp.source,
            dst_port: tcp.destination,
            protocol: IPPROTO_TCP,
        };
        proof {
            assert(packet_accepted(data@));
            assert(key == packet_key(data@));
            assert(payload@ == packet_payload(data@));
        }
        deliver(globalstate, ptype, key, payload)
    } else if ipv4.protocol == IPPROTO_UDP {
        let udp = match parse_udp(ippay) {
            Some(h) => h,
            None => {
                return Ok(DispatchOutcome::Ignored);
            },
        };
        let seg_payload = slice_subrange(ippay, UDP_HEADER_LEN, ippay.len());
        let actual = ipv4.header_len + ippay.len();
        let declared = ipv4.total_length as usize;
        if actual < declared {
            return Ok(DispatchOutcome::Ignored);
        }
        let extra = actual - declared;
        if extra > seg_payload.len() {
            return Ok(DispatchOutcome::Ignored);
        }
        let payload = slice_subrange(seg_payload, 0, seg_payload.len() - extra);
        let key = FlowKey {
            src_addr: ipv4.source,
            dst_addr: ipv4.destination,
            src_port: udp.source,
            dst_port: udp.destination,
            protocol: IPPROTO_UDP,
        };
        proof {
            assert(packet_accepted(data@));
            assert(key == packet_key(data@));
            assert(payload@ == packet_payload(data@));
        }
        deliver(globalstate, ptype, key, payload)
    } else {
        Ok(DispatchOutcome::Ignored)
    }
}

} // verus!
