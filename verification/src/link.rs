//! Link-layer demultiplexing: from a raw captured frame to the byte slice
//! beginning at the IP header, for each supported capture encapsulation.

use vstd::prelude::*;
use vstd::slice::slice_subrange;
use vstd::slice::slice_to_vec;

use crate::nflog::first_payload;
use crate::nflog::get_data_nflog;
use crate::nflog::parse_nflog;
use crate::PipelineError;

verus! {

/// The capture encapsulations the pipeline can demultiplex. The declared
/// link-layer type code is read once from the capture's global header and
/// fixes the demux strategy for the whole run.
#[derive(PartialEq, Eq, Structural, Clone, Copy, Debug)]
pub enum LinkType {
    /// Raw Ethernet, type code 1: fixed 14-byte header.
    Ethernet,
    /// Linux cooked capture, type code 113: fixed 16-byte header.
    LinuxCooked,
    /// Netfilter-log encapsulation, type code 239: variable-length header.
    Nflog,
}

/// Maps a capture's declared link-layer type code to a demux strategy.
///
/// Any code other than 1, 113 or 239 is a fatal configuration error: the run
/// cannot proceed without a known way to reach the IP header.
pub fn select_link_type(code: i32) -> (r: Result<LinkType, PipelineError>)
    ensures
        code == 1 ==> r == Ok::<_, PipelineError>(LinkType::Ethernet),
        code == 113 ==> r == Ok::<_, PipelineError>(LinkType::LinuxCooked),
        code == 239 ==> r == Ok::<_, PipelineError>(LinkType::Nflog),
        code != 1 && code != 113 && code != 239 ==> r == Err::<LinkType, _>(
            PipelineError::UnsupportedLinkType,
        ),
{
    if code == 1 {
        Ok(LinkType::Ethernet)
    } else if code == 113 {
        Ok(LinkType::LinuxCooked)
    } else if code == 239 {
        Ok(LinkType::Nflog)
    } else {
        Err(PipelineError::UnsupportedLinkType)
    }
}

/// Strips the fixed 14-byte Ethernet header.
///
/// A frame shorter than its link-layer header is reported as truncated and
/// skipped rather than sliced out of bounds.
pub fn get_data_ethernet<'a>(data: &'a [u8]) -> (r: Result<&'a [u8], PipelineError>)
    ensures
        data@.len() >= 14 ==> (r matches Ok(p) && p@ == data@.skip(14)),
        data@.len() < 14 ==> r == Err::<&'a [u8], _>(PipelineError::TruncatedFrame),
{
    if data.len() < 14 {
        Err(PipelineError::TruncatedFrame)
    } else {
        Ok(slice_subrange(data, 14, data.len()))
    }
}

/// Strips the fixed 16-byte Linux cooked capture header.
pub fn get_data_linux_cooked<'a>(data: &'a [u8]) -> (r: Result<&'a [u8], PipelineError>)
    ensures
        data@.len() >= 16 ==> (r matches Ok(p) && p@ == data@.skip(16)),
        data@.len() < 16 ==> r == Err::<&'a [u8], _>(PipelineError::TruncatedFrame),
{
    if data.len() < 16 {
        Err(PipelineError::TruncatedFrame)
    } else {
        Ok(slice_subrange(data, 16, data.len()))
    }
}

/// What link-layer demultiplexing yields for a frame, per encapsulation.
pub open spec fn demux_spec(lt: LinkType, data: Seq<u8>) -> Result<Seq<u8>, PipelineError> {
    match lt {
        LinkType::Ethernet => if data.len() >= 14 {
            Ok(data.skip(14))
        } else {
            Err(PipelineError::TruncatedFrame)
        },
        LinkType::LinuxCooked => if data.len() >= 16 {
            Ok(data.skip(16))
        } else {
            Err(PipelineError::TruncatedFrame)
        },
        LinkType::Nflog => match parse_nflog(data) {
            Some(h) => match first_payload(h.data) {
                Some(p) => Ok(p),
                None => Err(PipelineError::MissingPayloadAttribute),
            },
            None => Err(PipelineError::MalformedHeader),
        },
    }
}

/// Applies the demux strategy selected for the run to one raw frame,
/// yielding the bytes that begin at the IP header.
pub fn get_data(lt: LinkType, data: &[u8]) -> (r: Result<Vec<u8>, PipelineError>)
    ensures
        match demux_spec(lt, data@) {
            Ok(p) => r matches Ok(v) && v@ == p,
            Err(e) => r == Err::<Vec<u8>, _>(e),
        },
{
    match lt {
        LinkType::Ethernet => match get_data_ethernet(data) {
            Ok(p) => Ok(slice_to_vec(p)),
            Err(e) => Err(e),
        },
        LinkType::LinuxCooked => match get_data_linux_cooked(data) {
            Ok(p) => Ok(slice_to_vec(p)),
            Err(e) => Err(e),
        },
        LinkType::Nflog => get_data_nflog(data),
    }
}

} // verus!
