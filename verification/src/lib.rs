//! Offline packet-to-session pipeline: link-layer demultiplexing, netfilter-log
//! TLV decoding, flow identity resolution, and per-packet dispatch into
//! per-flow protocol decoders.

use vstd::prelude::*;

pub mod dispatch;
pub mod flow;
pub mod ip;
pub mod link;
pub mod nflog;
pub mod session;
pub mod wire;

verus! {

/// The closed set of error kinds the pipeline can report.
///
/// All variants but `TruncatedFrame` are fatal to a run: the capture cannot be
/// decoded without a known link layer, a well-formed netfilter-log header with
/// a payload attribute, and a registered decoder. `TruncatedFrame` marks a
/// single frame too short for its fixed-size link-layer header; such a frame
/// is skipped and the run goes on.
#[derive(PartialEq, Eq, Structural, Clone, Copy, Debug)]
pub enum PipelineError {
    UnsupportedLinkType,
    MalformedHeader,
    MissingPayloadAttribute,
    UnknownDecoder,
    TruncatedFrame,
}

impl PipelineError {
    /// A fatal error aborts the whole run; a non-fatal one skips a frame.
    pub open spec fn spec_is_fatal(self) -> bool {
        self != PipelineError::TruncatedFrame
    }

    pub fn is_fatal(&self) -> (r: bool)
        ensures
            r == self.spec_is_fatal(),
    {
        !(*self == PipelineError::TruncatedFrame)
    }
}

} // verus!

