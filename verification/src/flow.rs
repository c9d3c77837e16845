//! Flow identity: the canonical five-tuple key of a bidirectional flow.

use vstd::prelude::*;

verus! {

/// Canonical identity of a flow: source/destination IPv4 address,
/// source/destination port, and transport protocol. Immutable once built;
/// two keys are each other's reverse iff swapping the (address, port)
/// endpoint pairs on one yields the other, with the protocol unchanged.
#[derive(PartialEq, Eq, Structural, Clone, Copy, Hash, Debug)]
pub struct FlowKey {
    pub src_addr: u32,
    pub dst_addr: u32,
    pub src_port: u16,
    pub dst_port: u16,
    pub protocol: u8,
}

impl FlowKey {
    /// The key of the opposite direction of the same flow.
    pub open spec fn spec_reverse(self) -> FlowKey {
        FlowKey {
            src_addr: self.dst_addr,
            dst_addr: self.src_addr,
            src_port: self.dst_port,
            dst_port: self.src_port,
            protocol: self.protocol,
        }
    }

    pub fn get_reverse(&self) -> (r: FlowKey)
        ensures
            r == self.spec_reverse(),
    {
        FlowKey {
            src_addr: self.dst_addr,
            dst_addr: self.src_addr,
            src_port: self.dst_port,
            dst_port: self.src_port,
            protocol: self.protocol,
        }
    }
}

/// Reversing a flow key twice gives the key back.
pub proof fn lemma_reverse_involution(k: FlowKey)
    ensures
        k.spec_reverse().spec_reverse() == k,
{
}

/// A flow key differs from its reverse whenever its two endpoints differ
/// in address or in port.
pub proof fn lemma_reverse_distinct(k: FlowKey)
    requires
        k.src_addr != k.dst_addr || k.src_port != k.dst_port,
    ensures
        k.spec_reverse() != k,
{
}

} // verus!
