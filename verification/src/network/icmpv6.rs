//! The ICMPv6 layer: a table of echo handlers keyed by destination,
//! type and code.

use crate::network::protocol::{
    bytes_eq, MapKey, NetworkProtocolMng, ProtocolHeaderType,
};
use vstd::prelude::*;

verus! {

/// ICMPv6 key: destination IPv6 address, message type and code.
#[derive(Debug, Clone, Copy, PartialEq, Eq, Hash)]
pub struct Icmpv6Key {
    pub dst: [u8; 16],
    pub icmp_type: u8,
    pub icmp_code: u8,
}

impl MapKey for Icmpv6Key {
    open spec fn eq_spec(&self, other: &Icmpv6Key) -> bool {
        self.dst@ == other.dst@ && self.icmp_type == other.icmp_type
            && self.icmp_code == other.icmp_code
    }

    proof fn lemma_eq_sym(&self, other: &Icmpv6Key) {
    }

    proof fn lemma_eq_trans(&self, b: &Icmpv6Key, c: &Icmpv6Key) {
    }

    fn same_key(&self, other: &Icmpv6Key) -> (r: bool) {
        bytes_eq(self.dst.as_slice(), other.dst.as_slice())
            && self.icmp_type == other.icmp_type
            && self.icmp_code == other.icmp_code
    }
}

/// ICMPv6 resource: reply template or handler metadata.
#[derive(Debug, Clone)]
pub struct Icmpv6Entry {
    pub description: String,
    pub hop_limit: u8,
    pub identifier: Option<u16>,
    pub sequence: Option<u16>,
}

pub struct ICMPv6Protocol {
    pub common: NetworkProtocolMng<Icmpv6Key, Icmpv6Entry>,
    pub default_hop_limit: u8,
}

impl ICMPv6Protocol {
    pub fn new() -> (p: ICMPv6Protocol)
        ensures
            p.common.wf(),
            p.common.entries().len() == 0,
            p.common.header_type_spec() == ProtocolHeaderType::ICMPv6,
            p.default_hop_limit == 0,
    {
        ICMPv6Protocol {
            common: NetworkProtocolMng::new(ProtocolHeaderType::ICMPv6),
            default_hop_limit: 0,
        }
    }
}

} // verus!
