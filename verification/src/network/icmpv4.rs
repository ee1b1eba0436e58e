//! The ICMPv4 layer: a table of echo handlers keyed by destination,
//! type and code.

use crate::network::protocol::{
    bytes_eq, MapKey, NetworkProtocolMng, ProtocolHeaderType,
};
use vstd::prelude::*;

verus! {

/// ICMPv4 key: destination IPv4 address, message type and code.
#[derive(Debug, Clone, Copy, PartialEq, Eq, Hash)]
pub struct Icmpv4Key {
    pub dst: [u8; 4],
    pub icmp_type: u8,
    pub icmp_code: u8,
}

impl MapKey for Icmpv4Key {
    open spec fn eq_spec(&self, other: &Icmpv4Key) -> bool {
        self.dst@ == other.dst@ && self.icmp_type == other.icmp_type
            && self.icmp_code == other.icmp_code
    }

    proof fn lemma_eq_sym(&self, other: &Icmpv4Key) {
    }

    proof fn lemma_eq_trans(&self, b: &Icmpv4Key, c: &Icmpv4Key) {
    }

    fn same_key(&self, other: &Icmpv4Key) -> (r: bool) {
        bytes_eq(self.dst.as_slice(), other.dst.as_slice())
            && self.icmp_type == other.icmp_type
            && self.icmp_code == other.icmp_code
    }
}

/// ICMPv4 resource: reply template or handler metadata.
#[derive(Debug, Clone)]
pub struct Icmpv4Entry {
    pub description: String,
    pub ttl: u64,
    pub identifier: Option<u16>,
    pub sequence: Option<u16>,
}

pub struct ICMPv4Protocol {
    pub common: NetworkProtocolMng<Icmpv4Key, Icmpv4Entry>,
    pub default_ttl: u64,
}

impl ICMPv4Protocol {
    pub fn new() -> (p: ICMPv4Protocol)
        ensures
            p.common.wf(),
            p.common.entries().len() == 0,
            p.common.header_type_spec() == ProtocolHeaderType::ICMPv4,
            p.default_ttl == 0,
    {
        ICMPv4Protocol {
            common: NetworkProtocolMng::new(ProtocolHeaderType::ICMPv4),
            default_ttl: 0,
        }
    }
}

} // verus!
