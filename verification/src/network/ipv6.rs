//! The IPv6 layer: the prefix table and the layer's encode/decode steps.

use crate::network::module_traits::AsyncProtocolModule;
use crate::network::packet::NetworkPacket;
use crate::network::protocol::{
    bytes_eq, MapKey, NetworkProtocolMng, ProtocolHeaderType, ProtocolMetaData,
};
use vstd::prelude::*;

verus! {

/// CIDR-aware IPv6 key: a masked network address and its prefix length.
#[derive(Debug, Clone, Copy, PartialEq, Eq, Hash)]
pub struct Ipv6Key {
    pub network: [u8; 16],
    pub prefix: u8,
}

impl MapKey for Ipv6Key {
    open spec fn eq_spec(&self, other: &Ipv6Key) -> bool {
        self.network@ == other.network@ && self.prefix == other.prefix
    }

    proof fn lemma_eq_sym(&self, other: &Ipv6Key) {
    }

    proof fn lemma_eq_trans(&self, b: &Ipv6Key, c: &Ipv6Key) {
    }

    fn same_key(&self, other: &Ipv6Key) -> (r: bool) {
        bytes_eq(self.network.as_slice(), other.network.as_slice())
            && self.prefix == other.prefix
    }
}

/// An IPv6 table entry: next hop, outbound interface, hop limit.
#[derive(Debug, Clone)]
pub struct Ipv6Entry {
    pub next_hop: [u8; 16],
    pub iface: String,
    pub hop_limit: u8,
}

pub struct IPv6Protocol {
    pub common: NetworkProtocolMng<Ipv6Key, Ipv6Entry>,
    pub hop_limit_default: u8,
    pub mtu: u32,
}

impl IPv6Protocol {
    pub fn new() -> (p: IPv6Protocol)
        ensures
            p.common.wf(),
            p.common.entries().len() == 0,
            p.common.header_type_spec() == ProtocolHeaderType::IPv6,
            p.hop_limit_default == 64,
            p.mtu == 1500,
    {
        IPv6Protocol {
            common: NetworkProtocolMng::new(ProtocolHeaderType::IPv6),
            mtu: 1500,
            hop_limit_default: 64,
        }
    }
}

impl AsyncProtocolModule<NetworkPacket> for IPv6Protocol {
    type EncodeResult = (NetworkPacket, Result<(), ()>);

    type DecodeResult = (NetworkPacket, Result<ProtocolMetaData, ()>);

    fn sync_encode(&self, p: NetworkPacket) -> (r: Self::EncodeResult)
        ensures
            r.0 == p,
            r.1 is Ok,
    {
        (p, Ok(()))
    }

    fn sync_decode(&self, p: NetworkPacket) -> (r: Self::DecodeResult)
        ensures
            r.0 == p,
            r.1 is Ok,
            r.1->Ok_0.pt_spec() == ProtocolHeaderType::UDP,
    {
        let mut meta = ProtocolMetaData::new();
        meta.set_pt(ProtocolHeaderType::UDP);
        (p, Ok(meta))
    }
}

} // verus!
