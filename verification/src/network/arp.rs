//! The ARP layer: a cache from IPv4 addresses to MAC addresses.

use crate::network::module_traits::AsyncProtocolModule;
use crate::network::packet::NetworkPacket;
use crate::network::protocol::{
    bytes_eq, MapKey, NetworkProtocolMng, ProtocolHeaderType, ProtocolMetaData,
};
use vstd::prelude::*;

verus! {

#[derive(Debug, Clone, Copy, PartialEq, Eq, Hash)]
pub struct ArpKey {
    pub ip_addr: [u8; 4],
}

impl MapKey for ArpKey {
    open spec fn eq_spec(&self, other: &ArpKey) -> bool {
        self.ip_addr@ == other.ip_addr@
    }

    proof fn lemma_eq_sym(&self, other: &ArpKey) {
    }

    proof fn lemma_eq_trans(&self, b: &ArpKey, c: &ArpKey) {
    }

    fn same_key(&self, other: &ArpKey) -> (r: bool) {
        bytes_eq(self.ip_addr.as_slice(), other.ip_addr.as_slice())
    }
}

#[derive(Debug)]
pub struct ArpEntry {
    pub mac_addr: [u8; 6],
    pub ttl: u64,
}

pub struct ArpProtocol {
    common: NetworkProtocolMng<ArpKey, ArpEntry>,
    cache_timeout: u64,
}

impl ArpProtocol {
    pub closed spec fn common_spec(&self) -> NetworkProtocolMng<ArpKey, ArpEntry> {
        self.common
    }

    pub fn new() -> (a: ArpProtocol)
        ensures
            a.common_spec().wf(),
            a.common_spec().entries().len() == 0,
            a.common_spec().header_type_spec() == ProtocolHeaderType::ARP,
    {
        ArpProtocol {
            common: NetworkProtocolMng::new(ProtocolHeaderType::ARP),
            cache_timeout: 0,
        }
    }
}

impl AsyncProtocolModule<NetworkPacket> for ArpProtocol {
    type EncodeResult = (NetworkPacket, Result<ProtocolMetaData, ()>);

    type DecodeResult = (NetworkPacket, Result<ProtocolMetaData, ()>);

    fn sync_encode(&self, p: NetworkPacket) -> (r: Self::EncodeResult)
        ensures
            r.0 == p,
            r.1 is Ok,
            r.1->Ok_0.pt_spec() == ProtocolHeaderType::Unspecified,
    {
        (p, Ok(ProtocolMetaData::new()))
    }

    fn sync_decode(&self, p: NetworkPacket) -> (r: Self::DecodeResult)
        ensures
            r.0 == p,
            r.1 is Ok,
            r.1->Ok_0.pt_spec() == ProtocolHeaderType::Unspecified,
    {
        (p, Ok(ProtocolMetaData::new()))
    }
}

} // verus!
