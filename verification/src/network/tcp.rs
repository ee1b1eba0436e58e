//! The TCP layer: the connection table and the layer's encode/decode
//! steps.

use crate::network::module_traits::AsyncProtocolModule;
use crate::network::packet::NetworkPacket;
use crate::network::protocol::{
    MapKey, NetworkProtocolMng, ProtocolHeaderType, ProtocolMetaData,
};
use vstd::prelude::*;

verus! {

/// CIDR-aware key: a masked network address and its prefix length.
#[derive(Debug, Clone, Copy, PartialEq, Eq, Hash)]
pub struct TCPKey {
    pub network: u32,
    pub prefix: u8,
}

impl MapKey for TCPKey {
    open spec fn eq_spec(&self, other: &TCPKey) -> bool {
        self.network == other.network && self.prefix == other.prefix
    }

    proof fn lemma_eq_sym(&self, other: &TCPKey) {
    }

    proof fn lemma_eq_trans(&self, b: &TCPKey, c: &TCPKey) {
    }

    fn same_key(&self, other: &TCPKey) -> (r: bool) {
        self.network == other.network && self.prefix == other.prefix
    }
}

/// A TCP table entry: next hop, outbound interface, time to live.
#[derive(Debug, Clone)]
pub struct TCPEntry {
    pub next_hop: [u8; 4],
    pub iface: String,
    pub ttl: u64,
}

pub struct TCPProtocol {
    pub common: NetworkProtocolMng<TCPKey, TCPEntry>,
    pub ttl_default: u8,
    pub mtu: u16,
    pub allow_fragmentation: bool,
}

impl TCPProtocol {
    pub fn new() -> (p: TCPProtocol)
        ensures
            p.common.wf(),
            p.common.entries().len() == 0,
            p.common.header_type_spec() == ProtocolHeaderType::IPv4,
            p.ttl_default == 64,
            p.mtu == 1500,
            !p.allow_fragmentation,
    {
        TCPProtocol {
            common: NetworkProtocolMng::new(ProtocolHeaderType::IPv4),
            ttl_default: 64,
            mtu: 1500,
            allow_fragmentation: false,
        }
    }
}

impl AsyncProtocolModule<NetworkPacket> for TCPProtocol {
    type EncodeResult = (NetworkPacket, Result<(), ()>);

    type DecodeResult = (NetworkPacket, Result<ProtocolMetaData, ()>);

    fn sync_encode(&self, p: NetworkPacket) -> (r: Self::EncodeResult)
        ensures
            r.0 == p,
            r.1 is Ok,
    {
        (p, Ok(()))
    }

    fn sync_decode(&self, p: NetworkPacket) -> (r: Self::DecodeResult)
        ensures
            r.0 == p,
            r.1 is Ok,
            r.1->Ok_0.pt_spec() == ProtocolHeaderType::Socket,
    {
        let mut meta = ProtocolMetaData::new();
        meta.set_pt(ProtocolHeaderType::Socket);
        (p, Ok(meta))
    }
}

} // verus!
