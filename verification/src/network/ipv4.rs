//! The IPv4 layer: the address table and the layer's encode/decode
//! steps.

use crate::network::ethernet::EthEntry;
use crate::network::module_traits::AsyncProtocolModule;
use crate::network::packet::NetworkPacket;
use crate::network::protocol::{
    bytes_eq, MapKey, NetworkProtocolMng, ProtocolHeaderType, ProtocolMetaData,
    ProtocolResValue,
};
use vstd::prelude::*;

verus! {

#[derive(Debug, Clone, Copy, PartialEq, Eq)]
pub struct IPv4Addr {
    pub val: [u8; 6],
}

/// Dispatch key of the IPv4 table: the address plus a qualifying
/// sub-resource value.
#[derive(Debug, Clone, PartialEq, Eq)]
pub struct IPv4Key {
    pub addr: IPv4Addr,
    pub sub: ProtocolResValue,
}

impl IPv4Key {
    pub fn new(addr: IPv4Addr, sub: ProtocolResValue) -> (k: IPv4Key)
        ensures
            k.addr == addr,
            k.sub == sub,
    {
        IPv4Key { addr, sub }
    }
}

impl MapKey for IPv4Key {
    open spec fn eq_spec(&self, other: &IPv4Key) -> bool {
        self.addr.val@ == other.addr.val@ && self.sub.matches_spec(&other.sub)
    }

    proof fn lemma_eq_sym(&self, other: &IPv4Key) {
    }

    proof fn lemma_eq_trans(&self, b: &IPv4Key, c: &IPv4Key) {
    }

    fn same_key(&self, other: &IPv4Key) -> (r: bool) {
        bytes_eq(self.addr.val.as_slice(), other.addr.val.as_slice())
            && self.sub.matches(&other.sub)
    }
}

/// An IPv4 table entry: the (masked) address, its mask and MTU, and the
/// link-layer entry it resolves through, if any.
#[derive(Debug, Clone, Copy)]
pub struct IPv4Entry {
    addr: IPv4Addr,
    mask: u8,
    mtu: u16,
    sub: Option<EthEntry>,
}

impl IPv4Entry {
    pub closed spec fn addr_spec(&self) -> IPv4Addr {
        self.addr
    }

    pub closed spec fn mask_spec(&self) -> u8 {
        self.mask
    }

    pub closed spec fn mtu_spec(&self) -> u16 {
        self.mtu
    }

    pub closed spec fn sub_spec(&self) -> Option<EthEntry> {
        self.sub
    }

    pub fn new(addr: IPv4Addr, mtu: u16, sub: Option<EthEntry>) -> (e: IPv4Entry)
        ensures
            e.addr_spec() == addr,
            e.mask_spec() == 0,
            e.mtu_spec() == mtu,
            e.sub_spec() == sub,
    {
        IPv4Entry { addr, mask: 0, mtu, sub }
    }
}

pub struct IPv4Protocol {
    pub common: NetworkProtocolMng<IPv4Key, IPv4Entry>,
    pub ttl_default: u8,
    pub mtu: u16,
    pub allow_fragmentation: bool,
}

impl IPv4Protocol {
    pub open spec fn wf(&self) -> bool {
        self.common.wf()
    }

    pub fn new() -> (p: IPv4Protocol)
        ensures
            p.wf(),
            p.common.entries().len() == 0,
            p.common.header_type_spec() == ProtocolHeaderType::IPv4,
            p.ttl_default == 64,
            p.mtu == 1500,
            !p.allow_fragmentation,
    {
        IPv4Protocol {
            common: NetworkProtocolMng::new(ProtocolHeaderType::IPv4),
            ttl_default: 64,
            mtu: 1500,
            allow_fragmentation: false,
        }
    }

    /// Binds an address, with a default sub-resource key and an MTU of
    /// 1000, if and only if it is not yet bound.
    pub fn add_ipv4(&mut self, addr: IPv4Addr, sub: Option<EthEntry>) -> (r: Result<
        (),
        (),
    >)
        requires
            old(self).wf(),
        ensures
            final(self).wf(),
            ({
                let key = (IPv4Key {
                    addr,
                    sub: (ProtocolResValue {
                        t: ProtocolHeaderType::Unspecified,
                        v: None,
                    }),
                });
                match r {
                    Ok(()) => {
                        &&& !old(self).common.contains_key_spec(&key)
                        &&& final(self).common.entries().len()
                            == old(self).common.entries().len() + 1
                        &&& forall|i: int| 0 <= i < old(self).common.entries().len()
                            ==> final(self).common.entries()[i]
                                == old(self).common.entries()[i]
                        &&& final(self).common.entries().last().0.eq_spec(&key)
                        &&& final(self).common.entries().last().1.addr_spec() == addr
                        &&& final(self).common.entries().last().1.mtu_spec() == 1000
                        &&& final(self).common.entries().last().1.sub_spec() == sub
                    },
                    Err(()) => old(self).common.contains_key_spec(&key)
                        && final(self).common.entries()
                        == old(self).common.entries(),
                }
            }),
    {
        let key = IPv4Key::new(addr, ProtocolResValue::default());
        let ent = IPv4Entry::new(addr, 1000, sub);
        let r = self.common.insert_vacant(key, ent);
        r
    }
}

impl AsyncProtocolModule<NetworkPacket> for IPv4Protocol {
    type EncodeResult = (NetworkPacket, Result<(), ()>);

    type DecodeResult = (NetworkPacket, Result<ProtocolMetaData, ()>);

    fn sync_encode(&self, p: NetworkPacket) -> (r: Self::EncodeResult)
        ensures
            r.0 == p,
            r.1 is Ok,
    {
        (p, Ok(()))
    }

    fn sync_decode(&self, p: NetworkPacket) -> (r: Self::DecodeResult)
        ensures
            r.0 == p,
            r.1 is Ok,
            r.1->Ok_0.pt_spec() == ProtocolHeaderType::UDP,
    {
        let mut meta = ProtocolMetaData::new();
        meta.set_pt(ProtocolHeaderType::UDP);
        (p, Ok(meta))
    }
}

} // verus!
