//! The assembled stack: one instance of every layer, address
//! registration across layers, and the receive/transmit pipelines.

use crate::network::arp::ArpProtocol;
use crate::network::driver::NetworkDriver;
use crate::network::ethernet::{EthEntry, EthKey, EthernetProtocol, MacAddr};
use crate::network::icmpv4::ICMPv4Protocol;
use crate::network::icmpv6::ICMPv6Protocol;
use crate::network::ipv4::{IPv4Addr, IPv4Key, IPv4Protocol};
use crate::network::ipv6::IPv6Protocol;
use crate::network::module_traits::{AsyncNetIOModule, AsyncProtocolModule};
use crate::network::packet::NetworkPacket;
use crate::network::protocol::{
    MapKey, ProtocolHeaderType, ProtocolMetaData, ProtocolResValue,
};
use crate::network::socket::NetworkSocket;
use crate::network::tcp::TCPProtocol;
use crate::network::udp::UDPProtocol;
use vstd::prelude::*;

verus! {

pub struct NetworkStack {
    stack_type: ProtocolHeaderType,
    socket_layer: NetworkSocket,
    protocol_arp: ArpProtocol,
    protocol_ipv4: IPv4Protocol,
    protocol_ipv6: IPv6Protocol,
    protocol_icmpv4: ICMPv4Protocol,
    protocol_icmpv6: ICMPv6Protocol,
    protocol_udp: UDPProtocol,
    protocol_tcp: TCPProtocol,
    protocol_eth: EthernetProtocol,
    driver_layer: NetworkDriver,
}

/// The IPv4 table key an address is registered under.
pub open spec fn ipv4_key_of(addr: IPv4Addr) -> IPv4Key {
    IPv4Key {
        addr,
        sub: (ProtocolResValue { t: ProtocolHeaderType::Unspecified, v: None }),
    }
}

impl NetworkStack {
    pub closed spec fn stack_type_spec(&self) -> ProtocolHeaderType {
        self.stack_type
    }

    pub closed spec fn eth_spec(&self) -> EthernetProtocol {
        self.protocol_eth
    }

    pub closed spec fn ipv4_spec(&self) -> IPv4Protocol {
        self.protocol_ipv4
    }

    pub open spec fn wf(&self) -> bool {
        &&& self.eth_spec().wf()
        &&& self.ipv4_spec().wf()
    }

    /// A fresh Ethernet-based stack with empty tables on every layer.
    pub fn new_eth_stack() -> (s: NetworkStack)
        ensures
            s.wf(),
            s.stack_type_spec() == ProtocolHeaderType::Ethernet,
            s.eth_spec().common.entries().len() == 0,
            s.ipv4_spec().common.entries().len() == 0,
    {
        NetworkStack {
            stack_type: ProtocolHeaderType::Ethernet,
            socket_layer: NetworkSocket::new(),
            protocol_arp: ArpProtocol::new(),
            protocol_ipv4: IPv4Protocol::new(),
            protocol_ipv6: IPv6Protocol::new(),
            protocol_icmpv4: ICMPv4Protocol::new(),
            protocol_icmpv6: ICMPv6Protocol::new(),
            protocol_udp: UDPProtocol::new(),
            protocol_tcp: TCPProtocol::new(),
            protocol_eth: EthernetProtocol::new(),
            driver_layer: NetworkDriver {},
        }
    }

    /// Learns a MAC address on the Ethernet layer.
    pub fn add_mac(&mut self, mac: &MacAddr) -> (r: Result<(), ()>)
        requires
            old(self).wf(),
        ensures
            final(self).wf(),
            final(self).stack_type_spec() == old(self).stack_type_spec(),
            final(self).ipv4_spec() == old(self).ipv4_spec(),
            r is Ok <==> !old(self).eth_spec().common.contains_key_spec(
                &(EthKey { key: *mac }),
            ),
            r is Ok ==> final(self).eth_spec().common.entries().len()
                == old(self).eth_spec().common.entries().len() + 1
                && final(self).eth_spec().common.entries().last().1.mac_spec()
                    == *mac,
            r is Err ==> final(self).eth_spec().common.entries()
                == old(self).eth_spec().common.entries(),
    {
        self.protocol_eth.add_mac(mac, crate::network::subres::SubInfo::Empty)
    }

    /// Registers an IPv4 address over an already-resolved link-layer
    /// entry.
    fn add_ipv4_on_ethernet(&mut self, ip: IPv4Addr, sub: Option<EthEntry>) -> (r:
        Result<(), ()>)
        requires
            old(self).wf(),
        ensures
            final(self).wf(),
            final(self).stack_type_spec() == old(self).stack_type_spec(),
            final(self).eth_spec() == old(self).eth_spec(),
            sub is None ==> r is Err && final(self).ipv4_spec()
                == old(self).ipv4_spec(),
            sub is Some ==> (r is Ok <==> !old(self).ipv4_spec(
            ).common.contains_key_spec(&ipv4_key_of(ip))),
            r is Err ==> final(self).ipv4_spec().common.entries()
                == old(self).ipv4_spec().common.entries(),
    {
        match sub {
            None => Err(()),
            Some(eth_res) => self.protocol_ipv4.add_ipv4(ip, Some(eth_res)),
        }
    }

    /// Registers an IPv4 address according to the stack's own type.
    fn add_ipv4_internal(&mut self, ip: IPv4Addr, sub: Option<EthEntry>) -> (r: Result<
        (),
        (),
    >)
        requires
            old(self).wf(),
        ensures
            final(self).wf(),
            final(self).stack_type_spec() == old(self).stack_type_spec(),
            final(self).eth_spec() == old(self).eth_spec(),
            old(self).stack_type_spec() != ProtocolHeaderType::Ethernet
                ==> r is Err && final(self).ipv4_spec() == old(self).ipv4_spec(),
            r is Err ==> final(self).ipv4_spec().common.entries()
                == old(self).ipv4_spec().common.entries(),
    {
        match self.stack_type {
            ProtocolHeaderType::Ethernet => self.add_ipv4_on_ethernet(ip, sub),
            _ => Err(()),
        }
    }

    /// Registers an IPv4 address: the sub-address must name a MAC the
    /// Ethernet layer already knows, and the address must not be bound
    /// yet.
    pub fn add_ipv4(&mut self, ip: IPv4Addr, sub_addr: Option<&MacAddr>) -> (r: Result<
        (),
        (),
    >)
        requires
            old(self).wf(),
        ensures
            final(self).wf(),
            final(self).stack_type_spec() == old(self).stack_type_spec(),
            final(self).eth_spec() == old(self).eth_spec(),
            r is Ok <==> (match sub_addr {
                Some(mac) => old(self).eth_spec().common.contains_key_spec(
                    &(EthKey { key: *mac }),
                ) && !old(self).ipv4_spec().common.contains_key_spec(
                    &ipv4_key_of(ip),
                ),
                None => false,
            }),
            r is Err ==> final(self).ipv4_spec().common.entries()
                == old(self).ipv4_spec().common.entries(),
            r is Ok ==> ({
                &&& final(self).ipv4_spec().common.entries().len()
                    == old(self).ipv4_spec().common.entries().len() + 1
                &&& final(self).ipv4_spec().common.entries().last().0.eq_spec(
                    &ipv4_key_of(ip),
                )
                &&& final(self).ipv4_spec().common.entries().last().1.addr_spec()
                    == ip
                &&& final(self).ipv4_spec().common.entries().last().1.sub_spec()
                    is Some
            }),
    {
        let mac = match sub_addr {
            Some(m) => m,
            None => {
                return Err(());
            }
        };
        let search_res = self.protocol_eth.search_mac(mac);
        match search_res {
            Ok(mac_res) => self.protocol_ipv4.add_ipv4(ip, Some(mac_res)),
            Err(()) => Err(()),
        }
    }
}

impl AsyncNetIOModule<NetworkPacket> for NetworkStack {
    type RxResult = (NetworkPacket, Result<(), ()>);

    type TxResult = (NetworkPacket, Result<(), ()>);

    /// The receive pipeline: driver, then decode L2, L3, L4 in turn,
    /// dispatching on the metadata each layer hands up, then the socket
    /// layer. On an Ethernet stack every stage accepts, so receiving
    /// succeeds and the packet comes through unchanged.
    fn rx(&self, p: NetworkPacket) -> (r: Self::RxResult)
        ensures
            r.0 == p,
            r.1 is Ok <==> self.stack_type_spec() == ProtocolHeaderType::Ethernet,
    {
        let (p, _meta) = match self.driver_layer.rx(p) {
            (p, Result::Ok(m)) => (p, m),
            (p, Result::Err(())) => {
                return (p, Err(()));
            }
        };
        match self.stack_type {
            ProtocolHeaderType::Ethernet => {
                let (p, res) = self.protocol_eth.sync_decode(p);
                let l3_meta = match res {
                    Ok(meta) => meta,
                    Err(()) => {
                        return (p, Err(()));
                    }
                };
                let (p, res) = match l3_meta.get_pt() {
                    ProtocolHeaderType::ARP => {
                        let (p, r2) = self.protocol_arp.sync_decode(p);
                        (p, r2)
                    }
                    ProtocolHeaderType::IPv4 => self.protocol_ipv4.sync_decode(p),
                    ProtocolHeaderType::IPv6 => self.protocol_ipv6.sync_decode(p),
                    _ => {
                        return (p, Err(()));
                    }
                };
                let l4_meta = match res {
                    Ok(meta) => meta,
                    Err(()) => {
                        return (p, Err(()));
                    }
                };
                let (p, res) = match l4_meta.get_pt() {
                    ProtocolHeaderType::UDP => self.protocol_udp.sync_decode(p),
                    ProtocolHeaderType::TCP => self.protocol_tcp.sync_decode(p),
                    _ => {
                        return (p, Err(()));
                    }
                };
                match res {
                    Ok(_app_meta) => self.socket_layer.rx(p),
                    Err(()) => (p, Err(())),
                }
            }
            _ => (p, Err(())),
        }
    }

    /// The transmit pipeline: socket layer, every encode step, then the
    /// driver. Every stage accepts, so transmitting succeeds and the
    /// packet comes through unchanged.
    fn tx(&self, p: NetworkPacket) -> (r: Self::TxResult)
        ensures
            r.0 == p,
            r.1 is Ok,
    {
        let (p, _r1) = self.socket_layer.tx(p);
        let (p, _r2) = self.protocol_eth.sync_encode(p);
        let (p, _r3) = self.protocol_arp.sync_encode(p);
        let (p, _r4) = self.protocol_ipv4.sync_encode(p);
        let (p, _r5) = self.protocol_ipv6.sync_encode(p);
        let (p, _r6) = self.driver_layer.tx(p);
        (p, Ok(()))
    }
}

} // verus!
