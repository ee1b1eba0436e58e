//! The socket layer: a table of open sockets, each tied to the
//! application that owns it.

use crate::network::module_traits::AsyncNetIOModule;
use crate::network::packet::NetworkPacket;
use crate::network::protocol::{NetworkProtocolMng, ProtocolHeaderType};
use vstd::prelude::*;

verus! {

/// One open socket: its id and the id of the owning application.
pub struct SocketRes {
    pub id: u64,
    pub owner_app_id: u64,
}

pub struct NetworkSocket {
    common: NetworkProtocolMng<u64, SocketRes>,
}

impl NetworkSocket {
    pub closed spec fn common_spec(&self) -> NetworkProtocolMng<u64, SocketRes> {
        self.common
    }

    pub fn new() -> (s: NetworkSocket)
        ensures
            s.common_spec().wf(),
            s.common_spec().entries().len() == 0,
    {
        NetworkSocket {
            common: NetworkProtocolMng::new(ProtocolHeaderType::Unspecified),
        }
    }
}

impl AsyncNetIOModule<NetworkPacket> for NetworkSocket {
    type RxResult = (NetworkPacket, Result<(), ()>);

    type TxResult = (NetworkPacket, Result<(), ()>);

    fn rx(&self, p: NetworkPacket) -> (r: Self::RxResult)
        ensures
            r.0 == p,
            r.1 is Ok,
    {
        (p, Ok(()))
    }

    fn tx(&self, p: NetworkPacket) -> (r: Self::TxResult)
        ensures
            r.0 == p,
            r.1 is Ok,
    {
        (p, Ok(()))
    }
}

} // verus!
