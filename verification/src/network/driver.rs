//! The driver layer: the lowest stage of the pipeline. In this build it
//! accepts every packet unchanged.

use crate::network::module_traits::AsyncNetIOModule;
use crate::network::packet::NetworkPacket;
use crate::network::protocol::{ProtocolHeaderType, ProtocolMetaData};
use vstd::prelude::*;

verus! {

pub struct NetworkDriver {
}

impl AsyncNetIOModule<NetworkPacket> for NetworkDriver {
    type RxResult = (NetworkPacket, Result<ProtocolMetaData, ()>);

    type TxResult = (NetworkPacket, Result<(), ()>);

    fn rx(&self, p: NetworkPacket) -> (r: Self::RxResult)
        ensures
            r.0 == p,
            r.1 is Ok,
            r.1->Ok_0.pt_spec() == ProtocolHeaderType::Unspecified,
    {
        (p, Ok(ProtocolMetaData::new()))
    }

    fn tx(&self, p: NetworkPacket) -> (r: Self::TxResult)
        ensures
            r.0 == p,
            r.1 is Ok,
    {
        (p, Ok(()))
    }
}

} // verus!
