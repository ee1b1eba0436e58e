//! A user application bound to a stack: the topmost producer and
//! consumer of packets.

use crate::network::module_traits::AsyncNetIOModule;
use crate::network::packet::NetworkPacket;
use crate::network::stack::NetworkStack;
use vstd::prelude::*;

verus! {

pub struct UsrApplication {
    stack: NetworkStack,
}

impl UsrApplication {
    pub closed spec fn stack_spec(&self) -> NetworkStack {
        self.stack
    }

    pub fn new(stack: NetworkStack) -> (a: UsrApplication)
        ensures
            a.stack_spec() == stack,
    {
        UsrApplication { stack }
    }
}

impl AsyncNetIOModule<NetworkPacket> for UsrApplication {
    type RxResult = (NetworkPacket, Result<(), ()>);

    type TxResult = (NetworkPacket, Result<(), ()>);

    fn rx(&self, p: NetworkPacket) -> (r: Self::RxResult)
        ensures
            r.0 == p,
            r.1 is Ok,
    {
        (p, Ok(()))
    }

    fn tx(&self, p: NetworkPacket) -> (r: Self::TxResult)
        ensures
            r.0 == p,
            r.1 is Ok,
    {
        (p, Ok(()))
    }
}

} // verus!
