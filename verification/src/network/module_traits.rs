//! The interfaces the stack's layers implement. Each method is the
//! synchronous core of its operation: what a layer computes between
//! suspension points; the suspension itself belongs to the runtime's
//! tasks.

use vstd::prelude::*;

verus! {

/// A module that moves whole packets in and out.
pub trait AsyncNetIOModule<Pkt> {
    type RxResult;

    type TxResult;

    fn rx(&self, p: Pkt) -> Self::RxResult;

    fn tx(&self, p: Pkt) -> Self::TxResult;
}

/// The strictly synchronous variant of the packet-moving interface.
pub trait SyncNetIOModule<Pkt> {
    type RxResult;

    type TxResult;

    fn rx(&self, p: Pkt) -> Self::RxResult;

    fn tx(&self, p: Pkt) -> Self::TxResult;
}

/// One protocol layer's encode and decode steps.
pub trait AsyncProtocolModule<Pkt> {
    type EncodeResult;

    type DecodeResult;

    fn sync_encode(&self, p: Pkt) -> Self::EncodeResult;

    fn sync_decode(&self, p: Pkt) -> Self::DecodeResult;
}

/// The socket-layer interface: lifecycle plus packet movement.
pub trait AsyncSocketModule<Pkt> {
    type CreateParam;

    type ListenParam;

    type ConnParam;

    type CreateResult;

    type DestroyResult;

    type ListenResult;

    type ConnResult;

    type RxResult;

    type TxResult;

    fn create(&self, p: Self::CreateParam) -> Self::CreateResult;

    fn destroy(&self) -> Self::DestroyResult;

    fn listen(&self, p: Self::ListenParam) -> Self::ListenResult;

    fn connect(&self, p: Self::ConnParam) -> Self::ConnResult;

    fn rx(&self, p: Pkt) -> Self::RxResult;

    fn tx(&self, p: Pkt) -> Self::TxResult;
}

} // verus!
