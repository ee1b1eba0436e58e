//! An earlier cut of the module interfaces, kept for API compatibility:
//! the same shapes as `module_traits`, for implementors that hand their
//! results back as plain values.

use vstd::prelude::*;

verus! {

pub trait AsyncNetIOModule<Pkt> {
    type RxResult;

    type TxResult;

    fn rx(&self, p: Pkt) -> Self::RxResult;

    fn tx(&self, p: Pkt) -> Self::TxResult;
}

pub trait AsyncSocketModule<Pkt> {
    type CreateParam;

    type ListenParam;

    type ConnParam;

    type CreateResult;

    type DestroyResult;

    type ListenResult;

    type ConnResult;

    type RxResult;

    type TxResult;

    fn create(&self, p: Self::CreateParam) -> Self::CreateResult;

    fn destroy(&self) -> Self::DestroyResult;

    fn listen(&self, p: Self::ListenParam) -> Self::ListenResult;

    fn connect(&self, p: Self::ConnParam) -> Self::ConnResult;

    fn rx(&self, p: Pkt) -> Self::RxResult;

    fn tx(&self, p: Pkt) -> Self::TxResult;
}

} // verus!
