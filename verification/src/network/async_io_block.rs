//! A coarse block-level interface: a module that accepts or produces a
//! packet and reports success or failure.

use vstd::prelude::*;

verus! {

pub trait AsyncNetIOBlock<Pkt> {
    type OutputOK;

    type OutputErr;

    fn rx(&self, p: Pkt) -> Result<Self::OutputOK, Self::OutputErr>;

    fn tx(&self, p: Pkt) -> Result<Self::OutputOK, Self::OutputErr>;
}

} // verus!
