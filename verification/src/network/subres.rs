//! Sub-resource attached to a table entry: nothing, a MAC address, or a
//! VLAN tag.

use crate::network::ethernet::MacAddr;
use vstd::prelude::*;

verus! {

#[derive(Debug, Clone, Copy)]
pub enum SubInfo {
    Empty,
    Mac(MacAddr),
    Vlan(u16),
}

impl Default for SubInfo {
    fn default() -> (r: SubInfo)
        ensures
            r is Empty,
    {
        SubInfo::Empty
    }
}

} // verus!
