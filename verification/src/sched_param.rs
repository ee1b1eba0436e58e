//! Startup parameters handed to a worker's scheduler.

use vstd::prelude::*;

verus! {

pub struct SchedParams {
    id: usize,
    name: String,
}

impl SchedParams {
    pub closed spec fn id_spec(&self) -> usize {
        self.id
    }

    pub closed spec fn name_spec(&self) -> Seq<char> {
        self.name@
    }

    pub fn new(id: usize, name: String) -> (p: SchedParams)
        ensures
            p.id_spec() == id,
            p.name_spec() == name@,
    {
        SchedParams { id, name }
    }

    pub fn get_id(&self) -> (r: usize)
        ensures
            r == self.id_spec(),
    {
        self.id
    }
}

} // verus!
