use vstd::prelude::*;

verus! {

/// The chattiest sites and tags of a whole run, chattiest first.
#[derive(Clone, Debug)]
pub struct TotalStats {
    pub chatty_sites: Vec<String>,
    pub chatty_tags: Vec<String>,
}

} // verus!
