use vstd::prelude::*;

use std::rc::Rc;

use crate::namespace_ref::NamespaceRef;

verus! {

/// A flat collection of shared namespace references.
pub struct NamespaceRefManager {
    pub namespace_refs: Vec<Rc<NamespaceRef>>,
}

impl NamespaceRefManager {
    /// Starts with no references.
    pub fn new() -> (r: NamespaceRefManager)
        ensures
            r.namespace_refs@.len() == 0,
    {
        NamespaceRefManager { namespace_refs: Vec::new() }
    }
}

} // verus!
