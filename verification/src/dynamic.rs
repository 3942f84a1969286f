use vstd::prelude::*;

use crate::entity::EntityNode;
use crate::view::EntityView;

verus! {

/// A test on an entity node that the user of the library supplies.
pub trait NodePredicate: Sized {
    /// Whether the test holds of `node` in `view`.
    spec fn spec_holds(&self, view: EntityView, node: EntityNode) -> bool;

    fn holds(&self, view: &EntityView, node: &EntityNode) -> (r: bool)
        ensures
            r == self.spec_holds(*view, *node),
    ;
}

/// The test that holds of no node; it stands where a clause tree uses no test of the user.
#[derive(Debug, Clone, Copy)]
pub struct NoPredicate;

impl NodePredicate for NoPredicate {
    open spec fn spec_holds(&self, view: EntityView, node: EntityNode) -> bool {
        false
    }

    fn holds(&self, view: &EntityView, node: &EntityNode) -> (r: bool) {
        false
    }
}

/// A clause that consists of a test of the user.
pub struct DynamicMatch<P> {
    dynamic: P,
}

impl<P: NodePredicate> DynamicMatch<P> {
    /// The test of the user.
    pub closed spec fn predicate(self) -> P {
        self.dynamic
    }

    pub fn new(dynamic: P) -> (r: Self)
        ensures
            r.predicate() == dynamic,
    {
        Self { dynamic }
    }

    /// Whether the test holds of `node` in `view`.
    pub fn matches(&self, view: &EntityView, node: &EntityNode) -> (r: bool)
        ensures
            r == self.predicate().spec_holds(*view, *node),
    {
        self.dynamic.holds(view, node)
    }
}

} // verus!
