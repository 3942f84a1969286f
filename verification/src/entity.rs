use vstd::prelude::*;

use crate::url::VersionedUrl;

verus! {

/// The identifier of an entity: the web that owns it and its own UUID.
#[derive(Debug, Clone, Copy, PartialEq, Eq, Structural, Hash)]
pub struct EntityId {
    pub owned_by_id: u128,
    pub entity_uuid: u128,
}

/// The two ends of a link entity.
#[derive(Debug, Clone, Copy, PartialEq, Eq, Structural)]
pub struct LinkData {
    pub left_entity_id: EntityId,
    pub right_entity_id: EntityId,
}

/// An entity as a node of a view's graph.
#[derive(Debug, Clone)]
pub struct EntityNode {
    pub id: EntityId,
    /// The entity's type, where it has one.
    pub type_: Option<VersionedUrl>,
    /// The ends of the link, where the entity is a link.
    pub link_data: Option<LinkData>,
}

impl EntityNode {
    /// The left end of the link, where the entity is a link.
    pub open spec fn spec_left(self) -> Option<EntityId> {
        match self.link_data {
            Some(link) => Some(link.left_entity_id),
            None => None,
        }
    }

    /// The right end of the link, where the entity is a link.
    pub open spec fn spec_right(self) -> Option<EntityId> {
        match self.link_data {
            Some(link) => Some(link.right_entity_id),
            None => None,
        }
    }

    pub fn left_entity_id(&self) -> (r: Option<EntityId>)
        ensures
            r == self.spec_left(),
    {
        match &self.link_data {
            Some(link) => Some(link.left_entity_id),
            None => None,
        }
    }

    pub fn right_entity_id(&self) -> (r: Option<EntityId>)
        ensures
            r == self.spec_right(),
    {
        match &self.link_data {
            Some(link) => Some(link.right_entity_id),
            None => None,
        }
    }
}

} // verus!
