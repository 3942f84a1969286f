use vstd::prelude::*;

use std::collections::BTreeSet;

use petgraph::graph::Graph;
use petgraph::Directed;

use crate::entity::{EntityId, EntityNode};
use crate::graph::{graph_add_node, graph_new, graph_node_count, graph_node_weight, graph_nodes};
use crate::url::{VersionedUrl, VersionedUrlRef};

verus! {

broadcast use vstd::laws_cmp::group_laws_cmp, vstd::std_specs::btree::group_btree_axioms;

/// An entry of the inheritance table: the types that a type inherits from.
#[derive(Debug, Clone)]
pub struct Inheritance {
    pub type_: VersionedUrl,
    pub inherits_from: Vec<VersionedUrl>,
}

/// The index of the first lookup entry for `id`.
pub open spec fn lookup_index(entries: Seq<(EntityId, usize)>, id: EntityId) -> Option<usize>
    decreases entries.len(),
{
    if entries.len() == 0 {
        None
    } else if entries[0].0 == id {
        Some(entries[0].1)
    } else {
        lookup_index(entries.drop_first(), id)
    }
}

/// The URLs of the first table entry for type `t`, empty where it has none.
pub open spec fn inherited(table: Seq<Inheritance>, t: (Seq<char>, u32)) -> Seq<(Seq<char>, u32)>
    decreases table.len(),
{
    if table.len() == 0 {
        Seq::empty()
    } else if table[0].type_@ == t {
        table[0].inherits_from@.map_values(|u: VersionedUrl| u@)
    } else {
        inherited(table.drop_first(), t)
    }
}

/// A graph of entities, an index from entity ids to nodes, the inheritance table of the types,
/// and the set of nodes that earlier selections have excluded.
pub struct EntityView {
    graph: Graph<EntityNode, (), Directed, u32>,
    lookup: Vec<(EntityId, usize)>,
    inherits: Vec<Inheritance>,
    exclude: BTreeSet<usize>,
}

impl EntityView {
    /// Every lookup entry and every excluded index names a node; the graph has room below the
    /// bound of its 32-bit indices.
    pub closed spec fn wf(self) -> bool {
        &&& graph_nodes(self.graph).len() < u32::MAX
        &&& forall|i: int|
            0 <= i < self.lookup@.len() ==> #[trigger] self.lookup@[i].1 < graph_nodes(
                self.graph,
            ).len()
        &&& forall|i: usize| #[trigger]
            self.exclude@.contains(i) ==> i < graph_nodes(self.graph).len()
    }

    /// The node weights, in index order.
    pub closed spec fn nodes(self) -> Seq<EntityNode> {
        graph_nodes(self.graph)
    }

    /// The indices of the excluded nodes.
    pub closed spec fn excluded(self) -> Set<usize> {
        self.exclude@
    }

    /// The node that the lookup gives for an entity id.
    pub closed spec fn node_of(self, id: EntityId) -> Option<EntityNode> {
        match lookup_index(self.lookup@, id) {
            Some(i) => if i < self.nodes().len() {
                Some(self.nodes()[i as int])
            } else {
                None
            },
            None => None,
        }
    }

    /// The URLs of the types that type `t` inherits from.
    pub closed spec fn inherits_from(self, t: (Seq<char>, u32)) -> Seq<(Seq<char>, u32)> {
        inherited(self.inherits@, t)
    }

    /// Whether the table has an entry for type `t`.
    pub closed spec fn has_inheritance(self, t: (Seq<char>, u32)) -> bool {
        inherited_has(self.inherits@, t)
    }

    /// The indices of the nodes that are not excluded.
    pub open spec fn included(self) -> Set<usize> {
        Set::new(|i: usize| i < self.nodes().len() && !self.excluded().contains(i))
    }

    /// An empty view.
    pub fn new() -> (r: Self)
        ensures
            r.wf(),
            r.nodes() == Seq::<EntityNode>::empty(),
            r.excluded() == Set::<usize>::empty(),
            forall|id: EntityId| r.node_of(id) is None,
            forall|t: (Seq<char>, u32)| r.inherits_from(t) == Seq::<(Seq<char>, u32)>::empty(),
    {
        let r = EntityView {
            graph: graph_new(),
            lookup: Vec::new(),
            inherits: Vec::new(),
            exclude: BTreeSet::new(),
        };
        assert forall|t: (Seq<char>, u32)| inherited(r.inherits@, t) == Seq::<(Seq<char>, u32)>::empty() by {}
        r
    }

    /// The number of nodes.
    pub fn node_count(&self) -> (n: usize)
        ensures
            n == self.nodes().len(),
    {
        graph_node_count(&self.graph)
    }

    /// Adds an entity as a new node and indexes it by its id. `None`, and no change, where the
    /// graph has no room left for another node.
    pub fn add_entity(&mut self, node: EntityNode) -> (r: Option<usize>)
        requires
            old(self).wf(),
        ensures
            final(self).wf(),
            old(self).nodes().len() + 1 < u32::MAX ==> {
                &&& r == Some(old(self).nodes().len() as usize)
                &&& final(self).nodes() == old(self).nodes().push(node)
                &&& final(self).excluded() == old(self).excluded()
                &&& forall|t: (Seq<char>, u32)| #[trigger]
                    final(self).inherits_from(t) == old(self).inherits_from(t)
                &&& forall|id: EntityId| #[trigger]
                    final(self).node_of(id) == if old(self).node_of(id) is Some {
                        old(self).node_of(id)
                    } else if id == node.id {
                        Some(node)
                    } else {
                        None
                    }
            },
            old(self).nodes().len() + 1 >= u32::MAX ==> r is None && *final(self) == *old(self),
    {
        let n = graph_node_count(&self.graph);
        if n >= u32::MAX as usize - 1 {
            return None;
        }
        let id = node.id;
        let ghost old_lookup = self.lookup@;
        let ghost old_nodes = graph_nodes(self.graph);
        let i = graph_add_node(&mut self.graph, node);
        self.lookup.push((id, i));
        proof {
            assert forall|k: EntityId| lookup_index(self.lookup@, k) == (if lookup_index(old_lookup, k) is Some {
                lookup_index(old_lookup, k)
            } else if k == id {
                Some(i)
            } else {
                None
            }) by {
                lemma_lookup_push(old_lookup, (id, i), k);
            }
            assert forall|k: EntityId| lookup_index(old_lookup, k) is Some implies lookup_index(old_lookup, k)->0 < old_nodes.len() by {
                lemma_lookup_bound(old_lookup, k, old_nodes.len());
            }
        }
        Some(i)
    }

    /// The node that the lookup gives for an entity id.
    pub fn lookup_node(&self, id: EntityId) -> (r: Option<&EntityNode>)
        requires
            self.wf(),
        ensures
            match r {
                Some(n) => self.node_of(id) == Some(*n),
                None => self.node_of(id) is None,
            },
    {
        let mut i: usize = 0;
        assert(self.lookup@.skip(0) =~= self.lookup@);
        while i < self.lookup.len()
            invariant
                self.wf(),
                i <= self.lookup@.len(),
                lookup_index(self.lookup@, id) == lookup_index(self.lookup@.skip(i as int), id),
            decreases self.lookup@.len() - i,
        {
            assert(self.lookup@.skip(i as int)[0] == self.lookup@[i as int]);
            assert(self.lookup@.skip(i as int).drop_first() =~= self.lookup@.skip(i + 1));
            if self.lookup[i].0 == id {
                let index = self.lookup[i].1;
                return graph_node_weight(&self.graph, index);
            }
            i = i + 1;
        }
        None
    }

    /// The types that type `t` inherits from, `None` where the table has no entry for it.
    pub fn lookup_inherits_from(&self, t: VersionedUrlRef) -> (r: Option<&Vec<VersionedUrl>>)
        ensures
            match r {
                Some(v) => self.inherits_from(t@) == v@.map_values(|u: VersionedUrl| u@),
                None => self.inherits_from(t@) == Seq::<(Seq<char>, u32)>::empty(),
            },
    {
        let mut i: usize = 0;
        assert(self.inherits@.skip(0) =~= self.inherits@);
        while i < self.inherits.len()
            invariant
                i <= self.inherits@.len(),
                inherited(self.inherits@, t@) == inherited(self.inherits@.skip(i as int), t@),
            decreases self.inherits@.len() - i,
        {
            assert(self.inherits@.skip(i as int)[0] == self.inherits@[i as int]);
            assert(self.inherits@.skip(i as int).drop_first() =~= self.inherits@.skip(i + 1));
            if t == self.inherits[i].type_ {
                return Some(&self.inherits[i].inherits_from);
            }
            i = i + 1;
        }
        None
    }

    /// The node with the given index.
    pub fn node_at(&self, index: usize) -> (r: Option<&EntityNode>)
        requires
            self.wf(),
        ensures
            index < self.nodes().len() ==> r == Some(&self.nodes()[index as int]),
            index >= self.nodes().len() ==> r is None,
    {
        if index >= graph_node_count(&self.graph) {
            return None;
        }
        graph_node_weight(&self.graph, index)
    }

    /// Whether the node with the given index is excluded.
    pub fn is_excluded(&self, index: usize) -> (r: bool)
        ensures
            r == self.excluded().contains(index),
    {
        self.exclude.contains(&index)
    }

    /// Excludes the nodes whose indices are in `nodes`.
    pub fn exclude(&mut self, nodes: &BTreeSet<usize>)
        requires
            old(self).wf(),
        ensures
            final(self).wf(),
            final(self).nodes() == old(self).nodes(),
            forall|id: EntityId| #[trigger] final(self).node_of(id) == old(self).node_of(id),
            forall|t: (Seq<char>, u32)| #[trigger]
                final(self).inherits_from(t) == old(self).inherits_from(t),
            final(self).excluded() == old(self).excluded().union(
                nodes@.filter(|i: usize| i < old(self).nodes().len()),
            ),
    {
        let n = graph_node_count(&self.graph);
        let ghost before = self.exclude@;
        let mut i: usize = 0;
        while i < n
            invariant
                self.wf(),
                n == self.nodes().len(),
                self.nodes() == old(self).nodes(),
                self.lookup@ == old(self).lookup@,
                self.inherits@ == old(self).inherits@,
                i <= n,
                self.exclude@ == before.union(nodes@.filter(|j: usize| j < i)),
            decreases n - i,
        {
            if nodes.contains(&i) {
                self.exclude.insert(i);
            }
            assert(self.exclude@ =~= before.union(nodes@.filter(|j: usize| j < i + 1)));
            i = i + 1;
        }
        assert(self.exclude@ =~= before.union(nodes@.filter(|j: usize| j < old(self).nodes().len())));
    }

    /// Excludes every node whose index is not in `nodes`.
    pub fn exclude_complement(&mut self, nodes: &BTreeSet<usize>)
        requires
            old(self).wf(),
        ensures
            final(self).wf(),
            final(self).nodes() == old(self).nodes(),
            forall|id: EntityId| #[trigger] final(self).node_of(id) == old(self).node_of(id),
            forall|t: (Seq<char>, u32)| #[trigger]
                final(self).inherits_from(t) == old(self).inherits_from(t),
            final(self).excluded() == old(self).excluded().union(
                Set::new(|i: usize| i < old(self).nodes().len() && !nodes@.contains(i)),
            ),
    {
        let n = graph_node_count(&self.graph);
        let ghost before = self.exclude@;
        let mut i: usize = 0;
        while i < n
            invariant
                self.wf(),
                n == self.nodes().len(),
                self.nodes() == old(self).nodes(),
                self.lookup@ == old(self).lookup@,
                self.inherits@ == old(self).inherits@,
                i <= n,
                self.exclude@ == before.union(Set::new(|j: usize| j < i && !nodes@.contains(j))),
            decreases n - i,
        {
            if !nodes.contains(&i) {
                self.exclude.insert(i);
            }
            assert(self.exclude@ =~= before.union(Set::new(|j: usize| j < i + 1 && !nodes@.contains(j))));
            i = i + 1;
        }
    }

    /// Records the types that type `entry.type_` inherits from. An entry recorded earlier for
    /// the same type takes precedence.
    pub fn add_inheritance(&mut self, entry: Inheritance)
        requires
            old(self).wf(),
        ensures
            final(self).wf(),
            final(self).nodes() == old(self).nodes(),
            final(self).excluded() == old(self).excluded(),
            forall|id: EntityId| #[trigger] final(self).node_of(id) == old(self).node_of(id),
            forall|t: (Seq<char>, u32)| #[trigger]
                final(self).has_inheritance(t) == (old(self).has_inheritance(t) || entry.type_@ == t),
            forall|t: (Seq<char>, u32)| #[trigger]
                final(self).inherits_from(t) == if !old(self).has_inheritance(t) && entry.type_@ == t {
                    entry.inherits_from@.map_values(|u: VersionedUrl| u@)
                } else {
                    old(self).inherits_from(t)
                },
    {
        let ghost old_table = self.inherits@;
        self.inherits.push(entry);
        proof {
            assert forall|t: (Seq<char>, u32)| #[trigger] inherited(self.inherits@, t) == if !inherited_has(old_table, t) && entry.type_@ == t {
                entry.inherits_from@.map_values(|u: VersionedUrl| u@)
            } else {
                inherited(old_table, t)
            } by {
                lemma_inherited_push(old_table, entry, t);
            }
            assert forall|t: (Seq<char>, u32)| #[trigger] inherited_has(self.inherits@, t) == (inherited_has(old_table, t) || entry.type_@ == t) by {
                if inherited_has(old_table, t) {
                    let i = choose|i: int| 0 <= i < old_table.len() && #[trigger] old_table[i].type_@ == t;
                    assert(self.inherits@[i] == old_table[i]);
                }
                if entry.type_@ == t {
                    assert(self.inherits@[old_table.len() as int] == entry);
                }
                if inherited_has(self.inherits@, t) {
                    let i = choose|i: int| 0 <= i < self.inherits@.len() && #[trigger] self.inherits@[i].type_@ == t;
                    if i < old_table.len() {
                        assert(old_table[i] == self.inherits@[i]);
                    }
                }
            }
        }
    }
}

/// Whether the table has an entry for type `t`.
pub open spec fn inherited_has(table: Seq<Inheritance>, t: (Seq<char>, u32)) -> bool {
    exists|i: int| 0 <= i < table.len() && #[trigger] table[i].type_@ == t
}

proof fn lemma_lookup_push(entries: Seq<(EntityId, usize)>, e: (EntityId, usize), k: EntityId)
    ensures
        lookup_index(entries.push(e), k) == (if lookup_index(entries, k) is Some {
            lookup_index(entries, k)
        } else if k == e.0 {
            Some(e.1)
        } else {
            None
        }),
    decreases entries.len(),
{
    if entries.len() > 0 {
        assert(entries.push(e)[0] == entries[0]);
        assert(entries.push(e).drop_first() =~= entries.drop_first().push(e));
        lemma_lookup_push(entries.drop_first(), e, k);
    } else {
        assert(entries.push(e)[0] == e);
        assert(entries.push(e).drop_first() =~= Seq::<(EntityId, usize)>::empty());
        assert(lookup_index(entries.push(e).drop_first(), k) is None);
    }
}

proof fn lemma_lookup_bound(entries: Seq<(EntityId, usize)>, k: EntityId, n: nat)
    requires
        forall|i: int| 0 <= i < entries.len() ==> #[trigger] entries[i].1 < n,
    ensures
        lookup_index(entries, k) matches Some(j) ==> j < n,
    decreases entries.len(),
{
    if entries.len() > 0 {
        assert forall|i: int| 0 <= i < entries.drop_first().len() implies #[trigger] entries.drop_first()[i].1 < n by {
            assert(entries.drop_first()[i] == entries[i + 1]);
        }
        lemma_lookup_bound(entries.drop_first(), k, n);
    }
}

proof fn lemma_inherited_push(table: Seq<Inheritance>, e: Inheritance, t: (Seq<char>, u32))
    ensures
        inherited(table.push(e), t) == if !inherited_has(table, t) && e.type_@ == t {
            e.inherits_from@.map_values(|u: VersionedUrl| u@)
        } else {
            inherited(table, t)
        },
    decreases table.len(),
{
    if table.len() > 0 {
        assert(table.push(e)[0] == table[0]);
        assert(table.push(e).drop_first() =~= table.drop_first().push(e));
        lemma_inherited_push(table.drop_first(), e, t);
        if table[0].type_@ != t {
            if inherited_has(table.drop_first(), t) {
                let i = choose|i: int| 0 <= i < table.drop_first().len() && #[trigger] table.drop_first()[i].type_@ == t;
                assert(table[i + 1].type_@ == t);
            }
            if inherited_has(table, t) {
                let i = choose|i: int| 0 <= i < table.len() && #[trigger] table[i].type_@ == t;
                assert(table.drop_first()[i - 1].type_@ == t);
            }
        } else {
            assert(table[0].type_@ == t);
        }
    } else {
        assert(table.push(e)[0] == e);
        assert(table.push(e).drop_first() =~= Seq::<Inheritance>::empty());
        assert(inherited(table.push(e).drop_first(), t) =~= Seq::empty());
    }
}

} // verus!
