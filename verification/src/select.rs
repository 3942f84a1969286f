use vstd::prelude::*;

use crate::dynamic::{DynamicMatch, NodePredicate};
use crate::entity::{EntityId, EntityNode};
use crate::url::{VersionedUrl, VersionedUrlRef};
use crate::view::EntityView;

use std::collections::BTreeSet;

verus! {

broadcast use vstd::laws_cmp::group_laws_cmp, vstd::std_specs::btree::group_btree_axioms;

/// Whether `ids` holds `id`.
fn contains_id(ids: &Vec<EntityId>, id: EntityId) -> (r: bool)
    ensures
        r == ids@.contains(id),
{
    let mut i: usize = 0;
    while i < ids.len()
        invariant
            i <= ids@.len(),
            forall|j: int| 0 <= j < i ==> ids@[j] != id,
        decreases ids@.len() - i,
    {
        if ids[i] == id {
            return true;
        }
        i = i + 1;
    }
    false
}

/// The URLs of a sequence of references.
pub open spec fn ref_urls(urls: Seq<VersionedUrlRef<'static>>) -> Seq<(Seq<char>, u32)> {
    urls.map_values(|u: VersionedUrlRef<'static>| u@)
}

/// The URLs of a sequence of owned URLs.
pub open spec fn owned_urls(urls: Seq<VersionedUrl>) -> Seq<(Seq<char>, u32)> {
    urls.map_values(|u: VersionedUrl| u@)
}

/// Whether `urls` names `url`.
fn contains_url(urls: &Vec<VersionedUrlRef<'static>>, url: &VersionedUrl) -> (r: bool)
    ensures
        r == ref_urls(urls@).contains(url@),
{
    let mut i: usize = 0;
    while i < urls.len()
        invariant
            i <= urls@.len(),
            forall|j: int| 0 <= j < i ==> urls@[j]@ != url@,
        decreases urls@.len() - i,
    {
        if urls[i] == *url {
            assert(ref_urls(urls@)[i as int] == url@);
            return true;
        }
        i = i + 1;
    }
    false
}

/// Whether some URL of `theirs` is named by `mine`.
fn intersects(mine: &Vec<VersionedUrlRef<'static>>, theirs: &Vec<VersionedUrl>) -> (r: bool)
    ensures
        r == exists|u: (Seq<char>, u32)|
            #[trigger] ref_urls(mine@).contains(u) && owned_urls(theirs@).contains(u),
{
    let mut i: usize = 0;
    while i < theirs.len()
        invariant
            i <= theirs@.len(),
            forall|j: int| 0 <= j < i ==> !ref_urls(mine@).contains(#[trigger] theirs@[j]@),
        decreases theirs@.len() - i,
    {
        if contains_url(mine, &theirs[i]) {
            assert(owned_urls(theirs@)[i as int] == theirs@[i as int]@);
            return true;
        }
        i = i + 1;
    }
    assert forall|u: (Seq<char>, u32)|
        #[trigger] ref_urls(mine@).contains(u) implies !owned_urls(theirs@).contains(u) by {
        if owned_urls(theirs@).contains(u) {
            let j = choose|j: int| 0 <= j < owned_urls(theirs@).len() && owned_urls(theirs@)[j] == u;
            assert(theirs@[j]@ == u);
        }
    }
    false
}

/// Pushing onto a sequence inserts into its set.
proof fn lemma_push_to_set<A>(s: Seq<A>, a: A)
    ensures
        s.push(a).to_set() == s.to_set().insert(a),
{
    assert forall|x: A| #[trigger] s.push(a).to_set().contains(x) == s.to_set().insert(a).contains(x) by {
        if s.contains(x) {
            let i = choose|i: int| 0 <= i < s.len() && s[i] == x;
            assert(s.push(a)[i] == x);
        }
        if x == a {
            assert(s.push(a)[s.len() as int] == a);
        }
        if s.push(a).contains(x) {
            let i = choose|i: int| 0 <= i < s.push(a).len() && s.push(a)[i] == x;
            if i < s.len() {
                assert(s[i] == x);
            }
        }
    }
    assert(s.push(a).to_set() =~= s.to_set().insert(a));
}

/// A disjunction of simple tests on an entity: its id is one of a set, its type is one of a
/// set, its type inherits from one of a set, or a test of the user holds of it.
pub struct Matches<P> {
    ids: Vec<EntityId>,
    types: Vec<VersionedUrlRef<'static>>,
    inherits_from: Vec<VersionedUrlRef<'static>>,
    dynamic: Option<P>,
}

impl<P: NodePredicate> Matches<P> {
    /// The ids that match.
    pub closed spec fn ids(self) -> Set<EntityId> {
        self.ids@.to_set()
    }

    /// The types whose entities match.
    pub closed spec fn types(self) -> Set<(Seq<char>, u32)> {
        ref_urls(self.types@).to_set()
    }

    /// The types whose descendants match.
    pub closed spec fn inherited(self) -> Set<(Seq<char>, u32)> {
        ref_urls(self.inherits_from@).to_set()
    }

    /// The test of the user, where one is set.
    pub closed spec fn dynamic(self) -> Option<P> {
        self.dynamic
    }

    /// Whether `node` matches in `view`. An entity without a type matches by its id alone.
    pub open spec fn spec_matches(self, view: EntityView, node: EntityNode) -> bool {
        ||| self.ids().contains(node.id)
        ||| match node.type_ {
            Some(t) => {
                ||| self.types().contains(t@)
                ||| exists|u: (Seq<char>, u32)|
                    #[trigger] self.inherited().contains(u) && view.inherits_from(t@).contains(u)
                ||| (self.dynamic() matches Some(d) && d.spec_holds(view, node))
            },
            None => false,
        }
    }

    /// Whether `node` matches in `view`.
    pub fn matches(&self, view: &EntityView, node: &EntityNode) -> (r: bool)
        ensures
            r == self.spec_matches(*view, *node),
    {
        if contains_id(&self.ids, node.id) {
            return true;
        }
        let type_ = match &node.type_ {
            Some(t) => t,
            None => {
                return false;
            },
        };
        if contains_url(&self.types, type_) {
            return true;
        }
        let common = match view.lookup_inherits_from(type_.as_ref()) {
            Some(parents) => {
                let found = intersects(&self.inherits_from, parents);
                proof {
                    if found {
                        let u = choose|u: (Seq<char>, u32)|
                            #[trigger] ref_urls(self.inherits_from@).contains(u) && owned_urls(parents@).contains(u);
                        assert(self.inherited().contains(u));
                        assert(view.inherits_from(type_@).contains(u));
                    } else {
                        assert forall|u: (Seq<char>, u32)| #[trigger] self.inherited().contains(u)
                            implies !view.inherits_from(type_@).contains(u) by {
                            assert(ref_urls(self.inherits_from@).contains(u));
                        }
                    }
                }
                found
            },
            None => false,
        };
        if common {
            return true;
        }
        // the test of the user comes last: its cost is unknown
        if let Some(dynamic) = &self.dynamic {
            return dynamic.holds(view, node);
        }
        false
    }

    /// Matches nothing.
    pub fn new() -> (r: Self)
        ensures
            r.ids() == Set::<EntityId>::empty(),
            r.types() == Set::<(Seq<char>, u32)>::empty(),
            r.inherited() == Set::<(Seq<char>, u32)>::empty(),
            r.dynamic() is None,
    {
        let r = Self { ids: Vec::new(), types: Vec::new(), inherits_from: Vec::new(), dynamic: None };
        assert(r.ids() =~= Set::<EntityId>::empty());
        assert(r.types() =~= Set::<(Seq<char>, u32)>::empty());
        assert(r.inherited() =~= Set::<(Seq<char>, u32)>::empty());
        r
    }

    /// Also matches the entity with id `id`.
    pub fn or_id(self, id: EntityId) -> (r: Self)
        ensures
            r.ids() == self.ids().insert(id),
            r.types() == self.types(),
            r.inherited() == self.inherited(),
            r.dynamic() == self.dynamic(),
    {
        let mut this = self;
        this.ids.push(id);
        proof {
            lemma_push_to_set(self.ids@, id);
        }
        this
    }

    /// Also matches the entities of type `type_`.
    pub fn or_type(self, type_: VersionedUrlRef<'static>) -> (r: Self)
        ensures
            r.ids() == self.ids(),
            r.types() == self.types().insert(type_@),
            r.inherited() == self.inherited(),
            r.dynamic() == self.dynamic(),
    {
        let mut this = self;
        this.types.push(type_);
        assert(ref_urls(this.types@) =~= ref_urls(self.types@).push(type_@));
        proof {
            lemma_push_to_set(ref_urls(self.types@), type_@);
        }
        this
    }

    /// Also matches the entities whose type inherits from `type_`.
    pub fn or_inherits_from(self, type_: VersionedUrlRef<'static>) -> (r: Self)
        ensures
            r.ids() == self.ids(),
            r.types() == self.types(),
            r.inherited() == self.inherited().insert(type_@),
            r.dynamic() == self.dynamic(),
    {
        let mut this = self;
        this.inherits_from.push(type_);
        assert(ref_urls(this.inherits_from@) =~= ref_urls(self.inherits_from@).push(type_@));
        proof {
            lemma_push_to_set(ref_urls(self.inherits_from@), type_@);
        }
        this
    }

    /// Also matches the typed entities of which `f` holds; replaces an earlier test.
    pub fn or_dynamic(self, f: P) -> (r: Self)
        ensures
            r.ids() == self.ids(),
            r.types() == self.types(),
            r.inherited() == self.inherited(),
            r.dynamic() == Some(f),
    {
        let mut this = self;
        this.dynamic = Some(f);
        this
    }
}

/// A boolean combination of tests on an entity.
pub enum Clause<P> {
    /// If empty, always true.
    All(Vec<Clause<P>>),
    /// If empty, always false.
    Any(Vec<Clause<P>>),
    Not(Box<Clause<P>>),
    Matches(Matches<P>),
    Dynamic(DynamicMatch<P>),
}

/// Whether every clause of `cs` from index `i` on matches.
pub open spec fn all_from<P: NodePredicate>(
    cs: Seq<Clause<P>>,
    i: int,
    view: EntityView,
    node: EntityNode,
) -> bool
    decreases cs, cs.len() - i,
{
    if 0 <= i < cs.len() {
        cs[i].spec_matches(view, node) && all_from(cs, i + 1, view, node)
    } else {
        true
    }
}

/// Whether some clause of `cs` from index `i` on matches.
pub open spec fn any_from<P: NodePredicate>(
    cs: Seq<Clause<P>>,
    i: int,
    view: EntityView,
    node: EntityNode,
) -> bool
    decreases cs, cs.len() - i,
{
    if 0 <= i < cs.len() {
        cs[i].spec_matches(view, node) || any_from(cs, i + 1, view, node)
    } else {
        false
    }
}

/// `all_from` is the conjunction over the suffix.
pub proof fn lemma_all_from<P: NodePredicate>(
    cs: Seq<Clause<P>>,
    i: int,
    view: EntityView,
    node: EntityNode,
)
    requires
        0 <= i <= cs.len(),
    ensures
        all_from(cs, i, view, node) <==> forall|j: int|
            i <= j < cs.len() ==> #[trigger] cs[j].spec_matches(view, node),
    decreases cs.len() - i,
{
    if i < cs.len() {
        lemma_all_from(cs, i + 1, view, node);
        assert(all_from(cs, i, view, node) == (cs[i].spec_matches(view, node) && all_from(cs, i + 1, view, node)));
    } else {
        assert(all_from(cs, i, view, node));
    }
}

/// `any_from` is the disjunction over the suffix.
pub proof fn lemma_any_from<P: NodePredicate>(
    cs: Seq<Clause<P>>,
    i: int,
    view: EntityView,
    node: EntityNode,
)
    requires
        0 <= i <= cs.len(),
    ensures
        any_from(cs, i, view, node) <==> exists|j: int|
            i <= j < cs.len() && #[trigger] cs[j].spec_matches(view, node),
    decreases cs.len() - i,
{
    if i < cs.len() {
        lemma_any_from(cs, i + 1, view, node);
        assert(any_from(cs, i, view, node) == (cs[i].spec_matches(view, node) || any_from(cs, i + 1, view, node)));
    } else {
        assert(!any_from(cs, i, view, node));
    }
}

impl<P: NodePredicate> Clause<P> {
    /// Whether `node` matches the clause in `view`.
    pub open spec fn spec_matches(self, view: EntityView, node: EntityNode) -> bool
        decreases self, 0int,
    {
        match self {
            Clause::All(cs) => all_from(cs@, 0, view, node),
            Clause::Any(cs) => any_from(cs@, 0, view, node),
            Clause::Not(c) => !c.spec_matches(view, node),
            Clause::Matches(m) => m.spec_matches(view, node),
            Clause::Dynamic(d) => d.predicate().spec_holds(view, node),
        }
    }

    /// Whether `node` matches the clause in `view`.
    pub fn matches(&self, view: &EntityView, node: &EntityNode) -> (r: bool)
        ensures
            r == self.spec_matches(*view, *node),
        decreases self,
    {
        match self {
            Clause::All(clauses) => {
                proof {
                    lemma_all_from(clauses@, 0, *view, *node);
                }
                let mut i: usize = 0;
                while i < clauses.len()
                    invariant
                        *self == Clause::<P>::All(*clauses),
                        i <= clauses@.len(),
                        forall|j: int| 0 <= j < i ==> #[trigger] clauses@[j].spec_matches(*view, *node),
                    decreases clauses@.len() - i,
                {
                    proof {
                        assert(decreases_to!(*self => (*self)->All_0));
                        assert(decreases_to!(*clauses => clauses@));
                        assert(decreases_to!(clauses@ => clauses@[i as int]));
                        assert(decreases_to!(*self => clauses@[i as int]));
                    }
                    if !clauses[i].matches(view, node) {
                        proof {
                            lemma_all_from(clauses@, 0, *view, *node);
                        }
                        return false;
                    }
                    i = i + 1;
                }
                true
            },
            Clause::Any(clauses) => {
                proof {
                    lemma_any_from(clauses@, 0, *view, *node);
                }
                let mut i: usize = 0;
                while i < clauses.len()
                    invariant
                        *self == Clause::<P>::Any(*clauses),
                        i <= clauses@.len(),
                        forall|j: int| 0 <= j < i ==> !#[trigger] clauses@[j].spec_matches(*view, *node),
                    decreases clauses@.len() - i,
                {
                    proof {
                        assert(decreases_to!(*self => (*self)->Any_0));
                        assert(decreases_to!(*clauses => clauses@));
                        assert(decreases_to!(clauses@ => clauses@[i as int]));
                        assert(decreases_to!(*self => clauses@[i as int]));
                    }
                    if clauses[i].matches(view, node) {
                        proof {
                            lemma_any_from(clauses@, 0, *view, *node);
                        }
                        return true;
                    }
                    i = i + 1;
                }
                false
            },
            Clause::Not(clause) => !clause.matches(view, node),
            Clause::Matches(matches) => matches.matches(view, node),
            Clause::Dynamic(dynamic) => dynamic.matches(view, node),
        }
    }
}

/// The clauses of `c.or(other)`: `other` joins a disjunction, or both form a new one.
pub open spec fn or_parts<P>(c: Clause<P>, other: Clause<P>) -> Seq<Clause<P>> {
    match c {
        Clause::Any(cs) => cs@.push(other),
        _ => seq![c, other],
    }
}

/// The clauses of `c.and(other)`: `other` joins a conjunction, or both form a new one.
pub open spec fn and_parts<P>(c: Clause<P>, other: Clause<P>) -> Seq<Clause<P>> {
    match c {
        Clause::All(cs) => cs@.push(other),
        _ => seq![c, other],
    }
}

/// The clauses of the conjunction that a `Matches` forms with `other`: it goes in front of a
/// conjunction, or both form a new one.
pub open spec fn front_parts<P>(m: Matches<P>, other: Clause<P>) -> Seq<Clause<P>> {
    match other {
        Clause::All(cs) => seq![Clause::Matches(m)] + cs@,
        _ => seq![Clause::Matches(m), other],
    }
}

/// A disjunction of clauses holds where one of them holds.
pub proof fn lemma_any_seq<P: NodePredicate>(cs: Seq<Clause<P>>, view: EntityView, node: EntityNode)
    ensures
        any_from(cs, 0, view, node) <==> exists|j: int|
            0 <= j < cs.len() && #[trigger] cs[j].spec_matches(view, node),
{
    lemma_any_from(cs, 0, view, node);
}

/// A conjunction of clauses holds where all of them hold.
pub proof fn lemma_all_seq<P: NodePredicate>(cs: Seq<Clause<P>>, view: EntityView, node: EntityNode)
    ensures
        all_from(cs, 0, view, node) <==> forall|j: int|
            0 <= j < cs.len() ==> #[trigger] cs[j].spec_matches(view, node),
{
    lemma_all_from(cs, 0, view, node);
}

proof fn lemma_or_parts<P: NodePredicate>(c: Clause<P>, other: Clause<P>, view: EntityView, node: EntityNode)
    ensures
        any_from(or_parts(c, other), 0, view, node) == (c.spec_matches(view, node) || other.spec_matches(view, node)),
{
    let parts = or_parts(c, other);
    lemma_any_seq(parts, view, node);
    match c {
        Clause::Any(cs) => {
            lemma_any_seq(cs@, view, node);
            assert(parts[cs@.len() as int] == other);
            if c.spec_matches(view, node) {
                let j = choose|j: int| 0 <= j < cs@.len() && #[trigger] cs@[j].spec_matches(view, node);
                assert(parts[j] == cs@[j]);
            }
            if any_from(parts, 0, view, node) {
                let j = choose|j: int| 0 <= j < parts.len() && #[trigger] parts[j].spec_matches(view, node);
                if j < cs@.len() {
                    assert(cs@[j] == parts[j]);
                }
            }
        },
        _ => {
            assert(parts[0] == c);
            assert(parts[1] == other);
        },
    }
}

proof fn lemma_and_parts<P: NodePredicate>(c: Clause<P>, other: Clause<P>, view: EntityView, node: EntityNode)
    ensures
        all_from(and_parts(c, other), 0, view, node) == (c.spec_matches(view, node) && other.spec_matches(view, node)),
{
    let parts = and_parts(c, other);
    lemma_all_seq(parts, view, node);
    match c {
        Clause::All(cs) => {
            lemma_all_seq(cs@, view, node);
            assert(parts[cs@.len() as int] == other);
            if !c.spec_matches(view, node) {
                let j = choose|j: int| 0 <= j < cs@.len() && !#[trigger] cs@[j].spec_matches(view, node);
                assert(parts[j] == cs@[j]);
            }
            if !all_from(parts, 0, view, node) {
                let j = choose|j: int| 0 <= j < parts.len() && !#[trigger] parts[j].spec_matches(view, node);
                if j < cs@.len() {
                    assert(cs@[j] == parts[j]);
                }
            }
        },
        _ => {
            assert(parts[0] == c);
            assert(parts[1] == other);
        },
    }
}

proof fn lemma_front_parts<P: NodePredicate>(m: Matches<P>, other: Clause<P>, view: EntityView, node: EntityNode)
    ensures
        all_from(front_parts(m, other), 0, view, node) == (m.spec_matches(view, node) && other.spec_matches(view, node)),
{
    let parts = front_parts(m, other);
    lemma_all_seq(parts, view, node);
    assert(parts[0] == Clause::Matches(m));
    assert(Clause::Matches(m).spec_matches(view, node) == m.spec_matches(view, node));
    match other {
        Clause::All(cs) => {
            lemma_all_seq(cs@, view, node);
            if !other.spec_matches(view, node) {
                let j = choose|j: int| 0 <= j < cs@.len() && !#[trigger] cs@[j].spec_matches(view, node);
                assert(parts[j + 1] == cs@[j]);
            }
            if !all_from(parts, 0, view, node) {
                let j = choose|j: int| 0 <= j < parts.len() && !#[trigger] parts[j].spec_matches(view, node);
                if j > 0 {
                    assert(cs@[j - 1] == parts[j]);
                }
            }
        },
        _ => {
            assert(parts[1] == other);
        },
    }
}

impl<P: NodePredicate> Clause<P> {
    /// The disjunction of this clause and `other`.
    pub fn or(self, other: Clause<P>) -> (r: Clause<P>)
        ensures
            r matches Clause::Any(rs) && rs@ == or_parts(self, other),
            forall|view: EntityView, node: EntityNode|
                #[trigger] r.spec_matches(view, node) == (self.spec_matches(view, node)
                    || other.spec_matches(view, node)),
    {
        let ghost this = self;
        let r = match self {
            Clause::Any(clauses) => {
                let mut clauses = clauses;
                clauses.push(other);
                Clause::Any(clauses)
            },
            _ => Clause::Any(vec![self, other]),
        };
        proof {
            assert forall|view: EntityView, node: EntityNode|
                #[trigger] r.spec_matches(view, node) == (this.spec_matches(view, node)
                    || other.spec_matches(view, node)) by {
                lemma_or_parts(this, other, view, node);
            }
        }
        r
    }

    /// The conjunction of this clause and `other`.
    pub fn and(self, other: Clause<P>) -> (r: Clause<P>)
        ensures
            r matches Clause::All(rs) && rs@ == and_parts(self, other),
            forall|view: EntityView, node: EntityNode|
                #[trigger] r.spec_matches(view, node) == (self.spec_matches(view, node)
                    && other.spec_matches(view, node)),
    {
        let ghost this = self;
        let r = match self {
            Clause::All(clauses) => {
                let mut clauses = clauses;
                clauses.push(other);
                Clause::All(clauses)
            },
            _ => Clause::All(vec![self, other]),
        };
        proof {
            assert forall|view: EntityView, node: EntityNode|
                #[trigger] r.spec_matches(view, node) == (this.spec_matches(view, node)
                    && other.spec_matches(view, node)) by {
                lemma_and_parts(this, other, view, node);
            }
        }
        r
    }

    /// The negation of this clause.
    pub fn not(self) -> (r: Clause<P>)
        ensures
            r == Clause::Not(Box::new(self)),
            forall|view: EntityView, node: EntityNode|
                #[trigger] r.spec_matches(view, node) == !self.spec_matches(view, node),
    {
        Clause::Not(Box::new(self))
    }
}

impl<P: NodePredicate> Matches<P> {
    /// This test, in front of the conjunction `other` or in a conjunction with it. The result is
    /// a conjunction, as it is for `and`.
    pub fn or(self, other: Clause<P>) -> (r: Clause<P>)
        ensures
            r matches Clause::All(rs) && rs@ == front_parts(self, other),
            forall|view: EntityView, node: EntityNode|
                #[trigger] r.spec_matches(view, node) == (self.spec_matches(view, node)
                    && other.spec_matches(view, node)),
    {
        self.and(other)
    }

    /// The conjunction of this test and `other`.
    pub fn and(self, other: Clause<P>) -> (r: Clause<P>)
        ensures
            r matches Clause::All(rs) && rs@ == front_parts(self, other),
            forall|view: EntityView, node: EntityNode|
                #[trigger] r.spec_matches(view, node) == (self.spec_matches(view, node)
                    && other.spec_matches(view, node)),
    {
        let ghost m = self;
        let this = Clause::Matches(self);
        let r = match other {
            Clause::All(clauses) => {
                let mut clauses = clauses;
                clauses.insert(0, this);
                proof {
                    assert(clauses@ =~= seq![Clause::Matches(m)] + other->All_0@);
                }
                Clause::All(clauses)
            },
            _ => Clause::All(vec![this, other]),
        };
        proof {
            assert forall|view: EntityView, node: EntityNode|
                #[trigger] r.spec_matches(view, node) == (m.spec_matches(view, node)
                    && other.spec_matches(view, node)) by {
                lemma_front_parts(m, other, view, node);
            }
        }
        r
    }

    /// The negation of this test.
    pub fn not(self) -> (r: Clause<P>)
        ensures
            r == Clause::Not(Box::new(Clause::Matches(self))),
            forall|view: EntityView, node: EntityNode|
                #[trigger] r.spec_matches(view, node) == !self.spec_matches(view, node),
    {
        let ghost m = self;
        let r = Clause::Not(Box::new(Clause::Matches(self)));
        proof {
            assert forall|view: EntityView, node: EntityNode|
                #[trigger] r.spec_matches(view, node) == !m.spec_matches(view, node) by {
                assert(Clause::Matches(m).spec_matches(view, node) == m.spec_matches(view, node));
            }
        }
        r
    }
}

impl<P: NodePredicate> From<Matches<P>> for Clause<P> {
    fn from(value: Matches<P>) -> (r: Self) {
        Clause::Matches(value)
    }
}

impl<P: NodePredicate> vstd::std_specs::convert::FromSpecImpl<Matches<P>> for Clause<P> {
    open spec fn obeys_from_spec() -> bool {
        true
    }

    open spec fn from_spec(v: Matches<P>) -> Clause<P> {
        Clause::Matches(v)
    }
}

impl<P: NodePredicate> From<DynamicMatch<P>> for Clause<P> {
    fn from(value: DynamicMatch<P>) -> (r: Self) {
        Clause::Dynamic(value)
    }
}

impl<P: NodePredicate> vstd::std_specs::convert::FromSpecImpl<DynamicMatch<P>> for Clause<P> {
    open spec fn obeys_from_spec() -> bool {
        true
    }

    open spec fn from_spec(v: DynamicMatch<P>) -> Clause<P> {
        Clause::Dynamic(v)
    }
}

/// A selection rule: a clause on the entity itself, and, for a link entity, optional clauses on
/// the entities at its left and right end.
pub struct Statement<P> {
    if_: Clause<P>,
    left: Option<Clause<P>>,
    right: Option<Clause<P>>,
}

/// Whether a link end passes its clause. Without a clause every end passes, a missing end too;
/// with one, the end must exist, be found in the view, and match.
pub open spec fn link_holds<P: NodePredicate>(
    view: EntityView,
    link: Option<EntityId>,
    if_: Option<Clause<P>>,
) -> bool {
    match if_ {
        None => true,
        Some(c) => match link {
            None => false,
            Some(id) => match view.node_of(id) {
                None => false,
                Some(n) => c.spec_matches(view, n),
            },
        },
    }
}

impl<P: NodePredicate> Statement<P> {
    /// The clause on the entity itself.
    pub closed spec fn condition(self) -> Clause<P> {
        self.if_
    }

    /// The clause on the entity at the left end of a link.
    pub closed spec fn left(self) -> Option<Clause<P>> {
        self.left
    }

    /// The clause on the entity at the right end of a link.
    pub closed spec fn right(self) -> Option<Clause<P>> {
        self.right
    }

    /// Whether the rule accepts `node` in `view`.
    pub open spec fn spec_accepts(self, view: EntityView, node: EntityNode) -> bool {
        &&& self.condition().spec_matches(view, node)
        &&& link_holds(view, node.spec_left(), self.left())
        &&& link_holds(view, node.spec_right(), self.right())
    }

    /// The rule that accepts every entity.
    pub fn new() -> (r: Self)
        ensures
            r.condition() matches Clause::All(cs) && cs@.len() == 0,
            r.left() is None,
            r.right() is None,
            forall|view: EntityView, node: EntityNode| #[trigger] r.spec_accepts(view, node),
    {
        let r = Self { if_: Clause::All(Vec::new()), left: None, right: None };
        proof {
            assert forall|view: EntityView, node: EntityNode| #[trigger] r.spec_accepts(view, node) by {
                lemma_all_seq(r.if_->All_0@, view, node);
            }
        }
        r
    }

    /// The rule with the clause `if_` on the entity, and no clause on the ends of links.
    pub fn from_clause(if_: Clause<P>) -> (r: Self)
        ensures
            r.condition() == if_,
            r.left() is None,
            r.right() is None,
    {
        Self { if_, left: None, right: None }
    }

    /// Replaces the clause on the entity.
    pub fn with_if(self, if_: Clause<P>) -> (r: Self)
        ensures
            r.condition() == if_,
            r.left() == self.left(),
            r.right() == self.right(),
    {
        let mut this = self;
        this.if_ = if_;
        this
    }

    /// Replaces the clause on the left end.
    pub fn with_left(self, left: Clause<P>) -> (r: Self)
        ensures
            r.condition() == self.condition(),
            r.left() == Some(left),
            r.right() == self.right(),
    {
        let mut this = self;
        this.left = Some(left);
        this
    }

    /// Replaces the clause on the right end.
    pub fn with_right(self, right: Clause<P>) -> (r: Self)
        ensures
            r.condition() == self.condition(),
            r.left() == self.left(),
            r.right() == Some(right),
    {
        let mut this = self;
        this.right = Some(right);
        this
    }

    /// The clause on the entity becomes its disjunction with `if_`.
    pub fn or_if(self, if_: Clause<P>) -> (r: Self)
        ensures
            r.condition() matches Clause::Any(rs) && rs@ == or_parts(self.condition(), if_),
            forall|view: EntityView, node: EntityNode|
                #[trigger] r.condition().spec_matches(view, node) == (self.condition().spec_matches(
                    view,
                    node,
                ) || if_.spec_matches(view, node)),
            r.left() == self.left(),
            r.right() == self.right(),
    {
        let Statement { if_: this_if, left, right } = self;
        Statement { if_: this_if.or(if_), left, right }
    }

    /// The clause on the left end becomes its disjunction with `left`, or `left` where there was
    /// none.
    pub fn or_left(self, left: Clause<P>) -> (r: Self)
        ensures
            r.condition() == self.condition(),
            r.right() == self.right(),
            match self.left() {
                Some(l) => r.left() matches Some(c) && c matches Clause::Any(rs) && rs@ == or_parts(l, left),
                None => r.left() == Some(left),
            },
            forall|view: EntityView, node: EntityNode|
                #[trigger] link_holds(view, node.spec_left(), r.left()) == match self.left() {
                    Some(l) => link_holds(view, node.spec_left(), Some(l)) || link_holds(view, node.spec_left(), Some(left)),
                    None => link_holds(view, node.spec_left(), Some(left)),
                },
    {
        let Statement { if_, left: this_left, right } = self;
        let new_left = match this_left {
            Some(l) => l.or(left),
            None => left,
        };
        Statement { if_, left: Some(new_left), right }
    }

    /// The clause on the right end becomes its disjunction with `right`, or `right` where there
    /// was none.
    pub fn or_right(self, right: Clause<P>) -> (r: Self)
        ensures
            r.condition() == self.condition(),
            r.left() == self.left(),
            match self.right() {
                Some(l) => r.right() matches Some(c) && c matches Clause::Any(rs) && rs@ == or_parts(l, right),
                None => r.right() == Some(right),
            },
            forall|view: EntityView, node: EntityNode|
                #[trigger] link_holds(view, node.spec_right(), r.right()) == match self.right() {
                    Some(l) => link_holds(view, node.spec_right(), Some(l)) || link_holds(view, node.spec_right(), Some(right)),
                    None => link_holds(view, node.spec_right(), Some(right)),
                },
    {
        let Statement { if_, left, right: this_right } = self;
        let new_right = match this_right {
            Some(l) => l.or(right),
            None => right,
        };
        Statement { if_, left, right: Some(new_right) }
    }
}

impl<P: NodePredicate> From<Clause<P>> for Statement<P> {
    fn from(value: Clause<P>) -> (r: Self) {
        Statement { if_: value, left: None, right: None }
    }
}

impl<P: NodePredicate> vstd::std_specs::convert::FromSpecImpl<Clause<P>> for Statement<P> {
    open spec fn obeys_from_spec() -> bool {
        true
    }

    closed spec fn from_spec(v: Clause<P>) -> Statement<P> {
        Statement { if_: v, left: None, right: None }
    }
}

impl<P: NodePredicate> Clause<P> {
    /// The rule with this clause on the entity and no clause on the ends of links.
    pub fn with_links(self) -> (r: Statement<P>)
        ensures
            r.condition() == self,
            r.left() is None,
            r.right() is None,
    {
        Statement::from_clause(self)
    }

    /// The rule with this clause on the entity and no clause on the ends of links.
    pub fn into_statement(self) -> (r: Statement<P>)
        ensures
            r.condition() == self,
            r.left() is None,
            r.right() is None,
    {
        Statement::from_clause(self)
    }
}

impl<P: NodePredicate> Matches<P> {
    /// The rule with this test on the entity and no clause on the ends of links.
    pub fn with_links(self) -> (r: Statement<P>)
        ensures
            r.condition() == Clause::Matches(self),
            r.left() is None,
            r.right() is None,
    {
        Statement::from_clause(Clause::Matches(self))
    }

    /// The rule with this test on the entity and no clause on the ends of links.
    pub fn into_statement(self) -> (r: Statement<P>)
        ensures
            r.condition() == Clause::Matches(self),
            r.left() is None,
            r.right() is None,
    {
        Statement::from_clause(Clause::Matches(self))
    }
}

impl<P: NodePredicate> From<Matches<P>> for Statement<P> {
    fn from(value: Matches<P>) -> (r: Self) {
        Statement { if_: Clause::Matches(value), left: None, right: None }
    }
}

impl<P: NodePredicate> vstd::std_specs::convert::FromSpecImpl<Matches<P>> for Statement<P> {
    open spec fn obeys_from_spec() -> bool {
        true
    }

    closed spec fn from_spec(v: Matches<P>) -> Statement<P> {
        Statement { if_: Clause::Matches(v), left: None, right: None }
    }
}

impl<P: NodePredicate> From<DynamicMatch<P>> for Statement<P> {
    fn from(value: DynamicMatch<P>) -> (r: Self) {
        Statement { if_: Clause::Dynamic(value), left: None, right: None }
    }
}

impl<P: NodePredicate> vstd::std_specs::convert::FromSpecImpl<DynamicMatch<P>> for Statement<P> {
    open spec fn obeys_from_spec() -> bool {
        true
    }

    closed spec fn from_spec(v: DynamicMatch<P>) -> Statement<P> {
        Statement { if_: Clause::Dynamic(v), left: None, right: None }
    }
}

/// Whether one of the rules accepts `node` in `view`.
pub open spec fn accepted<P: NodePredicate>(
    statements: Seq<Statement<P>>,
    view: EntityView,
    node: EntityNode,
) -> bool {
    exists|i: int| 0 <= i < statements.len() && #[trigger] statements[i].spec_accepts(view, node)
}

/// The indices of the nodes that are not excluded and that one of the rules accepts.
pub open spec fn selection<P: NodePredicate>(statements: Seq<Statement<P>>, view: EntityView) -> Set<usize> {
    Set::new(|i: usize| view.included().contains(i) && accepted(statements, view, view.nodes()[i as int]))
}

/// A list of rules, evaluated over the nodes of a view.
struct Select<P> {
    statements: Vec<Statement<P>>,
}

impl<P: NodePredicate> Select<P> {
    fn eval_link(view: &EntityView, link: Option<EntityId>, if_: &Option<Clause<P>>) -> (r: bool)
        requires
            view.wf(),
        ensures
            r == link_holds(*view, link, *if_),
    {
        let if_ = match if_ {
            Some(c) => c,
            // without a clause the end is not checked, a missing end passes too; to forbid
            // ends altogether the clause must be an empty disjunction
            None => {
                return true;
            },
        };
        let link = match link {
            Some(id) => id,
            // with a clause, a link end must exist
            None => {
                return false;
            },
        };
        match view.lookup_node(link) {
            // the end is checked whether or not it is excluded
            Some(node) => if_.matches(view, node),
            None => false,
        }
    }

    fn eval_statement(view: &EntityView, weight: &EntityNode, statement: &Statement<P>) -> (r: bool)
        requires
            view.wf(),
        ensures
            r == statement.spec_accepts(*view, *weight),
    {
        if !statement.if_.matches(view, weight) {
            return false;
        }
        if !Self::eval_link(view, weight.left_entity_id(), &statement.left) {
            return false;
        }
        if !Self::eval_link(view, weight.right_entity_id(), &statement.right) {
            return false;
        }
        true
    }

    fn eval(&self, view: &EntityView, weight: &EntityNode) -> (r: bool)
        requires
            view.wf(),
        ensures
            r == accepted(self.statements@, *view, *weight),
    {
        let mut i: usize = 0;
        while i < self.statements.len()
            invariant
                view.wf(),
                i <= self.statements@.len(),
                forall|j: int| 0 <= j < i ==> !#[trigger] self.statements@[j].spec_accepts(*view, *weight),
            decreases self.statements@.len() - i,
        {
            if Self::eval_statement(view, weight, &self.statements[i]) {
                return true;
            }
            i = i + 1;
        }
        false
    }

    fn run(&self, view: &EntityView) -> (r: BTreeSet<usize>)
        requires
            view.wf(),
        ensures
            r@ == selection(self.statements@, *view),
    {
        let n = view.node_count();
        let mut selected: BTreeSet<usize> = BTreeSet::new();
        let mut i: usize = 0;
        while i < n
            invariant
                view.wf(),
                n == view.nodes().len(),
                i <= n,
                selected@ == selection(self.statements@, *view).filter(|j: usize| j < i),
            decreases n - i,
        {
            if !view.is_excluded(i) {
                let weight = view.node_at(i);
                match weight {
                    Some(w) => {
                        if self.eval(view, w) {
                            selected.insert(i);
                        }
                    },
                    None => {},
                }
            }
            assert(selected@ =~= selection(self.statements@, *view).filter(|j: usize| j < i + 1));
            i = i + 1;
        }
        assert(selected@ =~= selection(self.statements@, *view));
        selected
    }
}

impl EntityView {
    /// Keeps the nodes that one of the rules accepts: every other node is excluded.
    pub fn select<P: NodePredicate>(&mut self, statements: Vec<Statement<P>>)
        requires
            old(self).wf(),
        ensures
            final(self).wf(),
            final(self).nodes() == old(self).nodes(),
            forall|id: EntityId| #[trigger] final(self).node_of(id) == old(self).node_of(id),
            forall|t: (Seq<char>, u32)| #[trigger]
                final(self).inherits_from(t) == old(self).inherits_from(t),
            final(self).included() == selection(statements@, *old(self)),
            final(self).excluded() == old(self).excluded().union(
                Set::new(|i: usize| i < old(self).nodes().len() && !selection(statements@, *old(self)).contains(i)),
            ),
    {
        let nodes = Select { statements }.run(self);
        self.exclude_complement(&nodes);
        assert(self.included() =~= selection(statements@, *old(self)));
        assert(self.excluded() =~= old(self).excluded().union(
            Set::new(|i: usize| i < old(self).nodes().len() && !selection(statements@, *old(self)).contains(i)),
        ));
    }

    /// Excludes the nodes that one of the rules accepts.
    pub fn select_complement<P: NodePredicate>(&mut self, statements: Vec<Statement<P>>)
        requires
            old(self).wf(),
        ensures
            final(self).wf(),
            final(self).nodes() == old(self).nodes(),
            forall|id: EntityId| #[trigger] final(self).node_of(id) == old(self).node_of(id),
            forall|t: (Seq<char>, u32)| #[trigger]
                final(self).inherits_from(t) == old(self).inherits_from(t),
            final(self).included() == old(self).included().difference(
                selection(statements@, *old(self)),
            ),
            final(self).excluded() == old(self).excluded().union(selection(statements@, *old(self))),
    {
        let nodes = Select { statements }.run(self);
        self.exclude(&nodes);
        assert(self.excluded() =~= old(self).excluded().union(selection(statements@, *old(self))));
        assert(self.included() =~= old(self).included().difference(selection(statements@, *old(self))));
    }
}

/// Two views that differ at most in their exclusions.
pub open spec fn same_content(a: EntityView, b: EntityView) -> bool {
    &&& a.nodes() == b.nodes()
    &&& forall|id: EntityId| #[trigger] a.node_of(id) == b.node_of(id)
    &&& forall|t: (Seq<char>, u32)| #[trigger] a.inherits_from(t) == b.inherits_from(t)
}

/// The tests of type `P` do not look at which nodes are excluded.
pub open spec fn blind_to_exclusion<P: NodePredicate>() -> bool {
    forall|p: P, a: EntityView, b: EntityView, n: EntityNode|
        same_content(a, b) ==> #[trigger] p.spec_holds(a, n) == #[trigger] p.spec_holds(b, n)
}

/// An empty conjunction holds of every entity; an empty disjunction of none.
pub proof fn law_empty_clauses<P: NodePredicate>(all: Clause<P>, any: Clause<P>, view: EntityView, node: EntityNode)
    requires
        all matches Clause::All(cs) && cs@.len() == 0,
        any matches Clause::Any(cs) && cs@.len() == 0,
    ensures
        all.spec_matches(view, node),
        !any.spec_matches(view, node),
{
    lemma_all_seq(all->All_0@, view, node);
    lemma_any_seq(any->Any_0@, view, node);
}

/// Negating twice gives back the clause.
pub proof fn law_double_negation<P: NodePredicate>(c: Clause<P>, view: EntityView, node: EntityNode)
    ensures
        Clause::Not(Box::new(Clause::Not(Box::new(c)))).spec_matches(view, node) == c.spec_matches(view, node),
{
    assert(Clause::Not(Box::new(c)).spec_matches(view, node) == !c.spec_matches(view, node));
}

/// A test of `Matches` does not depend on the exclusions of the view.
proof fn lemma_matches_blind<P: NodePredicate>(m: Matches<P>, a: EntityView, b: EntityView, n: EntityNode)
    requires
        blind_to_exclusion::<P>(),
        same_content(a, b),
    ensures
        m.spec_matches(a, n) == m.spec_matches(b, n),
{
    if let Some(t) = n.type_ {
        assert(a.inherits_from(t@) == b.inherits_from(t@));
        if let Some(d) = m.dynamic() {
            assert(d.spec_holds(a, n) == d.spec_holds(b, n));
        }
    }
}

/// A clause does not depend on the exclusions of the view, where the tests of the user do not.
pub proof fn lemma_clause_blind<P: NodePredicate>(c: Clause<P>, a: EntityView, b: EntityView, n: EntityNode)
    requires
        blind_to_exclusion::<P>(),
        same_content(a, b),
    ensures
        c.spec_matches(a, n) == c.spec_matches(b, n),
    decreases c,
{
    match c {
        Clause::All(cs) => {
            assert forall|j: int|
                #![trigger cs@[j].spec_matches(a, n)]
                #![trigger cs@[j].spec_matches(b, n)]
                0 <= j < cs@.len() implies cs@[j].spec_matches(a, n) == cs@[j].spec_matches(b, n) by {
                assert(decreases_to!(c => c->All_0));
                assert(decreases_to!(c->All_0 => c->All_0@));
                assert(decreases_to!(c->All_0@ => c->All_0@[j]));
                lemma_clause_blind(cs@[j], a, b, n);
            }
            lemma_all_seq(cs@, a, n);
            lemma_all_seq(cs@, b, n);
            assert(c.spec_matches(a, n) == all_from(cs@, 0, a, n));
            assert(c.spec_matches(b, n) == all_from(cs@, 0, b, n));
            assert(all_from(cs@, 0, a, n) == all_from(cs@, 0, b, n));
        },
        Clause::Any(cs) => {
            assert forall|j: int|
                #![trigger cs@[j].spec_matches(a, n)]
                #![trigger cs@[j].spec_matches(b, n)]
                0 <= j < cs@.len() implies cs@[j].spec_matches(a, n) == cs@[j].spec_matches(b, n) by {
                assert(decreases_to!(c => c->Any_0));
                assert(decreases_to!(c->Any_0 => c->Any_0@));
                assert(decreases_to!(c->Any_0@ => c->Any_0@[j]));
                lemma_clause_blind(cs@[j], a, b, n);
            }
            lemma_any_seq(cs@, a, n);
            lemma_any_seq(cs@, b, n);
            assert(c.spec_matches(a, n) == any_from(cs@, 0, a, n));
            assert(c.spec_matches(b, n) == any_from(cs@, 0, b, n));
            assert(any_from(cs@, 0, a, n) == any_from(cs@, 0, b, n));
        },
        Clause::Not(inner) => {
            lemma_clause_blind(*inner, a, b, n);
        },
        Clause::Matches(m) => {
            lemma_matches_blind(m, a, b, n);
            assert(c.spec_matches(a, n) == c.spec_matches(b, n));
        },
        Clause::Dynamic(d) => {
            assert(d.predicate().spec_holds(a, n) == d.predicate().spec_holds(b, n));
            assert(c.spec_matches(a, n) == c.spec_matches(b, n));
        },
    }
}

/// The verdict of the rules on a node does not depend on the exclusions of the view, where the
/// tests of the user do not: a selection on a view that differs only in its exclusions is the
/// set of the nodes that the second one includes and that the rules accept in the first.
pub proof fn law_selection_blind<P: NodePredicate>(s: Seq<Statement<P>>, a: EntityView, b: EntityView)
    requires
        blind_to_exclusion::<P>(),
        same_content(a, b),
    ensures
        selection(s, b) == b.included().filter(|i: usize| accepted(s, a, a.nodes()[i as int])),
{
    assert forall|n: EntityNode| #[trigger] accepted(s, a, n) == accepted(s, b, n) by {
        assert forall|i: int|
            #![trigger s[i].spec_accepts(a, n)]
            #![trigger s[i].spec_accepts(b, n)]
            0 <= i < s.len() implies s[i].spec_accepts(a, n) == s[i].spec_accepts(b, n) by {
            let st = s[i];
            lemma_clause_blind(st.condition(), a, b, n);
            if let Some(l) = st.left() {
                if let Some(id) = n.spec_left() {
                    assert(a.node_of(id) == b.node_of(id));
                    if let Some(m) = a.node_of(id) {
                        lemma_clause_blind(l, a, b, m);
                    }
                }
            }
            if let Some(r) = st.right() {
                if let Some(id) = n.spec_right() {
                    assert(a.node_of(id) == b.node_of(id));
                    if let Some(m) = a.node_of(id) {
                        lemma_clause_blind(r, a, b, m);
                    }
                }
            }
        }
    }
    assert(selection(s, b) =~= b.included().filter(|i: usize| accepted(s, a, a.nodes()[i as int])));
}

/// What a selection keeps, a second selection with the same rules keeps too: `select` is
/// idempotent where the tests of the user do not look at exclusions.
pub proof fn law_select_idempotent<P: NodePredicate>(s: Seq<Statement<P>>, before: EntityView, after: EntityView)
    requires
        blind_to_exclusion::<P>(),
        same_content(before, after),
        after.included() == selection(s, before),
    ensures
        selection(s, after) == after.included(),
{
    law_selection_blind(s, before, after);
    assert(selection(s, after) =~= after.included());
}

/// Two selections in a row keep the nodes that both rule lists accept, in either order.
pub proof fn law_select_sequence<P: NodePredicate>(
    s1: Seq<Statement<P>>,
    s2: Seq<Statement<P>>,
    before: EntityView,
    middle: EntityView,
)
    requires
        blind_to_exclusion::<P>(),
        same_content(before, middle),
        middle.included() == selection(s1, before),
    ensures
        selection(s2, middle) == selection(s1, before).intersect(selection(s2, before)),
{
    law_selection_blind(s2, before, middle);
    assert(selection(s2, middle) =~= selection(s1, before).intersect(selection(s2, before)));
}

/// `select` and `select_complement` with the same rules split the included nodes of a view in
/// two: what one keeps the other excludes.
pub proof fn law_select_partition<P: NodePredicate>(s: Seq<Statement<P>>, view: EntityView)
    ensures
        selection(s, view).subset_of(view.included()),
        selection(s, view).disjoint(view.included().difference(selection(s, view))),
        selection(s, view).union(view.included().difference(selection(s, view))) == view.included(),
{
    assert(selection(s, view).union(view.included().difference(selection(s, view))) =~= view.included());
}

/// The rule of `Statement::new` keeps every node.
pub proof fn law_new_statement_keeps_all<P: NodePredicate>(st: Statement<P>, view: EntityView)
    requires
        st.condition() matches Clause::All(cs) && cs@.len() == 0,
        st.left() is None,
        st.right() is None,
    ensures
        selection(seq![st], view) == view.included(),
{
    assert forall|i: usize| #[trigger] view.included().contains(i) implies selection(seq![st], view).contains(i) by {
        lemma_all_seq(st.condition()->All_0@, view, view.nodes()[i as int]);
        assert(seq![st][0].spec_accepts(view, view.nodes()[i as int]));
    }
    assert(selection(seq![st], view) =~= view.included());
}

/// No rule, no node: a selection without rules excludes everything.
pub proof fn law_no_statements_keep_nothing<P: NodePredicate>(view: EntityView)
    ensures
        selection(Seq::<Statement<P>>::empty(), view) == Set::<usize>::empty(),
{
    assert(selection(Seq::<Statement<P>>::empty(), view) =~= Set::<usize>::empty());
}

/// An empty disjunction on a link end forbids that end altogether: the rule then accepts no
/// entity, link or not.
pub proof fn law_empty_end_rejects<P: NodePredicate>(st: Statement<P>, view: EntityView, node: EntityNode)
    requires
        st.left() matches Some(c) && c matches Clause::Any(cs) && cs@.len() == 0,
    ensures
        !st.spec_accepts(view, node),
{
    let c = st.left()->Some_0;
    if let Some(id) = node.spec_left() {
        if let Some(n) = view.node_of(id) {
            lemma_any_seq(c->Any_0@, view, n);
        }
    }
}

/// A test of inheritance looks at every type that the entity's type inherits from, not only
/// at the first: where any of them is among the types of `m`, the entity matches, by itself and
/// as a clause.
pub proof fn law_inherits_from_any_parent<P: NodePredicate>(
    m: Matches<P>,
    view: EntityView,
    node: EntityNode,
    k: int,
)
    requires
        node.type_ is Some,
        0 <= k < view.inherits_from(node.type_->Some_0@).len(),
        m.inherited().contains(view.inherits_from(node.type_->Some_0@)[k]),
    ensures
        m.spec_matches(view, node),
        Clause::Matches(m).spec_matches(view, node),
{
    let t = node.type_->Some_0;
    let u = view.inherits_from(t@)[k];
    assert(view.inherits_from(t@).contains(u));
    assert(m.inherited().contains(u) && view.inherits_from(t@).contains(u));
}

/// Where neither the id, nor the type, nor a test of the user makes an entity match, it
/// matches only through a type that its type inherits from.
pub proof fn law_inheritance_match_needs_a_parent<P: NodePredicate>(
    m: Matches<P>,
    view: EntityView,
    node: EntityNode,
)
    requires
        node.type_ is Some,
        !m.ids().contains(node.id),
        !m.types().contains(node.type_->Some_0@),
        m.dynamic() is None,
        m.spec_matches(view, node),
    ensures
        exists|k: int|
            0 <= k < view.inherits_from(node.type_->Some_0@).len()
                && #[trigger] m.inherited().contains(view.inherits_from(node.type_->Some_0@)[k]),
{
    let t = node.type_->Some_0;
    let u = choose|u: (Seq<char>, u32)| #[trigger] m.inherited().contains(u) && view.inherits_from(t@).contains(u);
    let k = choose|k: int| 0 <= k < view.inherits_from(t@).len() && view.inherits_from(t@)[k] == u;
    assert(m.inherited().contains(view.inherits_from(t@)[k]));
}

} // verus!
