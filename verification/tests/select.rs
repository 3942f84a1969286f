use turbine::dynamic::{DynamicMatch, NoPredicate, NodePredicate};
use turbine::entity::{EntityId, EntityNode, LinkData};
use turbine::select::{Clause, Matches, Statement};
use turbine::url::{BaseUrlRef, VersionedUrl, VersionedUrlRef};
use turbine::view::{EntityView, Inheritance};

const PERSON: &str = "https://example.com/@alice/types/entity-type/person/";
const ANIMAL: &str = "https://example.com/@alice/types/entity-type/animal/";
const FRIEND: &str = "https://example.com/@alice/types/entity-type/friend-of/";

fn url(base: &'static str, version: u32) -> VersionedUrlRef<'static> {
    VersionedUrlRef::new_unchecked(BaseUrlRef::new_unchecked(base), version)
}

fn owned(base: &str, version: u32) -> VersionedUrl {
    VersionedUrl { base_url: base.to_string(), version }
}

fn id(n: u128) -> EntityId {
    EntityId { owned_by_id: 7, entity_uuid: n }
}

fn node(n: u128, type_: Option<VersionedUrl>) -> EntityNode {
    EntityNode { id: id(n), type_, link_data: None }
}

fn link(n: u128, left: u128, right: u128) -> EntityNode {
    EntityNode {
        id: id(n),
        type_: Some(owned(FRIEND, 1)),
        link_data: Some(LinkData { left_entity_id: id(left), right_entity_id: id(right) }),
    }
}

/// Holds of entities whose uuid is even.
struct EvenUuid;

impl NodePredicate for EvenUuid {
    fn spec_holds(&self, _view: EntityView, node: EntityNode) -> bool {
        node.id.entity_uuid % 2 == 0
    }

    fn holds(&self, _view: &EntityView, node: &EntityNode) -> bool {
        node.id.entity_uuid % 2 == 0
    }
}

/// A view with a person (1), an animal (2), an untyped entity (3), a second person (4) and
/// a link from 1 to 2 (5). Persons inherit from animals.
fn sample() -> EntityView {
    let mut view = EntityView::new();
    view.add_entity(node(1, Some(owned(PERSON, 1)))).unwrap();
    view.add_entity(node(2, Some(owned(ANIMAL, 1)))).unwrap();
    view.add_entity(node(3, None)).unwrap();
    view.add_entity(node(4, Some(owned(PERSON, 2)))).unwrap();
    view.add_entity(link(5, 1, 2)).unwrap();
    view.add_inheritance(Inheritance { type_: owned(PERSON, 1), inherits_from: vec![owned(ANIMAL, 1)] });
    view
}

fn included(view: &EntityView) -> Vec<usize> {
    (0..view.node_count()).filter(|i| !view.is_excluded(*i)).collect()
}

#[test]
fn matches_by_id() {
    let view = sample();
    let m: Matches<NoPredicate> = Matches::new().or_id(id(3));
    assert!(m.matches(&view, view.node_at(2).unwrap()));
    assert!(!m.matches(&view, view.node_at(0).unwrap()));
}

#[test]
fn matches_by_type_and_version() {
    let view = sample();
    let m: Matches<NoPredicate> = Matches::new().or_type(url(PERSON, 1));
    assert!(m.matches(&view, view.node_at(0).unwrap()));
    // another version is another type
    assert!(!m.matches(&view, view.node_at(3).unwrap()));
    assert!(!m.matches(&view, view.node_at(1).unwrap()));
}

#[test]
fn matches_by_inheritance() {
    let view = sample();
    let m: Matches<NoPredicate> = Matches::new().or_inherits_from(url(ANIMAL, 1));
    // person v1 inherits from animal v1
    assert!(m.matches(&view, view.node_at(0).unwrap()));
    // animal itself does not inherit from animal
    assert!(!m.matches(&view, view.node_at(1).unwrap()));
    // no table entry for person v2
    assert!(!m.matches(&view, view.node_at(3).unwrap()));
}

#[test]
fn dynamic_is_asked_for_typed_entities_only() {
    let view = sample();
    let m = Matches::new().or_dynamic(EvenUuid);
    assert!(m.matches(&view, view.node_at(1).unwrap()));
    assert!(!m.matches(&view, view.node_at(0).unwrap()));
    // entity 4 is even and typed
    assert!(m.matches(&view, view.node_at(3).unwrap()));
    let untyped = node(6, None);
    assert!(!m.matches(&view, &untyped));
}

#[test]
fn empty_matches_nothing() {
    let view = sample();
    let m: Matches<NoPredicate> = Matches::new();
    for i in 0..view.node_count() {
        assert!(!m.matches(&view, view.node_at(i).unwrap()));
    }
}

#[test]
fn empty_all_is_true_and_empty_any_is_false() {
    let view = sample();
    let all: Clause<NoPredicate> = Clause::All(Vec::new());
    let any: Clause<NoPredicate> = Clause::Any(Vec::new());
    let n = view.node_at(0).unwrap();
    assert!(all.matches(&view, n));
    assert!(!any.matches(&view, n));
}

#[test]
fn clause_or_and_not() {
    let view = sample();
    let person = || Clause::from(Matches::<NoPredicate>::new().or_type(url(PERSON, 1)));
    let animal = || Clause::from(Matches::<NoPredicate>::new().or_type(url(ANIMAL, 1)));
    let either = person().or(animal());
    let both = person().and(animal());
    let not_person = person().not();
    let p = view.node_at(0).unwrap();
    let a = view.node_at(1).unwrap();
    let u = view.node_at(2).unwrap();
    assert!(either.matches(&view, p) && either.matches(&view, a) && !either.matches(&view, u));
    assert!(!both.matches(&view, p) && !both.matches(&view, a));
    assert!(!not_person.matches(&view, p) && not_person.matches(&view, a));
}

#[test]
fn clause_or_extends_a_disjunction() {
    let c: Clause<NoPredicate> = Clause::Any(vec![Clause::All(Vec::new())]);
    let c = c.or(Clause::Any(Vec::new()));
    match c {
        Clause::Any(parts) => assert_eq!(parts.len(), 2),
        _ => panic!("expected a disjunction"),
    }
    let d: Clause<NoPredicate> = Clause::All(Vec::new());
    let d = d.or(Clause::All(Vec::new()));
    match d {
        Clause::Any(parts) => assert_eq!(parts.len(), 2),
        _ => panic!("expected a disjunction"),
    }
}

#[test]
fn clause_and_extends_a_conjunction() {
    let c: Clause<NoPredicate> = Clause::All(vec![Clause::Any(Vec::new()), Clause::Any(Vec::new())]);
    let c = c.and(Clause::Any(Vec::new()));
    match c {
        Clause::All(parts) => assert_eq!(parts.len(), 3),
        _ => panic!("expected a conjunction"),
    }
}

#[test]
fn matches_or_goes_in_front_of_a_conjunction() {
    let view = sample();
    let m: Matches<NoPredicate> = Matches::new().or_type(url(PERSON, 1));
    let c = m.or(Clause::All(vec![Clause::Any(Vec::new())]));
    match &c {
        Clause::All(parts) => {
            assert_eq!(parts.len(), 2);
            assert!(matches!(parts[0], Clause::Matches(_)));
        }
        _ => panic!("expected a conjunction"),
    }
    // the result is a conjunction: the empty disjunction never holds
    assert!(!c.matches(&view, view.node_at(0).unwrap()));
    let m: Matches<NoPredicate> = Matches::new().or_type(url(PERSON, 1));
    let c = m.and(Clause::from(Matches::new().or_id(id(1))));
    assert!(c.matches(&view, view.node_at(0).unwrap()));
    assert!(!c.matches(&view, view.node_at(3).unwrap()));
}

#[test]
fn matches_not() {
    let view = sample();
    let c = Matches::<NoPredicate>::new().or_id(id(1)).not();
    assert!(!c.matches(&view, view.node_at(0).unwrap()));
    assert!(c.matches(&view, view.node_at(1).unwrap()));
}

#[test]
fn double_negation() {
    let view = sample();
    let c = Clause::from(Matches::<NoPredicate>::new().or_id(id(2))).not().not();
    assert!(c.matches(&view, view.node_at(1).unwrap()));
    assert!(!c.matches(&view, view.node_at(0).unwrap()));
}

#[test]
fn dynamic_clause() {
    let view = sample();
    let c = Clause::from(DynamicMatch::new(EvenUuid));
    assert!(c.matches(&view, view.node_at(1).unwrap()));
    assert!(!c.matches(&view, view.node_at(2).unwrap()));
    let d = DynamicMatch::new(EvenUuid);
    assert!(d.matches(&view, view.node_at(3).unwrap()));
}

#[test]
fn select_keeps_accepted_nodes() {
    let mut view = sample();
    let rules = vec![Matches::<NoPredicate>::new().or_type(url(PERSON, 1)).into_statement(),
                     Matches::new().or_id(id(3)).with_links()];
    view.select(rules);
    assert_eq!(included(&view), vec![0, 2]);
}

#[test]
fn select_complement_excludes_accepted_nodes() {
    let mut view = sample();
    let rules = vec![Matches::<NoPredicate>::new().or_type(url(PERSON, 1)).into_statement()];
    view.select_complement(rules);
    assert_eq!(included(&view), vec![1, 2, 3, 4]);
}

#[test]
fn select_twice_is_select_once() {
    let mut view = sample();
    view.select(vec![Matches::<NoPredicate>::new().or_inherits_from(url(ANIMAL, 1)).or_id(id(3)).into_statement()]);
    let once = included(&view);
    view.select(vec![Matches::<NoPredicate>::new().or_inherits_from(url(ANIMAL, 1)).or_id(id(3)).into_statement()]);
    assert_eq!(included(&view), once);
    assert_eq!(once, vec![0, 2]);
}

#[test]
fn select_and_complement_partition() {
    let rules = || vec![Matches::<NoPredicate>::new().or_id(id(2)).or_id(id(4)).into_statement()];
    let mut kept = sample();
    kept.select(rules());
    let mut dropped = sample();
    dropped.select_complement(rules());
    let a = included(&kept);
    let b = included(&dropped);
    assert_eq!(a, vec![1, 3]);
    assert_eq!(b, vec![0, 2, 4]);
}

#[test]
fn new_statement_keeps_everything() {
    let mut view = sample();
    view.select(vec![Statement::<NoPredicate>::new()]);
    assert_eq!(included(&view), vec![0, 1, 2, 3, 4]);
}

#[test]
fn no_statements_keep_nothing() {
    let mut view = sample();
    view.select(Vec::<Statement<NoPredicate>>::new());
    assert_eq!(included(&view), Vec::<usize>::new());
}

#[test]
fn statement_checks_link_ends() {
    let friend = || Clause::from(Matches::<NoPredicate>::new().or_type(url(FRIEND, 1)));
    let person = || Clause::from(Matches::<NoPredicate>::new().or_type(url(PERSON, 1)));
    let animal = || Clause::from(Matches::<NoPredicate>::new().or_type(url(ANIMAL, 1)));

    let mut view = sample();
    view.select(vec![Statement::new().with_if(friend()).with_left(person()).with_right(animal())]);
    assert_eq!(included(&view), vec![4]);

    let mut view = sample();
    view.select(vec![Statement::new().with_if(friend()).with_left(animal())]);
    assert_eq!(included(&view), Vec::<usize>::new());

    // a clause on a link end rejects entities that are no links
    let mut view = sample();
    view.select(vec![Statement::<NoPredicate>::new().with_left(Clause::All(Vec::new()))]);
    assert_eq!(included(&view), vec![4]);
}

#[test]
fn statement_or_widens() {
    let person = || Clause::from(Matches::<NoPredicate>::new().or_type(url(PERSON, 1)));
    let animal = || Clause::from(Matches::<NoPredicate>::new().or_type(url(ANIMAL, 1)));

    let mut view = sample();
    view.select(vec![Statement::from(person()).or_if(animal())]);
    assert_eq!(included(&view), vec![0, 1]);

    let mut view = sample();
    view.select(vec![Statement::new().with_left(animal()).or_left(person())]);
    assert_eq!(included(&view), vec![4]);

    let mut view = sample();
    view.select(vec![Statement::new().or_right(person())]);
    assert_eq!(included(&view), Vec::<usize>::new());

    let mut view = sample();
    view.select(vec![Statement::new().with_right(person()).or_right(animal())]);
    assert_eq!(included(&view), vec![4]);
}

#[test]
fn link_ends_are_checked_when_excluded() {
    let friend = || Clause::from(Matches::<NoPredicate>::new().or_type(url(FRIEND, 1)));
    let person = || Clause::from(Matches::<NoPredicate>::new().or_type(url(PERSON, 1)));
    let mut view = sample();
    view.select_complement(vec![person().into_statement()]);
    view.select(vec![Statement::new().with_if(friend()).with_left(person())]);
    assert_eq!(included(&view), vec![4]);
}

#[test]
fn lookup_gives_the_first_entity_with_an_id() {
    let mut view = EntityView::new();
    view.add_entity(node(1, None)).unwrap();
    view.add_entity(node(1, Some(owned(PERSON, 1)))).unwrap();
    let found = view.lookup_node(id(1)).unwrap();
    assert!(found.type_.is_none());
    assert!(view.lookup_node(id(9)).is_none());
    assert!(view.node_at(2).is_none());
}

#[test]
fn empty_disjunction_on_an_end_rejects_everything() {
    let mut view = sample();
    view.select(vec![Statement::<NoPredicate>::new().with_left(Clause::Any(Vec::new()))]);
    assert_eq!(included(&view), Vec::<usize>::new());
}

#[test]
fn select_sequence_intersects() {
    let first = || vec![Matches::<NoPredicate>::new().or_id(id(1)).or_id(id(2)).or_id(id(3)).into_statement()];
    let second = || vec![Matches::<NoPredicate>::new().or_id(id(2)).or_id(id(3)).or_id(id(4)).into_statement()];
    let mut a = sample();
    a.select(first());
    a.select(second());
    let mut b = sample();
    b.select(second());
    b.select(first());
    assert_eq!(included(&a), vec![1, 2]);
    assert_eq!(included(&b), vec![1, 2]);
}
