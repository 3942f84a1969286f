use heck::{ToPascalCase, ToSnekCase};

use turbine::name::{
    decimal_string, Captured, Flavor, Kind, Mode, ModuleFlavor, NameResolver, Override,
    OverrideAction, ParsedUrl, PartsError, TypeEntry, UrlParts, parts_from_captures,
};
use turbine::url::VersionedUrl;

const PERSON: &str = "https://blockprotocol.org/@alice/types/entity-type/person/";
const OTHER: &str = "https://example.com/things/person";

fn owned(base: &str, version: u32) -> VersionedUrl {
    VersionedUrl { base_url: base.to_string(), version }
}

fn entry(base: &str, version: u32, title: &str) -> TypeEntry {
    TypeEntry { url: owned(base, version), title: title.to_string() }
}

fn parts(origin: &str, namespace: Option<&str>, kind: Kind, id: &str) -> UrlParts {
    UrlParts {
        origin: origin.to_string(),
        namespace: namespace.map(|n| n.to_string()),
        kind,
        id: id.to_string(),
    }
}

fn dirs(loc: &turbine::name::Location) -> Vec<String> {
    loc.path.0.iter().map(|d| d.0.clone()).collect()
}

#[test]
fn decimal_notation() {
    assert_eq!(decimal_string(0), "0");
    assert_eq!(decimal_string(7), "7");
    assert_eq!(decimal_string(10), "10");
    assert_eq!(decimal_string(1234), "1234");
    assert_eq!(decimal_string(u32::MAX), "4294967295");
}

#[test]
fn kind_words() {
    assert_eq!(Kind::Data.as_str(), "data");
    assert_eq!(Kind::Property.as_str(), "property");
    assert_eq!(Kind::Entity.as_str(), "entity");
    assert_eq!(Kind::from_word("property"), Some(Kind::Property));
    assert_eq!(Kind::from_word("link"), None);
}

#[test]
fn required_groups() {
    let names = |xs: &[&str]| xs.iter().map(|x| x.to_string()).collect::<Vec<_>>();
    assert!(Mode::MatchPath.has_required_groups(&names(&["kind", "id"])));
    assert!(Mode::MatchPath.has_required_groups(&names(&["namespace", "kind", "id", "extra"])));
    assert!(!Mode::MatchPath.has_required_groups(&names(&["kind"])));
    assert!(!Mode::MatchAll.has_required_groups(&names(&["kind", "id"])));
    assert!(Mode::MatchAll.has_required_groups(&names(&["origin", "kind", "id"])));
}

#[test]
fn flavor_requires_groups() {
    let ok = r"(?P<origin>.*)/(?P<kind>data)/(?P<id>\w+)";
    assert!(Flavor::checked("x".to_string(), Mode::MatchAll, ok.to_string()).is_some());
    let missing = r"(?P<kind>data)/(?P<id>\w+)";
    assert!(Flavor::checked("x".to_string(), Mode::MatchAll, missing.to_string()).is_none());
    assert!(Flavor::checked("x".to_string(), Mode::MatchPath, missing.to_string()).is_some());
    // unnamed groups and extra groups change nothing
    let extra = r"(a)(?P<kind>data)/(?P<id>\w+)(?P<version>/v/\d+)?";
    assert!(Flavor::checked("x".to_string(), Mode::MatchPath, extra.to_string()).is_some());
    // a pattern that does not compile makes no flavor
    assert!(Flavor::checked("x".to_string(), Mode::MatchPath, "(?P<kind>".to_string()).is_none());
}

#[test]
fn override_replaces_matching_origin() {
    let o = Override::new().with_origin(OverrideAction::new("http://localhost:3000".to_string(), "https://hash.ai".to_string()));
    let mut p = parts("http://localhost:3000", Some("alice"), Kind::Data, "text");
    o.apply(&mut p);
    assert_eq!(p.origin, "https://hash.ai");
    let mut q = parts("https://other.org", None, Kind::Data, "text");
    o.apply(&mut q);
    assert_eq!(q.origin, "https://other.org");
    let mut r = parts("http://localhost:3000", None, Kind::Data, "text");
    Override::new().apply(&mut r);
    assert_eq!(r.origin, "http://localhost:3000");
}

#[test]
fn parts_from_captured_groups() {
    let captured = |origin: Option<&str>, kind: Option<&str>, id: Option<&str>| Captured {
        origin: origin.map(|s| s.to_string()),
        namespace: Some("alice".to_string()),
        kind: kind.map(|s| s.to_string()),
        id: id.map(|s| s.to_string()),
    };
    let overrides = vec![
        Override::new().with_origin(OverrideAction::new("a".to_string(), "b".to_string())),
        Override::new().with_origin(OverrideAction::new("b".to_string(), "c".to_string())),
    ];
    // MatchPath takes the URL's own origin, and the overrides apply in order
    let p = parts_from_captures(Mode::MatchPath, "a".to_string(), captured(Some("z"), Some("entity"), Some("person")), &overrides).unwrap();
    assert_eq!(p.origin, "c");
    assert_eq!(p.namespace.as_deref(), Some("alice"));
    assert_eq!(p.kind, Kind::Entity);
    assert_eq!(p.id, "person");
    // MatchAll takes the captured one
    let p = parts_from_captures(Mode::MatchAll, "a".to_string(), captured(Some("z"), Some("data"), Some("text")), &overrides).unwrap();
    assert_eq!(p.origin, "z");
    let e = parts_from_captures(Mode::MatchAll, "a".to_string(), captured(None, Some("data"), Some("text")), &overrides);
    assert_eq!(e.err(), Some(PartsError::MissingGroup));
    let e = parts_from_captures(Mode::MatchPath, "a".to_string(), captured(None, Some("link"), Some("text")), &overrides);
    assert_eq!(e.err(), Some(PartsError::UnknownKind));
    let e = parts_from_captures(Mode::MatchPath, "a".to_string(), captured(None, Some("data"), None), &overrides);
    assert_eq!(e.err(), Some(PartsError::MissingGroup));
}

#[test]
fn other_versions() {
    let r = NameResolver::new(vec![entry(PERSON, 1, "Person"), entry(OTHER, 1, "Other"), entry(PERSON, 3, "Person"), entry(PERSON, 2, "Person")]);
    assert_eq!(r.other_versions_of_url(&owned(PERSON, 2)), vec![1, 3]);
    assert_eq!(r.other_versions_of_url(&owned(OTHER, 1)), Vec::<u32>::new());
}

#[test]
fn older_version_carries_its_version() {
    let r = NameResolver::new(vec![entry(PERSON, 1, "Person"), entry(PERSON, 2, "Person")]);
    let p = parts("https://blockprotocol.org", Some("alice"), Kind::Entity, "person");
    let loc = r.location_with_parts(&owned(PERSON, 1), Some(&p), PERSON);
    assert_eq!(loc.name.name, "PersonV1");
    assert_eq!(loc.name.alias, None);
    assert_eq!(dirs(&loc), vec!["https_blockprotocol_org".to_snek_case(), "alice".to_string(), "entity".to_string(), "person".to_string()]);
    assert_eq!(loc.path.1 .0, "v1");
    assert_eq!(loc.alias, None);
}

#[test]
fn newest_version_goes_to_mod() {
    let mut r = NameResolver::new(vec![entry(PERSON, 1, "Person"), entry(PERSON, 2, "Person")]);
    let p = parts("https://blockprotocol.org", None, Kind::Entity, "person");
    let loc = r.location_with_parts(&owned(PERSON, 2), Some(&p), PERSON);
    assert_eq!(loc.name.name, "Person");
    assert_eq!(loc.name.alias.as_deref(), Some("PersonV2"));
    assert_eq!(dirs(&loc), vec!["https://blockprotocol.org".to_snek_case(), "entity".to_string(), "person".to_string()]);
    assert_eq!(loc.path.1 .0, "mod");
    r.with_module_flavor(ModuleFlavor::ModuleRs);
    let loc = r.location_with_parts(&owned(PERSON, 2), Some(&p), PERSON);
    assert_eq!(dirs(&loc), vec!["https://blockprotocol.org".to_snek_case(), "entity".to_string()]);
    assert_eq!(loc.path.1 .0, "person");
}

#[test]
fn lone_version_stays() {
    let r = NameResolver::new(vec![entry(OTHER, 4, "fancy thing")]);
    let loc = r.location_with_parts(&owned(OTHER, 4), None, OTHER);
    assert_eq!(loc.name.name, "fancy thing".to_pascal_case());
    assert_eq!(loc.name.alias, Some(format!("{}V4", "fancy thing".to_pascal_case())));
    assert!(dirs(&loc).is_empty());
    assert_eq!(loc.path.1 .0, OTHER.to_snek_case());
}

#[test]
fn unknown_and_unrecognised_has_no_name() {
    let r = NameResolver::new(vec![]);
    assert!(r.name(&owned(OTHER, 1)).is_none());
    assert!(r.location(&owned(OTHER, 1)).is_none());
}

#[test]
fn determine_name_by_newest_other() {
    let r = NameResolver::new(vec![]);
    let p = parts("o", None, Kind::Data, "text");
    let n = r.determine_name(&owned(OTHER, 2), Some(&p), Some(3));
    assert_eq!((n.name.as_str(), n.alias), ("TextV2", None));
    let n = r.determine_name(&owned(OTHER, 2), Some(&p), Some(1));
    assert_eq!((n.name.as_str(), n.alias.as_deref()), ("Text", Some("TextV2")));
    let n = r.determine_name(&owned(OTHER, 2), Some(&p), None);
    assert_eq!((n.name.as_str(), n.alias.as_deref()), ("Text", Some("TextV2")));
}

#[test]
fn location_of_a_block_protocol_url() {
    let r = NameResolver::new(vec![entry(PERSON, 1, "Person")]);
    let loc = r.location(&owned(PERSON, 1)).unwrap();
    assert_eq!(loc.name.name, "Person");
    assert_eq!(loc.name.alias.as_deref(), Some("PersonV1"));
    assert_eq!(dirs(&loc), vec!["https://blockprotocol.org".to_snek_case(), "alice".to_string(), "entity".to_string()]);
    assert_eq!(loc.path.1 .0, "person");
    let n = r.name(&owned(PERSON, 1)).unwrap();
    assert_eq!(n.name, "Person");
}

#[test]
fn location_with_override() {
    let mut r = NameResolver::new(vec![entry("http://localhost:3000/@alice/types/data-type/text/", 1, "Text")]);
    r.with_override(Override::new().with_origin(OverrideAction::new("http://localhost:3000".to_string(), "https://hash.ai".to_string())));
    let loc = r.location(&owned("http://localhost:3000/@alice/types/data-type/text/", 1)).unwrap();
    assert_eq!(dirs(&loc), vec!["https://hash.ai".to_snek_case(), "alice".to_string(), "data".to_string()]);
    assert_eq!(loc.path.1 .0, "text");
}

#[test]
fn location_of_an_unrecognised_url() {
    let r = NameResolver::new(vec![entry(OTHER, 1, "thing")]);
    let loc = r.location(&owned(OTHER, 1)).unwrap();
    assert_eq!(loc.name.name, "Thing");
    assert!(dirs(&loc).is_empty());
    assert_eq!(loc.path.1 .0, OTHER.to_snek_case());
}

#[test]
fn user_flavor_matches_all() {
    let mut r = NameResolver::new(vec![]);
    let pattern = r"^(?P<origin>https://[^/]+)/t/(?P<kind>data|property|entity)/(?P<id>\w+)$";
    r.with_flavor(Flavor::checked("mine".to_string(), Mode::MatchAll, pattern.to_string()).unwrap());
    let loc = r.location(&owned("https://x.org/t/property/age", 1)).unwrap();
    assert_eq!(loc.name.name, "Age");
    assert_eq!(dirs(&loc), vec!["https://x.org".to_snek_case(), "property".to_string()]);
    assert_eq!(loc.path.1 .0, "age");
}

#[test]
fn versions_share_a_directory() {
    let r = NameResolver::new(vec![entry(PERSON, 1, "Person"), entry(PERSON, 2, "Person"), entry(PERSON, 3, "Person")]);
    let p = parts("https://blockprotocol.org", Some("alice"), Kind::Entity, "person");
    let v1 = r.location_with_parts(&owned(PERSON, 1), Some(&p), PERSON);
    let v2 = r.location_with_parts(&owned(PERSON, 2), Some(&p), PERSON);
    let v3 = r.location_with_parts(&owned(PERSON, 3), Some(&p), PERSON);
    assert_eq!(dirs(&v1), dirs(&v3));
    assert_eq!(dirs(&v2), dirs(&v3));
    assert_eq!((v1.path.1 .0.as_str(), v2.path.1 .0.as_str(), v3.path.1 .0.as_str()), ("v1", "v2", "mod"));
    assert_eq!((v1.name.name.as_str(), v2.name.name.as_str(), v3.name.name.as_str()), ("PersonV1", "PersonV2", "Person"));
}

fn parsed(text: &str, path: &str, origin: &str) -> ParsedUrl {
    ParsedUrl { text: text.to_string(), path: path.to_string(), origin: origin.to_string() }
}

#[test]
fn url_parts_of_the_block_protocol() {
    let r = NameResolver::new(vec![]);
    let url = parsed(
        "http://localhost:3000/@alice/types/property-type/cbrsUuid/",
        "/@alice/types/property-type/cbrsUuid/",
        "http://localhost:3000",
    );
    let p = r.url_into_parts(&url).unwrap().unwrap();
    assert_eq!(p.origin, "http://localhost:3000");
    assert_eq!(p.namespace.as_deref(), Some("alice"));
    assert_eq!(p.kind, Kind::Property);
    assert_eq!(p.id, "cbrsUuid");
    let none = parsed("https://example.com/foo/", "/foo/", "https://example.com");
    assert!(r.url_into_parts(&none).unwrap().is_none());
}

#[test]
fn first_matching_flavor_decides() {
    let mut r = NameResolver::new(vec![]);
    r.with_flavor(Flavor::checked("a".to_string(), Mode::MatchPath, r"/x/(?P<kind>data)/(?P<id>\w+)".to_string()).unwrap());
    r.with_flavor(Flavor::checked("b".to_string(), Mode::MatchPath, r"/(?P<kind>\w+)/(?P<id>\w+)".to_string()).unwrap());
    let p = r.url_into_parts(&parsed("https://o.org/x/data/first", "/x/data/first", "https://o.org")).unwrap().unwrap();
    assert_eq!((p.kind, p.id.as_str()), (Kind::Data, "first"));
    // the second flavor matches, with a kind that is none of the three words
    let e = r.url_into_parts(&parsed("https://o.org/link/one", "/link/one", "https://o.org"));
    assert_eq!(e.err(), Some(PartsError::UnknownKind));
}

#[test]
fn name_agrees_with_location() {
    let r = NameResolver::new(vec![entry(PERSON, 1, "Person"), entry(PERSON, 2, "Person")]);
    for v in 1..=2 {
        assert_eq!(r.name(&owned(PERSON, v)), r.location(&owned(PERSON, v)).map(|l| l.name));
    }
}
