use vstd::prelude::*;

use heck::{ToPascalCase, ToSnekCase};

use regex::Regex;
use reqwest::Url;

use crate::url::VersionedUrl;

verus! {

/// The character of a decimal digit.
pub open spec fn digit_char(d: nat) -> char {
    (48 + d) as char
}

/// The decimal notation of a number, without leading zeros.
pub open spec fn decimal(v: nat) -> Seq<char>
    decreases v,
{
    if v < 10 {
        seq![digit_char(v)]
    } else {
        decimal(v / 10) + seq![digit_char(v % 10)]
    }
}

/// A name with a version suffix: `name`, `V`, and the version.
pub open spec fn versioned(name: Seq<char>, version: u32) -> Seq<char> {
    name + seq!['V'] + decimal(version as nat)
}

/// The file of an older version: `v` and the version.
pub open spec fn version_file(version: u32) -> Seq<char> {
    seq!['v'] + decimal(version as nat)
}

fn digit_str(d: u32) -> (r: &'static str)
    requires
        d < 10,
    ensures
        r@ == seq![digit_char(d as nat)],
{
    proof {
        reveal_strlit("0");
        reveal_strlit("1");
        reveal_strlit("2");
        reveal_strlit("3");
        reveal_strlit("4");
        reveal_strlit("5");
        reveal_strlit("6");
        reveal_strlit("7");
        reveal_strlit("8");
        reveal_strlit("9");
    }
    match d {
        0 => "0",
        1 => "1",
        2 => "2",
        3 => "3",
        4 => "4",
        5 => "5",
        6 => "6",
        7 => "7",
        8 => "8",
        _ => "9",
    }
}

/// The decimal notation of `v`.
pub fn decimal_string(v: u32) -> (r: String)
    ensures
        r@ == decimal(v as nat),
    decreases v,
{
    if v < 10 {
        digit_str(v).to_string()
    } else {
        let mut s = decimal_string(v / 10);
        s.append(digit_str(v % 10));
        s
    }
}

/// `heck::ToPascalCase::to_pascal_case` on a string.
pub uninterp spec fn pascal_case(s: Seq<char>) -> Seq<char>;

/// `heck::ToSnekCase::to_snek_case` on a string.
pub uninterp spec fn snake_case(s: Seq<char>) -> Seq<char>;

/// `heck::ToPascalCase::to_pascal_case`: the string in upper camel case. Its result is a
/// function of the string alone, named `pascal_case`; nothing more is stated of it.
#[verifier::external_body]
fn to_pascal_case(s: &str) -> (r: String)
    ensures
        r@ == pascal_case(s@),
{
    s.to_pascal_case()
}

/// `heck::ToSnekCase::to_snek_case`: the string in snake case. Its result is a function of the
/// string alone, named `snake_case`; nothing more is stated of it.
#[verifier::external_body]
fn to_snek_case(s: &str) -> (r: String)
    ensures
        r@ == snake_case(s@),
{
    s.to_snek_case()
}

/// `name` with the version suffix.
fn versioned_name(name: &String, version: u32) -> (r: String)
    ensures
        r@ == versioned(name@, version),
{
    let mut s = name.clone();
    proof {
        reveal_strlit("V");
    }
    s.append("V");
    let digits = decimal_string(version);
    s.append(digits.as_str());
    s
}

/// The file name of an older version.
fn version_file_name(version: u32) -> (r: String)
    ensures
        r@ == version_file(version),
{
    proof {
        reveal_strlit("v");
    }
    let mut s = "v".to_string();
    let digits = decimal_string(version);
    s.append(digits.as_str());
    s
}

/// Where the newest version of a type goes: the `mod.rs` of its directory, or the file of its
/// own name beside a `module` directory.
#[derive(Debug, Clone, Copy, PartialEq, Eq, Structural)]
pub enum ModuleFlavor {
    ModRs,
    ModuleRs,
}

/// A directory of a module path.
#[derive(Debug, Clone, PartialEq, Eq)]
pub struct Directory(pub String);

/// The file of a module path, without extension.
#[derive(Debug, Clone, PartialEq, Eq)]
pub struct File(pub String);

/// A module path: directories, then a file.
#[derive(Debug, Clone, PartialEq, Eq)]
pub struct Path(pub Vec<Directory>, pub File);

impl View for Path {
    type V = (Seq<Seq<char>>, Seq<char>);

    open spec fn view(&self) -> (Seq<Seq<char>>, Seq<char>) {
        (self.0@.map_values(|d: Directory| d.0@), self.1.0@)
    }
}

/// The name of a generated type, and the versioned alias that it is also exported under.
#[derive(Debug, Clone, PartialEq, Eq)]
pub struct Name {
    pub name: String,
    pub alias: Option<String>,
}

impl View for Name {
    type V = (Seq<char>, Option<Seq<char>>);

    open spec fn view(&self) -> (Seq<char>, Option<Seq<char>>) {
        (
            self.name@,
            match self.alias {
                Some(a) => Some(a@),
                None => None,
            },
        )
    }
}

/// Where a generated type lives and what it is called.
#[derive(Debug, Clone, PartialEq, Eq)]
pub struct Location {
    pub path: Path,
    pub name: Name,
    pub alias: Option<String>,
}

/// The kind of a type.
#[derive(Debug, Clone, Copy, PartialEq, Eq, Structural)]
pub enum Kind {
    Data,
    Property,
    Entity,
}

impl Kind {
    /// The word of the kind in a type URL.
    pub open spec fn spec_word(self) -> Seq<char> {
        match self {
            Kind::Data => "data"@,
            Kind::Property => "property"@,
            Kind::Entity => "entity"@,
        }
    }

    /// The kind that a word of a type URL names.
    pub open spec fn spec_from_word(w: Seq<char>) -> Option<Kind> {
        if w == "data"@ {
            Some(Kind::Data)
        } else if w == "property"@ {
            Some(Kind::Property)
        } else if w == "entity"@ {
            Some(Kind::Entity)
        } else {
            None
        }
    }

    /// The word of the kind in a type URL.
    pub fn as_str(&self) -> (r: &'static str)
        ensures
            r@ == self.spec_word(),
    {
        match self {
            Kind::Data => "data",
            Kind::Property => "property",
            Kind::Entity => "entity",
        }
    }

    /// The kind that a word of a type URL names.
    pub fn from_word(w: &str) -> (r: Option<Kind>)
        ensures
            r == Kind::spec_from_word(w@),
    {
        if crate::url::str_equal(w, "data") {
            Some(Kind::Data)
        } else if crate::url::str_equal(w, "property") {
            Some(Kind::Property)
        } else if crate::url::str_equal(w, "entity") {
            Some(Kind::Entity)
        } else {
            None
        }
    }
}

/// What the pattern of a flavor is matched against: the path of a URL only, or the whole URL.
#[derive(Debug, Clone, Copy, PartialEq, Eq, Structural)]
pub enum Mode {
    MatchPath,
    MatchAll,
}

impl Mode {
    /// The named groups that a pattern of this mode must have.
    pub open spec fn spec_required(self) -> Seq<Seq<char>> {
        match self {
            Mode::MatchPath => seq!["kind"@, "id"@],
            Mode::MatchAll => seq!["origin"@, "kind"@, "id"@],
        }
    }

    /// Whether `names` holds every group that a pattern of this mode requires.
    pub fn has_required_groups(self, names: &Vec<String>) -> (r: bool)
        ensures
            r == self.spec_has_required(names@.map_values(|n: String| n@)),
    {
        let kind = contains_name(names, "kind");
        let id = contains_name(names, "id");
        match self {
            Mode::MatchPath => {
                proof {
                    assert(self.spec_required() =~= seq!["kind"@, "id"@]);
                }
                kind && id
            },
            Mode::MatchAll => {
                let origin = contains_name(names, "origin");
                proof {
                    assert(self.spec_required() =~= seq!["origin"@, "kind"@, "id"@]);
                }
                origin && kind && id
            },
        }
    }
}

/// Whether `names` holds `name`.
fn contains_name(names: &Vec<String>, name: &str) -> (r: bool)
    ensures
        r == names@.map_values(|n: String| n@).contains(name@),
{
    let mut i: usize = 0;
    while i < names.len()
        invariant
            i <= names@.len(),
            forall|j: int| 0 <= j < i ==> names@[j]@ != name@,
        decreases names@.len() - i,
    {
        if crate::url::str_equal(names[i].as_str(), name) {
            assert(names@.map_values(|n: String| n@)[i as int] == name@);
            return true;
        }
        i = i + 1;
    }
    false
}

/// The parts of a type URL that a flavor recognises.
#[derive(Debug, Clone)]
pub struct UrlParts {
    pub origin: String,
    pub namespace: Option<String>,
    pub kind: Kind,
    pub id: String,
}

impl View for UrlParts {
    type V = (Seq<char>, Option<Seq<char>>, Kind, Seq<char>);

    open spec fn view(&self) -> (Seq<char>, Option<Seq<char>>, Kind, Seq<char>) {
        (self.origin@, opt_view(self.namespace), self.kind, self.id@)
    }
}

/// The parts, by their view, where there are any.
pub open spec fn owned_parts_view(parts: Option<UrlParts>) -> Option<(Seq<char>, Option<Seq<char>>, Kind, Seq<char>)> {
    match parts {
        Some(p) => Some(p@),
        None => None,
    }
}

/// The parts, by their view, where there are any.
pub open spec fn opt_parts_view(parts: Option<&UrlParts>) -> Option<(Seq<char>, Option<Seq<char>>, Kind, Seq<char>)> {
    match parts {
        Some(p) => Some(p@),
        None => None,
    }
}

/// A replacement of one string by another.
#[derive(Debug, Clone)]
pub struct OverrideAction {
    matches: String,
    replacement: String,
}

impl OverrideAction {
    /// The string that is replaced.
    pub closed spec fn spec_matches(self) -> Seq<char> {
        self.matches@
    }

    /// The string that replaces it.
    pub closed spec fn spec_replacement(self) -> Seq<char> {
        self.replacement@
    }

    pub fn new(replace: String, with: String) -> (r: Self)
        ensures
            r.spec_matches() == replace@,
            r.spec_replacement() == with@,
    {
        Self { matches: replace, replacement: with }
    }
}

/// A change of the parts of recognised URLs: for now, of their origin.
pub struct Override {
    origin: Option<OverrideAction>,
}

/// The origin after an override: replaced where it is the one that the override matches.
pub open spec fn overridden_origin(o: Override, origin: Seq<char>) -> Seq<char> {
    match o.origin_action() {
        Some(a) => if origin == a.spec_matches() {
            a.spec_replacement()
        } else {
            origin
        },
        None => origin,
    }
}

/// The origin after a list of overrides, applied in order.
pub open spec fn overridden_all(os: Seq<Override>, origin: Seq<char>) -> Seq<char>
    decreases os.len(),
{
    if os.len() == 0 {
        origin
    } else {
        overridden_origin(os.last(), overridden_all(os.drop_last(), origin))
    }
}

impl Override {
    /// The replacement of the origin, where one is set.
    pub closed spec fn origin_action(self) -> Option<OverrideAction> {
        self.origin
    }

    /// Changes nothing.
    pub fn new() -> (r: Self)
        ensures
            r.origin_action() is None,
    {
        Self { origin: None }
    }

    /// Replaces the origin `host.matches` by `host.replacement`.
    pub fn with_origin(self, host: OverrideAction) -> (r: Self)
        ensures
            r.origin_action() == Some(host),
    {
        let mut this = self;
        this.origin = Some(host);
        this
    }

    /// Applies the override to the parts of a URL.
    pub fn apply(&self, url: &mut UrlParts)
        ensures
            final(url).origin@ == overridden_origin(*self, old(url).origin@),
            final(url).namespace == old(url).namespace,
            final(url).kind == old(url).kind,
            final(url).id == old(url).id,
    {
        if let Some(origin) = &self.origin {
            if url.origin == origin.matches {
                url.origin = origin.replacement.clone();
            }
        }
    }
}

/// Applies the overrides in order.
fn apply_overrides(overrides: &Vec<Override>, url: &mut UrlParts)
    ensures
        final(url).origin@ == overridden_all(overrides@, old(url).origin@),
        final(url).namespace == old(url).namespace,
        final(url).kind == old(url).kind,
        final(url).id == old(url).id,
{
    let mut i: usize = 0;
    while i < overrides.len()
        invariant
            i <= overrides@.len(),
            url.origin@ == overridden_all(overrides@.take(i as int), old(url).origin@),
            url.namespace == old(url).namespace,
            url.kind == old(url).kind,
            url.id == old(url).id,
        decreases overrides@.len() - i,
    {
        overrides[i].apply(url);
        assert(overrides@.take(i + 1).drop_last() =~= overrides@.take(i as int));
        i = i + 1;
    }
    assert(overrides@.take(overrides@.len() as int) =~= overrides@);
}

/// The groups that a pattern captured in a URL, by name.
#[derive(Debug, Clone)]
pub struct Captured {
    pub origin: Option<String>,
    pub namespace: Option<String>,
    pub kind: Option<String>,
    pub id: Option<String>,
}

impl View for Captured {
    type V = (Option<Seq<char>>, Option<Seq<char>>, Option<Seq<char>>, Option<Seq<char>>);

    open spec fn view(&self) -> (Option<Seq<char>>, Option<Seq<char>>, Option<Seq<char>>, Option<Seq<char>>) {
        (opt_view(self.origin), opt_view(self.namespace), opt_view(self.kind), opt_view(self.id))
    }
}

/// Why recognised parts cannot be made of what a pattern captured.
#[derive(Debug, Clone, Copy, PartialEq, Eq, Structural)]
pub enum PartsError {
    /// A required group did not take part in the match.
    MissingGroup,
    /// The `kind` group is none of `data`, `property` and `entity`.
    UnknownKind,
}

/// Option of a string, by its view.
pub open spec fn opt_view(o: Option<String>) -> Option<Seq<char>> {
    match o {
        Some(s) => Some(s@),
        None => None,
    }
}

/// The parts made of the groups `c` (origin, namespace, kind, id) that a pattern captured in
/// a URL, before overrides: the origin is the URL's own under `MatchPath`, the captured one
/// under `MatchAll`.
pub open spec fn spec_parts(
    mode: Mode,
    url_origin: Seq<char>,
    c: (Option<Seq<char>>, Option<Seq<char>>, Option<Seq<char>>, Option<Seq<char>>),
) -> Result<(Seq<char>, Option<Seq<char>>, Kind, Seq<char>), PartsError> {
    let origin = match mode {
        Mode::MatchPath => Some(url_origin),
        Mode::MatchAll => c.0,
    };
    match (origin, c.2, c.3) {
        (Some(o), Some(k), Some(i)) => match Kind::spec_from_word(k) {
            Some(kind) => Ok((o, c.1, kind, i)),
            None => Err(PartsError::UnknownKind),
        },
        _ => Err(PartsError::MissingGroup),
    }
}

/// The parts made of the groups `c`, with the overrides `overrides` applied to the origin.
pub open spec fn spec_made(
    mode: Mode,
    url_origin: Seq<char>,
    c: (Option<Seq<char>>, Option<Seq<char>>, Option<Seq<char>>, Option<Seq<char>>),
    overrides: Seq<Override>,
) -> Result<(Seq<char>, Option<Seq<char>>, Kind, Seq<char>), PartsError> {
    match spec_parts(mode, url_origin, c) {
        Ok((o, ns, k, i)) => Ok((overridden_all(overrides, o), ns, k, i)),
        Err(e) => Err(e),
    }
}

/// Makes the parts of a URL of what a flavor's pattern captured in it, and applies the
/// overrides.
pub fn parts_from_captures(
    mode: Mode,
    url_origin: String,
    captured: Captured,
    overrides: &Vec<Override>,
) -> (r: Result<UrlParts, PartsError>)
    ensures
        match spec_made(mode, url_origin@, captured@, overrides@) {
            Ok(v) => r matches Ok(p) && p@ == v,
            Err(e) => r == Err::<UrlParts, PartsError>(e),
        },
{
    let Captured { origin, namespace, kind, id } = captured;
    let origin = match mode {
        Mode::MatchPath => Some(url_origin),
        Mode::MatchAll => origin,
    };
    let (origin, kind, id) = match (origin, kind, id) {
        (Some(o), Some(k), Some(i)) => (o, k, i),
        _ => {
            return Err(PartsError::MissingGroup);
        },
    };
    let kind = match Kind::from_word(kind.as_str()) {
        Some(k) => k,
        None => {
            return Err(PartsError::UnknownKind);
        },
    };
    let mut parts = UrlParts { origin, namespace, kind, id };
    apply_overrides(overrides, &mut parts);
    Ok(parts)
}

/// The groups of `pattern` compiled by `regex::Regex::new`, as `regex::Regex::capture_names`
/// lists them: one entry per group in order, `None` for a group without a name. `None` where
/// the pattern does not compile.
pub uninterp spec fn pattern_group_names(pattern: Seq<char>) -> Option<Seq<Option<Seq<char>>>>;

/// Whether `pattern`, compiled by `regex::Regex::new`, matches somewhere in `text`, as
/// `regex::Regex::is_match` says; false where the pattern does not compile.
pub uninterp spec fn pattern_finds(pattern: Seq<char>, text: Seq<char>) -> bool;

/// The text of the group named `group` in the leftmost match of `pattern` in `text`, as
/// `regex::Captures::name` gives it; `None` where the group took no part in the match, where
/// nothing matches, or where the pattern does not compile.
pub uninterp spec fn pattern_group(pattern: Seq<char>, text: Seq<char>, group: Seq<char>) -> Option<Seq<char>>;

/// `url::Url::parse` of `text`, the URL taken as its serialization, its path and the ASCII
/// serialization of its origin; `None` where the text is no URL.
pub uninterp spec fn parsed_url(text: Seq<char>) -> Option<(Seq<char>, Seq<char>, Seq<char>)>;

/// The group names, by their views.
pub open spec fn slots_view(v: Seq<Option<String>>) -> Seq<Option<Seq<char>>> {
    v.map_values(|o: Option<String>| opt_view(o))
}

/// `regex::Regex::capture_names` of the pattern compiled by `regex::Regex::new`: each name
/// converted to a `String`. The result is named `pattern_group_names`.
#[verifier::external_body]
fn regex_group_names(pattern: &str) -> (r: Option<Vec<Option<String>>>)
    ensures
        match r {
            Some(v) => pattern_group_names(pattern@) == Some(slots_view(v@)),
            None => pattern_group_names(pattern@) is None,
        },
{
    Regex::new(pattern).ok().map(|re| re.capture_names().map(|n| n.map(|n| n.to_string())).collect())
}

/// `regex::Regex::is_match` of the pattern compiled by `regex::Regex::new` on `text`; `false`
/// where the pattern does not compile. The result is named `pattern_finds`.
#[verifier::external_body]
fn regex_is_match(pattern: &str, text: &str) -> (r: bool)
    ensures
        r == pattern_finds(pattern@, text@),
{
    match Regex::new(pattern) {
        Ok(re) => re.is_match(text),
        Err(_) => false,
    }
}

/// `regex::Captures::name` on the captures of `regex::Regex::captures` of the pattern compiled
/// by `regex::Regex::new` on `text`. The result is named `pattern_group`.
#[verifier::external_body]
fn regex_group(pattern: &str, text: &str, group: &str) -> (r: Option<String>)
    ensures
        opt_view(r) == pattern_group(pattern@, text@, group@),
{
    Regex::new(pattern).ok().and_then(|re| re.captures(text)).and_then(|c| c.name(group).map(|m| m.as_str().to_string()))
}

/// A parsed URL, by the texts that recognition reads: its serialization, its path, and the
/// ASCII serialization of its origin.
#[derive(Debug, Clone)]
pub struct ParsedUrl {
    pub text: String,
    pub path: String,
    pub origin: String,
}

impl View for ParsedUrl {
    type V = (Seq<char>, Seq<char>, Seq<char>);

    open spec fn view(&self) -> (Seq<char>, Seq<char>, Seq<char>) {
        (self.text@, self.path@, self.origin@)
    }
}

/// `url::Url::parse`, the URL converted by `url::Url::as_str`, `url::Url::path` and
/// `url::Origin::ascii_serialization` of `url::Url::origin`. The result is named `parsed_url`.
#[verifier::external_body]
fn url_parse(text: &str) -> (r: Option<ParsedUrl>)
    ensures
        match r {
            Some(u) => parsed_url(text@) == Some(u@),
            None => parsed_url(text@) is None,
        },
{
    Url::parse(text).ok().map(|u| ParsedUrl {
        text: u.as_str().to_string(),
        path: u.path().to_string(),
        origin: u.origin().ascii_serialization(),
    })
}

/// The names among the groups, in order.
pub open spec fn named_only(slots: Seq<Option<Seq<char>>>) -> Seq<Seq<char>>
    decreases slots.len(),
{
    if slots.len() == 0 {
        Seq::empty()
    } else {
        match slots.last() {
            Some(n) => named_only(slots.drop_last()).push(n),
            None => named_only(slots.drop_last()),
        }
    }
}

/// Whether `pattern` compiles and has the named groups that `mode` requires.
pub open spec fn pattern_accepted(mode: Mode, pattern: Seq<char>) -> bool {
    match pattern_group_names(pattern) {
        Some(slots) => mode.spec_has_required(named_only(slots)),
        None => false,
    }
}

impl Mode {
    /// Whether `names` holds every group that a pattern of this mode requires.
    pub open spec fn spec_has_required(self, names: Seq<Seq<char>>) -> bool {
        forall|i: int| 0 <= i < self.spec_required().len() ==> names.contains(#[trigger] self.spec_required()[i])
    }

    /// Whether the pattern compiles and has the named groups that this mode requires; unnamed
    /// groups, the optional `namespace` group and other groups change nothing.
    fn verify_pattern(self, pattern: &str) -> (r: bool)
        ensures
            r == pattern_accepted(self, pattern@),
    {
        let slots = match regex_group_names(pattern) {
            Some(v) => v,
            None => {
                return false;
            },
        };
        let ghost sv = slots_view(slots@);
        let mut names: Vec<String> = Vec::new();
        let mut i: usize = 0;
        while i < slots.len()
            invariant
                i <= slots@.len(),
                sv == slots_view(slots@),
                names@.map_values(|n: String| n@) == named_only(sv.take(i as int)),
            decreases slots@.len() - i,
        {
            assert(sv.take(i + 1).drop_last() =~= sv.take(i as int));
            assert(sv.take(i + 1).last() == opt_view(slots@[i as int]));
            match &slots[i] {
                Some(n) => {
                    names.push(n.clone());
                    assert(names@.map_values(|n: String| n@) =~= named_only(sv.take(i as int)).push(n@));
                },
                None => {},
            }
            i = i + 1;
        }
        assert(sv.take(slots@.len() as int) =~= sv);
        self.has_required_groups(&names)
    }
}

/// A way to recognise type URLs: a pattern with the named groups `kind` and `id`, and
/// optionally `namespace`; under `MatchAll` also `origin`.
pub struct Flavor {
    name: String,
    mode: Mode,
    pattern: String,
}

/// The pattern of the Block Protocol flavor.
pub open spec fn block_protocol_pattern() -> Seq<char> {
    r"/@(?P<namespace>[\w-]+)/types/(?P<kind>data|property|entity)-type/(?P<id>[\w\-_%]+)/"@
}

impl Flavor {
    /// The name of the flavor.
    pub closed spec fn spec_name(self) -> Seq<char> {
        self.name@
    }

    /// What the pattern is matched against.
    pub closed spec fn spec_mode(self) -> Mode {
        self.mode
    }

    /// The text of the pattern.
    pub closed spec fn spec_pattern(self) -> Seq<char> {
        self.pattern@
    }

    /// A flavor of the pattern, which must compile and have the groups that the mode requires.
    pub fn new(name: String, mode: Mode, pattern: String) -> (r: Self)
        requires
            pattern_accepted(mode, pattern@),
        ensures
            r.spec_name() == name@,
            r.spec_mode() == mode,
            r.spec_pattern() == pattern@,
    {
        Self { name, mode, pattern }
    }

    /// A flavor of the pattern; `None` where the pattern does not compile or lacks a group that
    /// the mode requires.
    pub fn checked(name: String, mode: Mode, pattern: String) -> (r: Option<Self>)
        ensures
            r is Some <==> pattern_accepted(mode, pattern@),
            r matches Some(f) ==> f.spec_name() == name@ && f.spec_mode() == mode && f.spec_pattern() == pattern@,
    {
        if !mode.verify_pattern(pattern.as_str()) {
            return None;
        }
        Some(Self::new(name, mode, pattern))
    }

    /// The flavor of the Block Protocol: type URLs whose path reads
    /// `/@<namespace>/types/<kind>-type/<id>/`.
    pub fn block_protocol() -> (r: Self)
        ensures
            r.spec_name() == "block-protocol"@,
            r.spec_mode() == Mode::MatchPath,
            r.spec_pattern() == block_protocol_pattern(),
    {
        Self {
            name: "block-protocol".to_string(),
            mode: Mode::MatchPath,
            pattern: r"/@(?P<namespace>[\w-]+)/types/(?P<kind>data|property|entity)-type/(?P<id>[\w\-_%]+)/".to_string(),
        }
    }

    /// The text that the pattern is matched against: the path of the URL, or all of it.
    pub open spec fn target(self, url: (Seq<char>, Seq<char>, Seq<char>)) -> Seq<char> {
        match self.spec_mode() {
            Mode::MatchPath => url.1,
            Mode::MatchAll => url.0,
        }
    }

    /// The groups (origin, namespace, kind, id) of the match of the pattern in the URL.
    pub open spec fn captured_in(self, url: (Seq<char>, Seq<char>, Seq<char>)) -> (
        Option<Seq<char>>,
        Option<Seq<char>>,
        Option<Seq<char>>,
        Option<Seq<char>>,
    ) {
        let p = self.spec_pattern();
        let t = self.target(url);
        (pattern_group(p, t, "origin"@), pattern_group(p, t, "namespace"@), pattern_group(p, t, "kind"@), pattern_group(p, t, "id"@))
    }

    /// What the flavor makes of the URL: nothing where its pattern does not match the URL,
    /// else the parts, or the error, made of the groups it captured, with the overrides applied.
    pub open spec fn spec_recognise(self, url: (Seq<char>, Seq<char>, Seq<char>), overrides: Seq<Override>) -> Option<
        Result<(Seq<char>, Option<Seq<char>>, Kind, Seq<char>), PartsError>,
    > {
        if pattern_finds(self.spec_pattern(), self.target(url)) {
            Some(spec_made(self.spec_mode(), url.2, self.captured_in(url), overrides))
        } else {
            None
        }
    }

    /// The parts of the URL, where this flavor recognises it.
    fn recognise(&self, url: &ParsedUrl, overrides: &Vec<Override>) -> (r: Option<Result<UrlParts, PartsError>>)
        ensures
            match self.spec_recognise(url@, overrides@) {
                None => r is None,
                Some(Ok(v)) => r matches Some(Ok(p)) && p@ == v,
                Some(Err(e)) => r == Some(Err::<UrlParts, PartsError>(e)),
            },
    {
        let target = match self.mode {
            Mode::MatchPath => url.path.as_str(),
            Mode::MatchAll => url.text.as_str(),
        };
        if !regex_is_match(self.pattern.as_str(), target) {
            return None;
        }
        let url_origin = match self.mode {
            Mode::MatchPath => url.origin.clone(),
            Mode::MatchAll => String::new(),
        };
        let pattern = self.pattern.as_str();
        let captured = Captured {
            origin: regex_group(pattern, target, "origin"),
            namespace: regex_group(pattern, target, "namespace"),
            kind: regex_group(pattern, target, "kind"),
            id: regex_group(pattern, target, "id"),
        };
        assert(captured@ == self.captured_in(url@));
        Some(parts_from_captures(self.mode, url_origin, captured, overrides))
    }
}

/// A known type: its URL and its title.
#[derive(Debug, Clone)]
pub struct TypeEntry {
    pub url: VersionedUrl,
    pub title: String,
}

/// The versions of the other entries with the same base URL as `url`, in the order of the
/// entries.
pub open spec fn other_versions(entries: Seq<TypeEntry>, url: (Seq<char>, u32)) -> Seq<u32>
    decreases entries.len(),
{
    if entries.len() == 0 {
        Seq::empty()
    } else {
        let rest = other_versions(entries.drop_last(), url);
        let e = entries.last().url@;
        if e.0 == url.0 && e.1 != url.1 {
            rest.push(e.1)
        } else {
            rest
        }
    }
}

/// The greatest of the versions, `None` for none.
pub open spec fn latest(vs: Seq<u32>) -> Option<u32>
    decreases vs.len(),
{
    if vs.len() == 0 {
        None
    } else {
        match latest(vs.drop_last()) {
            Some(v) => Some(if v >= vs.last() { v } else { vs.last() }),
            None => Some(vs.last()),
        }
    }
}

/// The title of the first entry for `url`.
pub open spec fn title_of(entries: Seq<TypeEntry>, url: (Seq<char>, u32)) -> Option<Seq<char>>
    decreases entries.len(),
{
    if entries.len() == 0 {
        None
    } else if entries[0].url@ == url {
        Some(entries[0].title@)
    } else {
        title_of(entries.drop_first(), url)
    }
}

/// The name and alias of a type whose base name is `base`: where a newer version exists, the
/// name carries its version and there is no alias; else the alias is the versioned name.
pub open spec fn spec_name(base: Seq<char>, version: u32, newest_other: Option<u32>) -> (Seq<char>, Option<Seq<char>>) {
    match newest_other {
        Some(l) => if l > version {
            (versioned(base, version), None)
        } else {
            (base, Some(versioned(base, version)))
        },
        None => (base, Some(versioned(base, version))),
    }
}

/// The module path of a type before versions are taken into account: the snake case of the
/// URL where it was not recognised, else origin, namespace and kind as directories and the id
/// as file.
pub open spec fn spec_base_path(
    parts: Option<(Seq<char>, Option<Seq<char>>, Kind, Seq<char>)>,
    url_text: Seq<char>,
) -> (Seq<Seq<char>>, Seq<char>) {
    match parts {
        None => (Seq::empty(), snake_case(url_text)),
        Some((origin, namespace, kind, id)) => {
            let dirs = seq![snake_case(origin)];
            let dirs = match namespace {
                Some(ns) => dirs.push(snake_case(ns)),
                None => dirs,
            };
            (dirs.push(kind.spec_word()), snake_case(id))
        },
    }
}

/// The module path once versions are taken into account: an older version goes to a `v<N>`
/// file in a directory of the type's file; the newest goes to that directory's `mod` file
/// under `ModRs`, and stays where it is under `ModuleRs`; a lone version stays too.
pub open spec fn spec_placed(
    path: (Seq<Seq<char>>, Seq<char>),
    version: u32,
    newest_other: Option<u32>,
    module: ModuleFlavor,
) -> (Seq<Seq<char>>, Seq<char>) {
    match newest_other {
        Some(l) => if l > version {
            (path.0.push(path.1), version_file(version))
        } else {
            match module {
                ModuleFlavor::ModRs => (path.0.push(path.1), "mod"@),
                ModuleFlavor::ModuleRs => path,
            }
        },
        None => path,
    }
}

/// The newest of the versions, `None` for none.
fn newest(vs: &Vec<u32>) -> (r: Option<u32>)
    ensures
        r == latest(vs@),
{
    let mut best: Option<u32> = None;
    let mut i: usize = 0;
    while i < vs.len()
        invariant
            i <= vs@.len(),
            best == latest(vs@.take(i as int)),
        decreases vs@.len() - i,
    {
        assert(vs@.take(i + 1).drop_last() =~= vs@.take(i as int));
        let v = vs[i];
        best = match best {
            Some(b) => Some(if b >= v { b } else { v }),
            None => Some(v),
        };
        i = i + 1;
    }
    assert(vs@.take(vs@.len() as int) =~= vs@);
    best
}

/// What the first of the flavors whose pattern matches the parsed URL makes of it; `None`
/// where none matches.
pub open spec fn first_recognition(
    flavors: Seq<Flavor>,
    overrides: Seq<Override>,
    url: (Seq<char>, Seq<char>, Seq<char>),
) -> Option<Result<(Seq<char>, Option<Seq<char>>, Kind, Seq<char>), PartsError>>
    decreases flavors.len(),
{
    if flavors.len() == 0 {
        None
    } else {
        match flavors[0].spec_recognise(url, overrides) {
            Some(r) => Some(r),
            None => first_recognition(flavors.drop_first(), overrides, url),
        }
    }
}

/// Resolves the module paths and names of generated types from their URLs.
pub struct NameResolver {
    lookup: Vec<TypeEntry>,
    overrides: Vec<Override>,
    module: ModuleFlavor,
    builtin: Flavor,
    flavors: Vec<Flavor>,
}

impl NameResolver {
    /// The known types.
    pub closed spec fn entries(self) -> Seq<TypeEntry> {
        self.lookup@
    }

    /// The overrides, in the order in which they apply.
    pub closed spec fn overrides(self) -> Seq<Override> {
        self.overrides@
    }

    /// Where the newest version of a type goes.
    pub closed spec fn module(self) -> ModuleFlavor {
        self.module
    }

    /// The flavors of the user, after the built-in one.
    pub closed spec fn flavors(self) -> Seq<Flavor> {
        self.flavors@
    }

    /// The built-in flavor.
    pub closed spec fn builtin(self) -> Flavor {
        self.builtin
    }

    /// The flavors in the order in which they are tried: the built-in one first.
    pub open spec fn tried(self) -> Seq<Flavor> {
        seq![self.builtin()] + self.flavors()
    }

    /// What the flavors make of a parsed URL: what the first one whose pattern matches makes
    /// of it; `None` where none matches.
    pub open spec fn spec_url_parts(self, url: (Seq<char>, Seq<char>, Seq<char>)) -> Option<
        Result<(Seq<char>, Option<Seq<char>>, Kind, Seq<char>), PartsError>,
    > {
        first_recognition(self.tried(), self.overrides(), url)
    }

    /// The parts of the base URL of a type and the text of that URL: the URL parsed and read by
    /// the flavors; no parts, and the base URL as it is, where it does not parse.
    pub open spec fn spec_parts_of(self, base_url: Seq<char>) -> Result<
        (Option<(Seq<char>, Option<Seq<char>>, Kind, Seq<char>)>, Seq<char>),
        PartsError,
    > {
        match parsed_url(base_url) {
            None => Ok((None, base_url)),
            Some(u) => match self.spec_url_parts(u) {
                None => Ok((None, u.0)),
                Some(Ok(p)) => Ok((Some(p), u.0)),
                Some(Err(e)) => Err(e),
            },
        }
    }

    /// Whether `r` is the location of the type with URL `url`: `None` where a flavor's groups
    /// make no parts, or where the URL is not recognised and the type is not known; else the
    /// location for the parts and the text of the URL.
    pub open spec fn location_fits(self, url: (Seq<char>, u32), base_url: Seq<char>, r: Option<Location>) -> bool {
        match self.spec_parts_of(base_url) {
            Err(_) => r is None,
            Ok((parts, text)) => match self.spec_base_name(url, parts) {
                Some(_) => r matches Some(loc) && self.fits_location(url, parts, text, loc),
                None => r is None,
            },
        }
    }

    /// Whether `r` is the name of the type with URL `url`: `None` where a flavor's groups make
    /// no parts, or where the URL is not recognised and the type is not known; else the name
    /// for the parts of the URL.
    pub open spec fn name_fits(self, url: (Seq<char>, u32), base_url: Seq<char>, r: Option<Name>) -> bool {
        match self.spec_parts_of(base_url) {
            Err(_) => r is None,
            Ok((parts, _)) => match self.spec_base_name(url, parts) {
                Some(base) => r matches Some(n) && n@ == spec_name(base, url.1, self.spec_newest_other(url)),
                None => r is None,
            },
        }
    }

    /// The base name of a type: the upper camel case of its id where its URL was recognised,
    /// else of its title; `None` where the type is unknown.
    pub open spec fn spec_base_name(
        self,
        url: (Seq<char>, u32),
        parts: Option<(Seq<char>, Option<Seq<char>>, Kind, Seq<char>)>,
    ) -> Option<Seq<char>> {
        match parts {
            Some(p) => Some(pascal_case(p.3)),
            None => match title_of(self.entries(), url) {
                Some(t) => Some(pascal_case(t)),
                None => None,
            },
        }
    }

    /// The newest version of the other types with the same base URL.
    pub open spec fn spec_newest_other(self, url: (Seq<char>, u32)) -> Option<u32> {
        latest(other_versions(self.entries(), url))
    }

    /// A resolver of the known types, with the built-in flavor, and without overrides or
    /// flavors of the user.
    pub fn new(lookup: Vec<TypeEntry>) -> (r: Self)
        ensures
            r.entries() == lookup@,
            r.overrides() == Seq::<Override>::empty(),
            r.module() == ModuleFlavor::ModRs,
            r.flavors() == Seq::<Flavor>::empty(),
            r.builtin().spec_name() == "block-protocol"@,
            r.builtin().spec_mode() == Mode::MatchPath,
            r.builtin().spec_pattern() == block_protocol_pattern(),
    {
        Self {
            lookup,
            overrides: Vec::new(),
            module: ModuleFlavor::ModRs,
            builtin: Flavor::block_protocol(),
            flavors: Vec::new(),
        }
    }

    /// Adds an override, applied after the earlier ones.
    pub fn with_override(&mut self, value: Override)
        ensures
            final(self).entries() == old(self).entries(),
            final(self).overrides() == old(self).overrides().push(value),
            final(self).module() == old(self).module(),
            final(self).flavors() == old(self).flavors(),
            final(self).builtin() == old(self).builtin(),
    {
        self.overrides.push(value);
    }

    /// Sets where the newest version of a type goes.
    pub fn with_module_flavor(&mut self, flavor: ModuleFlavor)
        ensures
            final(self).entries() == old(self).entries(),
            final(self).overrides() == old(self).overrides(),
            final(self).module() == flavor,
            final(self).flavors() == old(self).flavors(),
            final(self).builtin() == old(self).builtin(),
    {
        self.module = flavor;
    }

    /// Adds a flavor, tried after the earlier ones.
    pub fn with_flavor(&mut self, flavor: Flavor)
        ensures
            final(self).entries() == old(self).entries(),
            final(self).overrides() == old(self).overrides(),
            final(self).module() == old(self).module(),
            final(self).flavors() == old(self).flavors().push(flavor),
            final(self).builtin() == old(self).builtin(),
    {
        self.flavors.push(flavor);
    }

    /// The versions of the other known types with the same base URL as `url`.
    pub fn other_versions_of_url(&self, url: &VersionedUrl) -> (r: Vec<u32>)
        ensures
            r@ == other_versions(self.entries(), url@),
    {
        let mut r: Vec<u32> = Vec::new();
        let mut i: usize = 0;
        while i < self.lookup.len()
            invariant
                i <= self.lookup@.len(),
                r@ == other_versions(self.lookup@.take(i as int), url@),
            decreases self.lookup@.len() - i,
        {
            assert(self.lookup@.take(i + 1).drop_last() =~= self.lookup@.take(i as int));
            let e = &self.lookup[i].url;
            if e.version != url.version && crate::url::str_equal(e.base_url.as_str(), url.base_url.as_str()) {
                r.push(e.version);
            }
            i = i + 1;
        }
        assert(self.lookup@.take(self.lookup@.len() as int) =~= self.lookup@);
        r
    }

    /// The title of the first known type with URL `url`.
    fn title(&self, url: &VersionedUrl) -> (r: Option<&String>)
        ensures
            match r {
                Some(t) => title_of(self.entries(), url@) == Some(t@),
                None => title_of(self.entries(), url@) is None,
            },
    {
        let mut i: usize = 0;
        assert(self.lookup@.skip(0) =~= self.lookup@);
        while i < self.lookup.len()
            invariant
                i <= self.lookup@.len(),
                title_of(self.lookup@, url@) == title_of(self.lookup@.skip(i as int), url@),
            decreases self.lookup@.len() - i,
        {
            assert(self.lookup@.skip(i as int)[0] == self.lookup@[i as int]);
            assert(self.lookup@.skip(i as int).drop_first() =~= self.lookup@.skip(i + 1));
            let e = &self.lookup[i];
            if e.url.version == url.version && crate::url::str_equal(e.url.base_url.as_str(), url.base_url.as_str()) {
                return Some(&e.title);
            }
            i = i + 1;
        }
        None
    }

    /// The name of a type, given the newest version of the other types with its base URL, and
    /// the parts of its URL where it was recognised; where it was not, the type must be known.
    pub fn determine_name(&self, url: &VersionedUrl, parts: Option<&UrlParts>, newest_other: Option<u32>) -> (r: Name)
        requires
            parts is Some || title_of(self.entries(), url@) is Some,
        ensures
            r@ == spec_name(self.spec_base_name(url@, opt_parts_view(parts))->Some_0, url.version, newest_other),
    {
        let base = match parts {
            Some(p) => to_pascal_case(p.id.as_str()),
            None => to_pascal_case(self.title(url).unwrap().as_str()),
        };
        // the newest version also gets a versioned alias
        let versioned_base = versioned_name(&base, url.version);
        let name = match newest_other {
            // an older version: the name carries the version, so that it is unambiguous, and it
            // is its own alias
            Some(other) => if other > url.version {
                Name { name: versioned_base, alias: None }
            } else {
                Name { name: base, alias: Some(versioned_base) }
            },
            None => Name { name: base, alias: Some(versioned_base) },
        };
        name
    }

    /// The name of a type, given the parts of its URL where it was recognised; where it was
    /// not, the type must be known.
    pub fn name_with_parts(&self, url: &VersionedUrl, parts: Option<&UrlParts>) -> (r: Name)
        requires
            parts is Some || title_of(self.entries(), url@) is Some,
        ensures
            r@ == spec_name(
                self.spec_base_name(url@, opt_parts_view(parts))->Some_0,
                url.version,
                self.spec_newest_other(url@),
            ),
    {
        let versions = self.other_versions_of_url(url);
        let newest_other = newest(&versions);
        self.determine_name(url, parts, newest_other)
    }

    /// Where a type lives and what it is called, given the parts of its URL where it was
    /// recognised, and the text of its URL for where it was not.
    pub fn location_with_parts(&self, url: &VersionedUrl, parts: Option<&UrlParts>, url_text: &str) -> (r: Location)
        requires
            parts is Some || title_of(self.entries(), url@) is Some,
        ensures
            self.fits_location(url@, opt_parts_view(parts), url_text@, r),
    {
        let versions = self.other_versions_of_url(url);
        let newest_other = newest(&versions);
        let ghost parts_value = opt_parts_view(parts);

        let (mut dirs, file) = match parts {
            // the URL was not recognised: the file is the snake case of the URL
            None => (Vec::new(), to_snek_case(url_text)),
            Some(p) => {
                let mut dirs = vec![Directory(to_snek_case(p.origin.as_str()))];
                if let Some(ns) = &p.namespace {
                    dirs.push(Directory(to_snek_case(ns.as_str())));
                }
                dirs.push(Directory(p.kind.as_str().to_string()));
                (dirs, File(to_snek_case(p.id.as_str())).0)
            },
        };
        let ghost base_dirs = dirs@.map_values(|d: Directory| d.0@);
        assert(base_dirs == spec_base_path(parts_value, url_text@).0) by {
            if let Some((origin, namespace, kind, _)) = parts_value {
                if let Some(ns) = namespace {
                    assert(base_dirs =~= seq![snake_case(origin)].push(snake_case(ns)).push(kind.spec_word()));
                } else {
                    assert(base_dirs =~= seq![snake_case(origin)].push(kind.spec_word()));
                }
            } else {
                assert(base_dirs =~= Seq::<Seq<char>>::empty());
            }
        }

        let name = self.determine_name(url, parts, newest_other);

        // the newest version goes to `mod.rs` or `module.rs`, older ones to `v<N>` files
        let file = match newest_other {
            Some(other) => if other > url.version {
                dirs.push(Directory(file));
                version_file_name(url.version)
            } else {
                match self.module {
                    ModuleFlavor::ModRs => {
                        dirs.push(Directory(file));
                        proof {
                            reveal_strlit("mod");
                        }
                        "mod".to_string()
                    },
                    ModuleFlavor::ModuleRs => file,
                }
            },
            None => file,
        };
        let path = Path(dirs, File(file));
        proof {
            let placed = spec_placed(spec_base_path(parts_value, url_text@), url.version, newest_other, self.module);
            assert(path@.0 =~= placed.0);
        }
        Location { path, name, alias: None }
    }

    /// The parts of a URL: those that the first flavor that matches it recognises, the
    /// built-in one first, with the overrides applied; `None` where no flavor matches; an
    /// error where the groups that the flavor captured make no parts.
    pub fn url_into_parts(&self, url: &ParsedUrl) -> (r: Result<Option<UrlParts>, PartsError>)
        ensures
            match self.spec_url_parts(url@) {
                None => r == Ok::<Option<UrlParts>, PartsError>(None),
                Some(Ok(v)) => r matches Ok(Some(p)) && p@ == v,
                Some(Err(e)) => r == Err::<Option<UrlParts>, PartsError>(e),
            },
    {
        proof {
            assert(self.tried()[0] == self.builtin());
            assert(self.tried().drop_first() =~= self.flavors@.skip(0));
        }
        match self.builtin.recognise(url, &self.overrides) {
            Some(Ok(p)) => {
                return Ok(Some(p));
            },
            Some(Err(e)) => {
                return Err(e);
            },
            None => {},
        }
        let mut i: usize = 0;
        while i < self.flavors.len()
            invariant
                i <= self.flavors@.len(),
                self.spec_url_parts(url@) == first_recognition(self.flavors@.skip(i as int), self.overrides@, url@),
            decreases self.flavors@.len() - i,
        {
            proof {
                assert(self.flavors@.skip(i as int)[0] == self.flavors@[i as int]);
                assert(self.flavors@.skip(i as int).drop_first() =~= self.flavors@.skip(i + 1));
            }
            match self.flavors[i].recognise(url, &self.overrides) {
                Some(Ok(p)) => {
                    return Ok(Some(p));
                },
                Some(Err(e)) => {
                    return Err(e);
                },
                None => {},
            }
            i = i + 1;
        }
        proof {
            assert(self.flavors@.skip(i as int).len() == 0);
        }
        Ok(None)
    }

    /// The parts of the base URL of `url`, and the text of that URL; no parts where the base
    /// URL does not parse, and then its text as it is.
    fn parts_of(&self, url: &VersionedUrl) -> (r: Result<(Option<UrlParts>, String), PartsError>)
        ensures
            match self.spec_parts_of(url.base_url@) {
                Ok((parts, text)) => r matches Ok((p, t)) && owned_parts_view(p) == parts && t@ == text,
                Err(e) => r == Err::<(Option<UrlParts>, String), PartsError>(e),
            },
    {
        match url_parse(url.base_url.as_str()) {
            Some(parsed) => {
                match self.url_into_parts(&parsed) {
                    Ok(parts) => Ok((parts, parsed.text)),
                    Err(e) => Err(e),
                }
            },
            None => Ok((None, url.base_url.clone())),
        }
    }

    /// Where a type lives and what it is called: the location for the parts that the flavors
    /// recognise in its base URL; `None` where the groups that a flavor captured make no parts,
    /// or where its URL was not recognised and the type is not known.
    pub fn location(&self, url: &VersionedUrl) -> (r: Option<Location>)
        ensures
            self.location_fits(url@, url.base_url@, r),
    {
        let (parts, text) = match self.parts_of(url) {
            Ok(found) => found,
            Err(_) => {
                return None;
            },
        };
        if parts.is_none() && self.title(url).is_none() {
            return None;
        }
        Some(self.location_with_parts(url, parts.as_ref(), text.as_str()))
    }

    /// The name of a type: the name for the parts that the flavors recognise in its base URL;
    /// `None` where the groups that a flavor captured make no parts, or where its URL was not
    /// recognised and the type is not known.
    pub fn name(&self, url: &VersionedUrl) -> (r: Option<Name>)
        ensures
            self.name_fits(url@, url.base_url@, r),
    {
        let (parts, _text) = match self.parts_of(url) {
            Ok(found) => found,
            Err(_) => {
                return None;
            },
        };
        if parts.is_none() && self.title(url).is_none() {
            return None;
        }
        Some(self.name_with_parts(url, parts.as_ref()))
    }

    /// Whether `loc` is the location of a type for the parts `parts` of its URL and the text
    /// `text` of that URL.
    pub open spec fn fits_location(
        self,
        url: (Seq<char>, u32),
        parts: Option<(Seq<char>, Option<Seq<char>>, Kind, Seq<char>)>,
        text: Seq<char>,
        loc: Location,
    ) -> bool {
        &&& self.spec_base_name(url, parts) matches Some(base)
        &&& loc.name@ == spec_name(base, url.1, self.spec_newest_other(url))
        &&& loc.path@ == spec_placed(spec_base_path(parts, text), url.1, self.spec_newest_other(url), self.module())
        &&& loc.alias is None
    }
}

/// `name` and `location` agree: for the same type, both give a result or neither does, and the
/// name is the name of the location.
pub proof fn law_name_of_location(
    resolver: NameResolver,
    url: (Seq<char>, u32),
    base_url: Seq<char>,
    loc: Option<Location>,
    name: Option<Name>,
)
    requires
        resolver.location_fits(url, base_url, loc),
        resolver.name_fits(url, base_url, name),
    ensures
        loc is Some <==> name is Some,
        loc matches Some(l) ==> name matches Some(n) && l.name@ == n@,
{
}

/// The versioned name of a type is exported once: as its name, where a newer version exists,
/// and then there is no alias; else as its alias.
pub proof fn law_versioned_name_once(base: Seq<char>, version: u32, newest_other: Option<u32>)
    ensures
        ({
            let (name, alias) = spec_name(base, version, newest_other);
            &&& alias is None ==> name == versioned(base, version)
            &&& alias is Some ==> alias == Some(versioned(base, version)) && name == base
        }),
{
}

proof fn lemma_decimal_len(v: nat)
    ensures
        decimal(v).len() >= 1,
        v >= 10 ==> decimal(v).len() >= 2,
    decreases v,
{
    if v >= 10 {
        lemma_decimal_len(v / 10);
    }
}

/// Different numbers have different decimal notations.
pub proof fn law_decimal_injective(a: nat, b: nat)
    requires
        a != b,
    ensures
        decimal(a) != decimal(b),
    decreases a,
{
    lemma_decimal_len(a);
    lemma_decimal_len(b);
    if a >= 10 && b >= 10 {
        let da = decimal(a);
        let db = decimal(b);
        if da == db {
            assert(da.last() == digit_char(a % 10));
            assert(db.last() == digit_char(b % 10));
            assert(a % 10 == b % 10);
            assert(da.drop_last() =~= decimal(a / 10));
            assert(db.drop_last() =~= decimal(b / 10));
            law_decimal_injective(a / 10, b / 10);
        }
    } else if a < 10 && b < 10 {
        assert(decimal(a)[0] == digit_char(a));
        assert(decimal(b)[0] == digit_char(b));
    }
}

/// Under `ModRs`, the versions of a type share a directory: an older one has a `v<N>` file
/// of its own there, the newest the `mod` file.
pub proof fn law_versions_share_directory(
    path: (Seq<Seq<char>>, Seq<char>),
    older: u32,
    newer_than_older: u32,
    newest: u32,
    older_than_newest: u32,
)
    requires
        newer_than_older > older,
        older_than_newest < newest,
    ensures
        spec_placed(path, older, Some(newer_than_older), ModuleFlavor::ModRs).0
            == spec_placed(path, newest, Some(older_than_newest), ModuleFlavor::ModRs).0,
        spec_placed(path, older, Some(newer_than_older), ModuleFlavor::ModRs).1 == version_file(older),
        spec_placed(path, newest, Some(older_than_newest), ModuleFlavor::ModRs).1 == "mod"@,
        version_file(older) != "mod"@,
{
    reveal_strlit("mod");
    assert(version_file(older)[0] == 'v');
    assert("mod"@[0] == 'm');
}

/// Two older versions of a type go to different files.
pub proof fn law_older_versions_apart(
    path: (Seq<Seq<char>>, Seq<char>),
    a: u32,
    b: u32,
    newest: u32,
    module: ModuleFlavor,
)
    requires
        a != b,
        newest > a,
        newest > b,
    ensures
        spec_placed(path, a, Some(newest), module) != spec_placed(path, b, Some(newest), module),
{
    law_decimal_injective(a as nat, b as nat);
    if version_file(a) == version_file(b) {
        assert(version_file(a).drop_first() =~= decimal(a as nat));
        assert(version_file(b).drop_first() =~= decimal(b as nat));
    }
}

/// The newest of a list of versions is the greatest of them, whatever their order: it is one
/// of them and no version of the list is greater; there is none only for no versions.
pub proof fn law_latest_is_greatest(vs: Seq<u32>)
    ensures
        latest(vs) is None <==> vs.len() == 0,
        latest(vs) matches Some(m) ==> vs.contains(m) && forall|i: int| 0 <= i < vs.len() ==> #[trigger] vs[i] <= m,
    decreases vs.len(),
{
    if vs.len() > 0 {
        let rest = vs.drop_last();
        law_latest_is_greatest(rest);
        let m = latest(vs)->Some_0;
        assert forall|i: int| 0 <= i < vs.len() implies #[trigger] vs[i] <= m by {
            if i < vs.len() - 1 {
                assert(rest[i] == vs[i]);
            }
        }
        if let Some(r) = latest(rest) {
            if r >= vs.last() {
                let j = choose|j: int| 0 <= j < rest.len() && rest[j] == r;
                assert(vs[j] == r);
            } else {
                assert(vs[vs.len() - 1] == vs.last());
            }
        } else {
            assert(vs[vs.len() - 1] == vs.last());
        }
    }
}

proof fn lemma_other_versions_contains(entries: Seq<TypeEntry>, url: (Seq<char>, u32), k: int)
    requires
        0 <= k < entries.len(),
        entries[k].url@.0 == url.0,
        entries[k].url@.1 != url.1,
    ensures
        other_versions(entries, url).contains(entries[k].url@.1),
    decreases entries.len(),
{
    let rest = other_versions(entries.drop_last(), url);
    if k == entries.len() - 1 {
        assert(rest.push(entries[k].url@.1)[rest.len() as int] == entries[k].url@.1);
    } else {
        assert(entries.drop_last()[k] == entries[k]);
        lemma_other_versions_contains(entries.drop_last(), url, k);
        let j = choose|j: int| 0 <= j < rest.len() && rest[j] == entries[k].url@.1;
        let e = entries.last().url@;
        if e.0 == url.0 && e.1 != url.1 {
            assert(rest.push(e.1)[j] == entries[k].url@.1);
        }
    }
}

/// A type of which a newer version is known, in whatever order the entries come, is an older
/// version: its name carries its version and it has no alias.
pub proof fn law_newer_entry_makes_older(resolver: NameResolver, url: (Seq<char>, u32), k: int, base: Seq<char>)
    requires
        0 <= k < resolver.entries().len(),
        resolver.entries()[k].url@.0 == url.0,
        resolver.entries()[k].url@.1 > url.1,
    ensures
        resolver.spec_newest_other(url) matches Some(l) && l > url.1,
        spec_name(base, url.1, resolver.spec_newest_other(url)) == (versioned(base, url.1), Option::<Seq<char>>::None),
{
    let vs = other_versions(resolver.entries(), url);
    lemma_other_versions_contains(resolver.entries(), url, k);
    law_latest_is_greatest(vs);
    let j = choose|j: int| 0 <= j < vs.len() && vs[j] == resolver.entries()[k].url@.1;
    assert(vs[j] <= latest(vs)->Some_0);
}

/// The older versions of two different types never share a path, under either module flavor.
pub proof fn law_older_versions_of_types_apart(
    a: (Seq<Seq<char>>, Seq<char>),
    b: (Seq<Seq<char>>, Seq<char>),
    va: u32,
    vb: u32,
    la: u32,
    lb: u32,
    module: ModuleFlavor,
)
    requires
        a != b,
        la > va,
        lb > vb,
    ensures
        spec_placed(a, va, Some(la), module) != spec_placed(b, vb, Some(lb), module),
{
    let pa = spec_placed(a, va, Some(la), module);
    let pb = spec_placed(b, vb, Some(lb), module);
    if pa == pb {
        assert(pa.0.drop_last() =~= a.0);
        assert(pb.0.drop_last() =~= b.0);
        assert(pa.0.last() == a.1);
        assert(pb.0.last() == b.1);
        assert(a.0 == b.0 && a.1 == b.1);
    }
}

/// Under `ModuleRs` the older versions of a type lie in the directory named after the file of
/// its newest version, beside which they are kept, each in a `v<N>` file.
pub proof fn law_older_versions_beside_module(
    path: (Seq<Seq<char>>, Seq<char>),
    older: u32,
    newer_than_older: u32,
    newest: u32,
    newest_other: Option<u32>,
)
    requires
        newer_than_older > older,
        newest_other matches Some(l) ==> l <= newest,
    ensures
        spec_placed(path, older, Some(newer_than_older), ModuleFlavor::ModuleRs).0 == spec_placed(
            path,
            newest,
            newest_other,
            ModuleFlavor::ModuleRs,
        ).0.push(spec_placed(path, newest, newest_other, ModuleFlavor::ModuleRs).1),
        spec_placed(path, older, Some(newer_than_older), ModuleFlavor::ModuleRs).1 == version_file(older),
{
}

/// What the flavors make of a list of flavors followed by more flavors: what the first list
/// makes, where it makes anything; else what the second makes.
proof fn lemma_first_recognition_append(
    a: Seq<Flavor>,
    b: Seq<Flavor>,
    overrides: Seq<Override>,
    url: (Seq<char>, Seq<char>, Seq<char>),
)
    ensures
        first_recognition(a + b, overrides, url) == match first_recognition(a, overrides, url) {
            Some(x) => Some(x),
            None => first_recognition(b, overrides, url),
        },
    decreases a.len(),
{
    if a.len() > 0 {
        assert((a + b)[0] == a[0]);
        assert((a + b).drop_first() =~= a.drop_first() + b);
        lemma_first_recognition_append(a.drop_first(), b, overrides, url);
    } else {
        assert(a + b =~= b);
    }
}

/// The built-in flavor is tried first: where it recognises a URL, its result is the result,
/// whatever flavors the user added.
pub proof fn law_builtin_flavor_first(resolver: NameResolver, url: (Seq<char>, Seq<char>, Seq<char>))
    requires
        resolver.builtin().spec_recognise(url, resolver.overrides()) is Some,
    ensures
        resolver.spec_url_parts(url) == resolver.builtin().spec_recognise(url, resolver.overrides()),
{
    assert(resolver.tried()[0] == resolver.builtin());
}

/// A flavor added later changes nothing where the flavors tried before it already recognise
/// the URL.
pub proof fn law_added_flavor_comes_last(
    before: NameResolver,
    after: NameResolver,
    flavor: Flavor,
    url: (Seq<char>, Seq<char>, Seq<char>),
)
    requires
        after.builtin() == before.builtin(),
        after.overrides() == before.overrides(),
        after.flavors() == before.flavors().push(flavor),
        before.spec_url_parts(url) is Some,
    ensures
        after.spec_url_parts(url) == before.spec_url_parts(url),
{
    assert(after.tried() =~= before.tried() + seq![flavor]);
    lemma_first_recognition_append(before.tried(), seq![flavor], before.overrides(), url);
}

/// A pattern is accepted exactly where it compiles and its named groups include `kind` and
/// `id`, and under `MatchAll` also `origin`; other groups change nothing.
pub proof fn law_required_groups(mode: Mode, pattern: Seq<char>)
    ensures
        pattern_accepted(mode, pattern) <==> (pattern_group_names(pattern) matches Some(slots) && {
            let names = named_only(slots);
            &&& names.contains("kind"@)
            &&& names.contains("id"@)
            &&& mode == Mode::MatchAll ==> names.contains("origin"@)
        }),
{
    if let Some(slots) = pattern_group_names(pattern) {
        let names = named_only(slots);
        let req = mode.spec_required();
        match mode {
            Mode::MatchPath => {
                assert(req[0] == "kind"@);
                assert(req[1] == "id"@);
            },
            Mode::MatchAll => {
                assert(req[0] == "origin"@);
                assert(req[1] == "kind"@);
                assert(req[2] == "id"@);
            },
        }
    }
}

} // verus!
