use vstd::prelude::*;

verus! {

/// Two strings hold the same characters.
pub(crate) fn str_equal(a: &str, b: &str) -> (r: bool)
    ensures
        r == (a@ == b@),
{
    let x = a.to_string();
    let y = b.to_string();
    proof {
        broadcast use vstd::string::to_string_from_display_ensures_for_str;
    }
    x == y
}

/// A borrowed base URL of a type, such as `https://example.com/@alice/types/data-type/text/`.
#[derive(Debug, Copy, Clone)]
pub struct BaseUrlRef<'a>(&'a str);

impl<'a> View for BaseUrlRef<'a> {
    type V = Seq<char>;

    /// The characters of the URL.
    closed spec fn view(&self) -> Seq<char> {
        self.0@
    }
}

impl<'a> BaseUrlRef<'a> {
    /// Wraps a string without checking that it is a valid base URL.
    pub fn new_unchecked(url: &'a str) -> (r: Self)
        ensures
            r@ == url@,
    {
        Self(url)
    }

    pub fn as_str(&self) -> (r: &'a str)
        ensures
            r@ == self@,
    {
        self.0
    }
}

} // verus!

verus! {

/// A borrowed, versioned URL of a type: a base URL and a version number.
#[derive(Debug, Copy, Clone)]
pub struct VersionedUrlRef<'a> {
    base: BaseUrlRef<'a>,
    version: u32,
}

impl<'a> View for VersionedUrlRef<'a> {
    type V = (Seq<char>, u32);

    closed spec fn view(&self) -> (Seq<char>, u32) {
        (self.base@, self.version)
    }
}

impl<'a> VersionedUrlRef<'a> {
    /// Pairs a base URL with a version without checking the URL.
    pub fn new_unchecked(base: BaseUrlRef<'a>, version: u32) -> (r: Self)
        ensures
            r@ == (base@, version),
    {
        Self { base, version }
    }

    pub fn base(&self) -> (r: BaseUrlRef<'a>)
        ensures
            r@ == self@.0,
    {
        self.base
    }

    pub fn version(&self) -> (r: u32)
        ensures
            r == self@.1,
    {
        self.version
    }
}

/// An owned, versioned URL of a type.
#[derive(Debug, Clone)]
pub struct VersionedUrl {
    pub base_url: String,
    pub version: u32,
}

impl View for VersionedUrl {
    type V = (Seq<char>, u32);

    open spec fn view(&self) -> (Seq<char>, u32) {
        (self.base_url@, self.version)
    }
}

impl VersionedUrl {
    /// Borrows this URL as a reference.
    pub fn as_ref(&self) -> (r: VersionedUrlRef<'_>)
        ensures
            r@ == self@,
    {
        VersionedUrlRef { base: BaseUrlRef(self.base_url.as_str()), version: self.version }
    }
}

impl<'a> PartialEq<VersionedUrl> for VersionedUrlRef<'a> {
    fn eq(&self, other: &VersionedUrl) -> (r: bool) {
        self.version == other.version && str_equal(self.base.0, other.base_url.as_str())
    }
}

impl<'a> vstd::std_specs::cmp::PartialEqSpecImpl<VersionedUrl> for VersionedUrlRef<'a> {
    open spec fn obeys_eq_spec() -> bool {
        true
    }

    open spec fn eq_spec(&self, other: &VersionedUrl) -> bool {
        self@ == other@
    }
}

} // verus!
