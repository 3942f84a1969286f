use turbine::skeletor::{Error, Style};
use turbine::url::{BaseUrlRef, VersionedUrl, VersionedUrlRef};

#[test]
fn versioned_url_ref_parts() {
    let base = BaseUrlRef::new_unchecked("https://example.com/@alice/types/data-type/text/");
    let url = VersionedUrlRef::new_unchecked(base, 3);
    assert_eq!(url.base().as_str(), "https://example.com/@alice/types/data-type/text/");
    assert_eq!(url.version(), 3);
}

#[test]
fn versioned_url_ref_equality() {
    let a = VersionedUrlRef::new_unchecked(BaseUrlRef::new_unchecked("https://a/"), 1);
    let b = VersionedUrlRef::new_unchecked(BaseUrlRef::new_unchecked("https://a/"), 2);
    let c = VersionedUrlRef::new_unchecked(BaseUrlRef::new_unchecked("https://b/"), 1);
    let owned = VersionedUrl { base_url: "https://a/".to_string(), version: 1 };
    assert!(a == owned);
    assert!(b != owned);
    assert!(c != owned);
    assert!(owned.as_ref() == owned);
    assert_eq!(owned.as_ref().base().as_str(), "https://a/");
}

#[test]
fn error_messages() {
    assert_eq!(Error::Codegen.message(), "unable to generate code");
    assert_eq!(Error::Cargo.message(), "cargo error");
    assert_eq!(Error::Path.message(), "path error");
    assert!(Style::Mod != Style::Module);
}
