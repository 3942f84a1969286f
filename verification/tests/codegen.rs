use turbine::codegen::inner_name;

fn names(xs: &[(&str, &str, &str)]) -> Vec<(String, String, String)> {
    xs.iter().map(|(a, b, c)| (a.to_string(), b.to_string(), c.to_string())).collect()
}

#[test]
fn inner_without_collision() {
    assert_eq!(inner_name(&names(&[])), "Inner");
    assert_eq!(inner_name(&names(&[("Person", "PersonRef", "PersonMut")])), "Inner");
}

#[test]
fn inner_with_collision() {
    assert_eq!(inner_name(&names(&[("InnerFoo", "InnerFooRef", "InnerFooMut")])), "_Inner");
    // the prefixed name is tested again
    assert_eq!(inner_name(&names(&[("Inner", "_Inner", "x")])), "__Inner");
    // a collision on any of the three names counts
    assert_eq!(inner_name(&names(&[("a", "b", "Innermost")])), "_Inner");
}

#[test]
fn inner_checks_types_in_order() {
    // the first type is checked before the name grows, and not again after
    assert_eq!(inner_name(&names(&[("_InnerX", "y", "z"), ("InnerY", "y", "z")])), "_Inner");
    assert_eq!(inner_name(&names(&[("InnerY", "y", "z"), ("_InnerX", "y", "z")])), "__Inner");
}
