use nvda_rust::ia2::details_roles::combine_details_roles;

fn w(s: &str) -> Vec<u16> {
    s.encode_utf16().collect()
}

#[test]
fn no_existing_attribute_writes_role_alone() {
    assert_eq!(combine_details_roles(None, &w("comment")), w("comment"));
}

#[test]
fn existing_attribute_appends_with_comma() {
    let existing = w("comment");
    assert_eq!(combine_details_roles(Some(&existing), &w("definition")), w("comment,definition"));
}

#[test]
fn empty_existing_keeps_leading_comma() {
    assert_eq!(combine_details_roles(Some(&[]), &w("comment")), w(",comment"));
}

#[test]
fn multiple_appends_preserve_order() {
    let v1 = combine_details_roles(None, &w("a"));
    let v2 = combine_details_roles(Some(&v1), &w("b"));
    let v3 = combine_details_roles(Some(&v2), &w("c"));
    assert_eq!(v3, w("a,b,c"));
}
