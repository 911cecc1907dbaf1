use proto_builder::index::{index_modules_of, list_rs_files, render_index};
use proto_builder::order::{precedes, sort_names};

fn names(list: &[&str]) -> Vec<String> {
    list.iter().map(|s| s.to_string()).collect()
}

#[test]
fn index_of_generated_sources() {
    let listing = names(&["b.rs", "a_grpc.rs", "a.rs"]);
    let modules = index_modules_of(&listing);
    assert_eq!(modules, names(&["a", "a_grpc", "b"]));
    assert_eq!(render_index(&modules), "pub mod a;\npub mod a_grpc;\npub mod b;\n");
}

#[test]
fn index_leaves_out_itself() {
    let listing = names(&["mod.rs", "a.rs"]);
    assert_eq!(index_modules_of(&listing), names(&["a"]));
}

#[test]
fn index_is_case_sensitive_about_itself() {
    let listing = names(&["Mod.rs", "MOD.rs", "mod.rs", "mod.RS", "model.rs", "mod"]);
    assert_eq!(index_modules_of(&listing), names(&["MOD", "Mod", "model"]));
}

#[test]
fn index_skips_what_is_no_source() {
    let listing = names(&["a.rs", "b.txt", "c.rs.orig", ".rs", "rs", "d.proto", "e.rs"]);
    assert_eq!(index_modules_of(&listing), names(&["a", "e"]));
}

#[test]
fn index_does_not_depend_on_listing_order() {
    let one = names(&["c.rs", "a.rs", "mod.rs", "b.rs", "a_grpc.rs"]);
    let other = names(&["a_grpc.rs", "b.rs", "a.rs", "c.rs", "mod.rs"]);
    assert_eq!(index_modules_of(&one), index_modules_of(&other));
    assert_eq!(
        render_index(&index_modules_of(&one)),
        "pub mod a;\npub mod a_grpc;\npub mod b;\npub mod c;\n"
    );
}

#[test]
fn index_is_the_same_when_taken_again() {
    let listing = names(&["x.rs", "y.rs"]);
    let first = render_index(&index_modules_of(&listing));
    let again = render_index(&index_modules_of(&listing));
    assert_eq!(first, again);
    let with_index = names(&["x.rs", "y.rs", "mod.rs"]);
    assert_eq!(render_index(&index_modules_of(&with_index)), first);
}

#[test]
fn index_of_empty_directory_is_empty() {
    let listing: Vec<String> = Vec::new();
    assert_eq!(index_modules_of(&listing), Vec::<String>::new());
    assert_eq!(render_index(&Vec::new()), "");
}

#[test]
fn index_keeps_a_module_listed_twice() {
    let listing = names(&["a.rs", "a.rs"]);
    assert_eq!(index_modules_of(&listing), names(&["a", "a"]));
}

#[test]
fn list_rs_files_keeps_the_index_file() {
    let listing = names(&["b.rs", "mod.rs", "a.txt", "a.rs"]);
    assert_eq!(list_rs_files(&listing), names(&["b.rs", "mod.rs", "a.rs"]));
}

#[test]
fn render_keeps_the_order_given() {
    assert_eq!(render_index(&names(&["b", "a"])), "pub mod b;\npub mod a;\n");
}

#[test]
fn order_is_by_code_point() {
    assert!(precedes("", ""));
    assert!(precedes("", "a"));
    assert!(!precedes("a", ""));
    assert!(precedes("a", "a"));
    assert!(precedes("a", "a_grpc"));
    assert!(!precedes("a_grpc", "a"));
    assert!(precedes("B", "a"));
    assert!(!precedes("a", "B"));
    assert!(precedes("a1", "a_"));
    assert!(precedes("z", "\u{e9}"));
    assert!(precedes("\u{ffff}", "\u{10000}"));
    assert!(!precedes("\u{10000}", "\u{ffff}"));
}

#[test]
fn sort_agrees_with_byte_order() {
    let given = names(&[
        "b", "a_grpc", "a", "B", "", "\u{e9}", "z", "\u{10000}", "\u{ffff}", "a", "ab", "aB", "_",
        "0", "\u{7f}", "\u{80}",
    ]);
    let mut expected = given.clone();
    expected.sort();
    assert_eq!(sort_names(given), expected);
}

#[test]
fn sort_of_nothing_and_of_one() {
    assert_eq!(sort_names(Vec::new()), Vec::<String>::new());
    assert_eq!(sort_names(names(&["only"])), names(&["only"]));
}

#[test]
fn precedes_agrees_with_string_order() {
    let samples = names(&["", "a", "b", "ab", "a_", "A", "\u{e9}", "\u{e9}a", "\u{1f600}", "~"]);
    for x in &samples {
        for y in &samples {
            assert_eq!(precedes(x, y), x <= y);
        }
    }
}
