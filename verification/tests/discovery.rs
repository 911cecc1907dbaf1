use proto_builder::discovery::{is_proto, select_protos};
use proto_builder::names::{carries_extension, chars_of, join, strip_extension};
use proto_builder::Entry;

fn file(name: &str) -> Entry {
    Entry { name: name.to_string(), is_dir: false }
}

fn dir(name: &str) -> Entry {
    Entry { name: name.to_string(), is_dir: true }
}

#[test]
fn discovery_keeps_proto_files_in_listing_order() {
    let entries = vec![file("a.proto"), file("b.proto"), file("readme.md")];
    assert_eq!(
        select_protos("protos", &entries),
        vec!["protos/a.proto".to_string(), "protos/b.proto".to_string()]
    );
}

#[test]
fn discovery_does_not_sort() {
    let entries = vec![file("z.proto"), file("m.proto"), file("a.proto")];
    assert_eq!(
        select_protos("d", &entries),
        vec!["d/z.proto".to_string(), "d/m.proto".to_string(), "d/a.proto".to_string()]
    );
}

#[test]
fn discovery_skips_directories() {
    let entries = vec![dir("nested.proto"), file("kept.proto"), dir("sub")];
    assert_eq!(select_protos("in", &entries), vec!["in/kept.proto".to_string()]);
}

#[test]
fn discovery_skips_other_extensions() {
    let entries = vec![
        file("a.protox"),
        file("a.prot"),
        file("a.proto.bak"),
        file("proto"),
        file("aproto"),
        file("a.PROTO"),
        file("a.b.proto"),
    ];
    assert_eq!(select_protos("in", &entries), vec!["in/a.b.proto".to_string()]);
}

#[test]
fn discovery_skips_hidden_file_named_like_the_extension() {
    let entries = vec![file(".proto"), file("..proto"), file("x.proto")];
    assert_eq!(
        select_protos("in", &entries),
        vec!["in/..proto".to_string(), "in/x.proto".to_string()]
    );
}

#[test]
fn discovery_of_empty_listing_is_empty() {
    let entries: Vec<Entry> = Vec::new();
    assert_eq!(select_protos("in", &entries), Vec::<String>::new());
}

#[test]
fn discovery_keeps_repeated_names() {
    let entries = vec![file("a.proto"), file("a.proto")];
    assert_eq!(
        select_protos("in", &entries),
        vec!["in/a.proto".to_string(), "in/a.proto".to_string()]
    );
}

#[test]
fn discovery_handles_names_beyond_ascii() {
    let entries = vec![file("sch\u{e9}ma.proto"), file("\u{1f600}.proto"), file("a.prot\u{f6}")];
    assert_eq!(
        select_protos("d\u{e9}p", &entries),
        vec!["d\u{e9}p/sch\u{e9}ma.proto".to_string(), "d\u{e9}p/\u{1f600}.proto".to_string()]
    );
}

#[test]
fn is_proto_tells_files_from_directories() {
    assert!(is_proto(&file("a.proto")));
    assert!(!is_proto(&dir("a.proto")));
    assert!(!is_proto(&file("a.rs")));
}

#[test]
fn extension_needs_a_stem_and_a_dot() {
    assert!(carries_extension("a.rs", "rs"));
    assert!(carries_extension("a.b.rs", "rs"));
    assert!(!carries_extension(".rs", "rs"));
    assert!(!carries_extension("rs", "rs"));
    assert!(!carries_extension("ars", "rs"));
    assert!(!carries_extension("a.rs ", "rs"));
    assert!(!carries_extension("", "rs"));
    assert!(!carries_extension("a.rs", "proto"));
    assert!(carries_extension("a.", ""));
    assert!(!carries_extension("a", ""));
}

#[test]
fn strip_extension_gives_the_stem() {
    assert_eq!(strip_extension("a.rs", "rs"), Some("a".to_string()));
    assert_eq!(strip_extension("a_grpc.rs", "rs"), Some("a_grpc".to_string()));
    assert_eq!(strip_extension("a.b.rs", "rs"), Some("a.b".to_string()));
    assert_eq!(strip_extension("..rs", "rs"), Some(".".to_string()));
    assert_eq!(
        strip_extension("\u{e9}t\u{e9}.proto", "proto"),
        Some("\u{e9}t\u{e9}".to_string())
    );
    assert_eq!(strip_extension(".rs", "rs"), None);
    assert_eq!(strip_extension("a.rs", "proto"), None);
    assert_eq!(strip_extension("", "rs"), None);
}

#[test]
fn join_puts_a_slash_between() {
    assert_eq!(join("out", "protos"), "out/protos");
    assert_eq!(join("", "x"), "/x");
    assert_eq!(join("a/", "b"), "a//b");
    assert_eq!(join("a", ""), "a/");
}

#[test]
fn chars_of_lists_characters_not_bytes() {
    assert_eq!(chars_of("a\u{e9}\u{1f600}"), vec!['a', '\u{e9}', '\u{1f600}']);
    assert_eq!(chars_of(""), Vec::<char>::new());
}
