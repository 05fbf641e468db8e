use kotlin_lsp::indexer::{is_kotlin_path, is_kotlin_uri, FileData, Indexer};
use kotlin_lsp::json::JsonValue;
use kotlin_lsp::paths::FilePath;
use kotlin_lsp::string_map::StringMap;
use kotlin_lsp::syntax::{is_within_limits, parse_live, LiveDoc, SyntaxNode};
use kotlin_lsp::text::{
    decimal_text, ends_with, joined, same_text, split, starts_with, strip_prefix,
    strip_suffix, trim,
};
use kotlin_lsp::urls::{normalize_url, url_path};

#[test]
fn a_parsed_document_is_a_tree_of_its_text() {
    let doc = parse_live("fun foo() {}").unwrap();
    assert_eq!(doc.node(0).kind, "source_file");
    assert_eq!(doc.text(0), Some("fun foo() {}"));
    assert_eq!(doc.node(0).start_byte, 0);
    assert_eq!(doc.node(0).end_byte, 12);
    let declaration = doc.children(0)[0];
    assert_eq!(doc.node(declaration).kind, "function_declaration");
    let mut reached = vec![0];
    let mut i = 0;
    while i < reached.len() {
        reached.extend(doc.children(reached[i]).iter().copied());
        i += 1;
    }
    reached.sort();
    let all: Vec<usize> = (0..doc.node_count()).collect();
    assert_eq!(reached, all);
}

#[test]
fn texts_beyond_the_limits_of_the_parser_are_not_parsed() {
    let opened = "\"${".repeat(1025);
    assert!(!is_within_limits(&opened));
    assert!(parse_live(&opened).is_none());
    let interrupted = "x(\"\0)\n".repeat(1025);
    assert!(!is_within_limits(&interrupted));
    assert!(parse_live(&interrupted).is_none());
    let unknown = "\"$\u{aa}".repeat(1025);
    assert!(!is_within_limits(&unknown));
    assert!(parse_live(&"\"${".repeat(1024)).is_some());
    assert!(parse_live(&"x(\"\0)\n".repeat(1024)).is_some());
    assert!(parse_live(&"\"$\u{aa}".repeat(1024)).is_some());
}

#[test]
fn long_texts_with_many_strings_are_parsed() {
    let text = "val a = \"text\"\n".repeat(2000)
        + &"val b = \"$a and $a\"\n".repeat(2000)
        + &"val c = \"${a} and ${b}\"\n".repeat(1000);
    assert!(is_within_limits(&text));
    assert!(parse_live(&text).is_some());
    assert_eq!(parse_live("val a = \"\u{e9}\"").unwrap().node(0).end_byte, 12);
}

#[test]
fn nodes_that_form_no_tree_are_refused() {
    let node = |depth: u32, start: usize, end: usize| SyntaxNode {
        kind: "x".to_owned(),
        depth,
        start_byte: start,
        end_byte: end,
        start_row: 0,
        start_column: start,
        end_row: 0,
        end_column: end,
    };
    assert!(LiveDoc::from_nodes(b"ab".to_vec(), vec![]).is_none());
    assert!(LiveDoc::from_nodes(b"ab".to_vec(), vec![node(0, 0, 3)]).is_none());
    assert!(LiveDoc::from_nodes(b"ab".to_vec(), vec![node(0, 0, 2), node(0, 0, 1)]).is_none());
    let doc = LiveDoc::from_nodes(
        b"ab".to_vec(),
        vec![node(0, 0, 2), node(1, 0, 1), node(1, 1, 2)],
    );
    assert_eq!(doc.unwrap().children(0), &vec![1, 2]);
}

#[test]
fn bytes_that_are_no_text_have_none() {
    let node = SyntaxNode {
        kind: "x".to_owned(),
        depth: 0,
        start_byte: 0,
        end_byte: 1,
        start_row: 0,
        start_column: 0,
        end_row: 0,
        end_column: 1,
    };
    let doc = LiveDoc::from_nodes(vec![0xff], vec![node]).unwrap();
    assert_eq!(doc.text(0), None);
}

#[test]
fn addresses_have_a_normal_form_and_a_path() {
    assert_eq!(normalize_url("FILE:///a/../b c.kt").as_deref(), Some("file:///b%20c.kt"));
    assert_eq!(url_path("file:///a/../b c.kt?q#f").as_deref(), Some("/b%20c.kt"));
    assert_eq!(normalize_url("b.kt"), None);
    assert_eq!(url_path("b.kt"), None);
}

#[test]
fn text_is_taken_apart_and_put_together() {
    assert!(same_text("a", "a"));
    assert!(!same_text("a", "A"));
    assert!(starts_with("actual", "act"));
    assert!(!starts_with("act", "actual"));
    assert!(ends_with("Foo.kt", ".kt"));
    assert_eq!(strip_prefix("ref: x", "ref: ").as_deref(), Some("x"));
    assert_eq!(strip_prefix("x", "ref: "), None);
    assert_eq!(strip_suffix("iosMain", "Main").as_deref(), Some("ios"));
    assert_eq!(trim(" \t\u{a0}x y\u{3000}\n"), "x y");
    assert_eq!(trim(" \n"), "");
    assert_eq!(split("/a//b", '/'), vec!["", "a", "", "b"]);
    assert_eq!(split("", '/'), vec![""]);
    assert_eq!(joined("a", "b"), "ab");
    assert_eq!(decimal_text(0), "0");
    assert_eq!(decimal_text(10409), "10409");
}

#[test]
fn a_map_keeps_the_last_value_of_a_key() {
    let mut map: StringMap<u32> = StringMap::new();
    map.insert("a".to_owned(), 1);
    map.insert("b".to_owned(), 2);
    map.insert("a".to_owned(), 3);
    assert_eq!(map.len(), 2);
    assert_eq!(map.get("a"), Some(&3));
    assert_eq!(map.get("c"), None);
    assert_eq!(map.remove("a"), Some(3));
    assert_eq!(map.remove("a"), None);
    assert_eq!(map.key_at(0), "b");
    assert!(map.contains_key("b"));
}

#[test]
fn json_values_are_read_by_kind() {
    let value = JsonValue::pair(
        "list",
        JsonValue::Array(vec![JsonValue::Null, JsonValue::Bool(true)]),
        "count",
        JsonValue::Unsigned(9),
    );
    assert_eq!(value.get("count").and_then(|v| v.as_u64()), Some(9));
    assert_eq!(value.get("list").and_then(|v| v.as_array()).map(|v| v.len()), Some(2));
    assert_eq!(value.get("missing"), None);
    assert_eq!(value.as_str(), None);
    assert_eq!(JsonValue::OtherNumber.as_u64(), None);
    assert_eq!(JsonValue::Str("x".to_owned()).get("x"), None);
}

fn path(names: &[&str]) -> FilePath {
    FilePath { components: names.iter().map(|name| name.as_bytes().to_vec()).collect() }
}

#[test]
fn paths_start_with_whole_components() {
    assert!(path(&["/", "home", "a"]).starts_with(&path(&["/", "home"])));
    assert!(path(&["/", "home"]).starts_with(&path(&["/", "home"])));
    assert!(!path(&["/", "homes"]).starts_with(&path(&["/", "home"])));
    assert!(!path(&["/"]).starts_with(&path(&["/", "home"])));
    assert!(path(&["/", "a"]).same(&path(&["/", "a"])));
    assert!(!path(&["/", "a"]).same(&path(&["/", "a", "b"])));
    assert!(!path(&["/", "a", "b"]).same(&path(&["/", "a"])));
}

#[test]
fn the_index_prefers_what_the_editor_holds() {
    let uri = "file:///a/Foo.kt";
    let mut idx = Indexer::new();
    assert!(idx.live_doc_or_parse(uri).is_none());
    idx.set_file(uri, FileData { package: None, text: "fun a() {}".to_owned() });
    assert_eq!(idx.live_doc_or_parse(uri).unwrap().text(0), Some("fun a() {}"));
    idx.set_live_lines(uri, "fun b() {}");
    assert_eq!(idx.live_doc_or_parse(uri).unwrap().text(0), Some("fun b() {}"));
    idx.store_live_tree(uri, "fun c() {}");
    assert_eq!(idx.live_doc_or_parse(uri).unwrap().text(0), Some("fun c() {}"));
    assert_eq!(idx.live_doc(uri).unwrap().text(0), Some("fun c() {}"));
    idx.remove_live_tree(uri);
    idx.remove_live_lines(uri);
    assert!(idx.live_doc(uri).is_none());
    idx.reset_index_state();
    assert!(idx.live_doc_or_parse(uri).is_none());
}

#[test]
fn only_kotlin_is_parsed() {
    assert!(is_kotlin_uri("file:///a/Foo.kt"));
    assert!(is_kotlin_uri("file:///a/build.gradle.kts#top"));
    assert!(!is_kotlin_uri("file:///a/Foo.java"));
    assert!(!is_kotlin_uri("lib://Foo.kt"));
    assert!(!is_kotlin_uri("Foo.kt"));
    assert!(is_kotlin_path("/a/Foo.kt"));
    assert!(!is_kotlin_path("/a/Foo.kt/"));
    let mut idx = Indexer::new();
    idx.store_live_tree("file:///a/Foo.java", "class Foo {}");
    assert!(idx.live_doc("file:///a/Foo.java").is_none());
}
