use kotlin_lsp::features::code_lens::{remember_declarations, DeclCache};
use kotlin_lsp::features::kmp_expect_diagnostics::{
    detect_active_sets, expect_diagnostics_with, kmp_expect_diagnostics, kmp_expect_diagnostics_inner, SourceDirEntry,
};
use kotlin_lsp::indexer::{FileData, Indexer};
use kotlin_lsp::json::JsonValue;
use kotlin_lsp::protocol::{DiagnosticSeverity, Location, Position, Range};
use kotlin_lsp::syntax::parse_live;

fn uri_path(rel_path: &str) -> String {
    format!("file:///workspace/{rel_path}")
}

fn setup_workspace(files: &[(&str, &str)]) -> Indexer {
    let mut idx = Indexer::new();
    for (rel_path, content) in files {
        let u = uri_path(rel_path);
        idx.store_live_tree(&u, content);
        idx.set_file(
            &u,
            FileData { package: Some("test".to_owned()), text: (*content).to_owned() },
        );
        let range = Range {
            start: Position { line: 1, character: 11 },
            end: Position { line: 1, character: 16 },
        };
        idx.add_definition("greet", Location { uri: u, range });
    }
    idx
}

fn directory(name: &str, has_kotlin: bool) -> SourceDirEntry {
    SourceDirEntry {
        name: Some(name.to_owned()),
        is_dir: true,
        has_kotlin,
        has_java: false,
    }
}

#[test]
fn test_no_active_platforms() {
    let idx = setup_workspace(&[(
        "src/commonMain/kotlin/Foo.kt",
        "package test\nexpect fun greet(name: String)",
    )]);
    let uri = uri_path("src/commonMain/kotlin/Foo.kt");
    let doc = parse_live("package test\nexpect fun greet(name: String)").unwrap();
    let listing = vec![directory("commonMain", true)];
    let diags = kmp_expect_diagnostics(&idx, &uri, &doc, &listing);
    assert!(diags.is_empty(), "expected no diagnostics, got: {diags:?}");
}

#[test]
fn test_missing_actual_diagnostic() {
    let idx = setup_workspace(&[(
        "src/commonMain/kotlin/Foo.kt",
        "package test\nexpect fun greet(name: String)",
    )]);
    let uri = uri_path("src/commonMain/kotlin/Foo.kt");
    let doc = parse_live("package test\nexpect fun greet(name: String)").unwrap();
    let listing = vec![directory("commonMain", true), directory("androidMain", true)];
    let diags = kmp_expect_diagnostics(&idx, &uri, &doc, &listing);
    assert_eq!(diags.len(), 1, "expected 1 diagnostic for missing android actual");
    assert_eq!(diags[0].severity, Some(DiagnosticSeverity::Warning));
    assert!(
        diags[0].message.contains("Android"),
        "message should mention Android: {}",
        diags[0].message
    );
    assert_eq!(diags[0].message, "Missing 'actual' implementation for \u{25A6} Android");
    assert_eq!(diags[0].source.as_deref(), Some("kotlin-lsp"));
    let data = diags[0].data.as_ref().unwrap();
    assert_eq!(data.get("source_set"), Some(&JsonValue::Str("android".to_owned())));
    assert_eq!(data.get("symbol"), Some(&JsonValue::Str("greet".to_owned())));
}

#[test]
fn test_actual_present_no_diagnostic() {
    let idx = setup_workspace(&[
        (
            "src/commonMain/kotlin/Foo.kt",
            "package test\nexpect fun greet(name: String)",
        ),
        (
            "src/androidMain/kotlin/Foo.kt",
            "package test\nactual fun greet(name: String) {}",
        ),
    ]);
    let uri = uri_path("src/commonMain/kotlin/Foo.kt");
    let doc = parse_live("package test\nexpect fun greet(name: String)").unwrap();
    let listing = vec![directory("commonMain", true), directory("androidMain", true)];
    let diags = kmp_expect_diagnostics(&idx, &uri, &doc, &listing);
    assert!(diags.is_empty(), "expected no diagnostics when actual present");
}

#[test]
fn test_skips_non_common() {
    let idx = setup_workspace(&[(
        "src/androidMain/kotlin/Foo.kt",
        "package test\nexpect fun greet(name: String)",
    )]);
    let uri = uri_path("src/androidMain/kotlin/Foo.kt");
    let doc = parse_live("package test\nexpect fun greet(name: String)").unwrap();
    let listing = vec![directory("androidMain", true)];
    let diags = kmp_expect_diagnostics(&idx, &uri, &doc, &listing);
    assert!(diags.is_empty(), "should skip non-common files");
}

#[test]
fn every_set_that_lacks_an_actual_is_named() {
    let idx = setup_workspace(&[
        (
            "src/commonMain/kotlin/Foo.kt",
            "package test\nexpect fun greet(name: String)",
        ),
        (
            "src/jvmMain/kotlin/Foo.kt",
            "package test\nactual fun greet(name: String) {}",
        ),
    ]);
    let uri = uri_path("src/commonMain/kotlin/Foo.kt");
    let doc = parse_live("package test\nexpect fun greet(name: String)").unwrap();
    let sets: Vec<String> =
        ["common", "ios", "jvm", "android"].iter().map(|s| (*s).to_owned()).collect();
    let diags = kmp_expect_diagnostics_inner(&idx, &uri, &doc, &sets);
    let named: Vec<Option<&str>> = diags
        .iter()
        .map(|d| d.data.as_ref().and_then(|v| v.get("source_set")).and_then(|v| v.as_str()))
        .collect();
    assert_eq!(named, vec![Some("ios"), Some("android")]);
}

#[test]
fn warnings_go_by_what_was_read() {
    let idx = setup_workspace(&[
        (
            "src/commonMain/kotlin/Foo.kt",
            "package test\nexpect fun greet(name: String)",
        ),
        (
            "src/jvmMain/kotlin/Foo.kt",
            "package test\nactual fun greet(name: String) {}",
        ),
    ]);
    let uri = uri_path("src/commonMain/kotlin/Foo.kt");
    let doc = parse_live("package test\nexpect fun greet(name: String)").unwrap();
    let sets = vec!["jvm".to_owned()];
    let mut cache = DeclCache::new();
    assert!(expect_diagnostics_with(&idx, &uri, &doc, &sets, &mut cache).is_empty());
    let mut cache = DeclCache::new();
    remember_declarations(&mut cache, &uri_path("src/jvmMain/kotlin/Foo.kt"), None);
    assert_eq!(expect_diagnostics_with(&idx, &uri, &doc, &sets, &mut cache).len(), 1);
}

#[test]
fn documents_without_a_package_are_not_warned_about() {
    let mut idx = Indexer::new();
    let uri = uri_path("src/commonMain/kotlin/Foo.kt");
    let text = "expect fun greet(name: String)";
    idx.set_file(&uri, FileData { package: None, text: text.to_owned() });
    let doc = parse_live(text).unwrap();
    let diags = kmp_expect_diagnostics(&idx, &uri, &doc, &vec![directory("jvmMain", true)]);
    assert!(diags.is_empty());
}

#[test]
fn active_sets_are_directories_with_sources() {
    let mut listing = vec![
        directory("commonMain", true),
        directory("androidMain", false),
        directory("jvmTest", true),
        directory("jvmMain", true),
        directory("main", true),
    ];
    listing.push(SourceDirEntry {
        name: Some("iosMain".to_owned()),
        is_dir: false,
        has_kotlin: true,
        has_java: false,
    });
    listing.push(SourceDirEntry { name: None, is_dir: true, has_kotlin: true, has_java: true });
    listing.push(SourceDirEntry {
        name: Some("jsMain".to_owned()),
        is_dir: true,
        has_kotlin: false,
        has_java: true,
    });
    assert_eq!(detect_active_sets(&listing), vec!["common", "jvm", "js"]);
}
