use kotlin_lsp::backend::commands::{execute_command_impl, CommandStep};
use kotlin_lsp::features::code_lens::{
    code_lens, compute_code_lens, lenses_at, make_navigate_lens, remember_declarations,
    resolve_counterparts, symbol_has_modifier, DeclCache, GO_TO_LOCATIONS,
};
use kotlin_lsp::features::declarations::{
    check_modifier, detect_expect_actual, extract_decl_name, ts_range_to_lsp, KIND_CLASS_DECL,
    KIND_FUN_DECL, KIND_OBJECT_DECL, KIND_PROP_DECL, KIND_TYPE_ALIAS,
};
use kotlin_lsp::features::source_set::{
    classify_source_set, classify_source_set_name, is_source_set_name, target_label,
};
use kotlin_lsp::indexer::{FileData, Indexer};
use kotlin_lsp::json::JsonValue;
use kotlin_lsp::protocol::{CodeLens, Location, Position, Range};
use kotlin_lsp::syntax::{parse_live, LiveDoc};

fn uri(path: &str) -> String {
    format!("file:///test{path}")
}

fn parse_doc(src: &str) -> LiveDoc {
    parse_live(src).expect("parse failed")
}

fn range(line: u32, from: u32, to: u32) -> Range {
    Range {
        start: Position { line, character: from },
        end: Position { line, character: to },
    }
}

fn first_decl(doc: &LiveDoc, src: &str) -> usize {
    for child in doc.children(0) {
        let kind = doc.node(*child).kind.as_str();
        if kind == KIND_FUN_DECL
            || kind == KIND_PROP_DECL
            || kind == KIND_CLASS_DECL
            || kind == KIND_OBJECT_DECL
            || kind == KIND_TYPE_ALIAS
        {
            return *child;
        }
    }
    panic!("no declaration node found in: {src}")
}

fn first_modifier(src: &str) -> Option<bool> {
    let doc = parse_doc(src);
    let decl = first_decl(&doc, src);
    check_modifier(&doc, decl)
}

fn index_multi(files: &[(&str, &str)]) -> (Vec<String>, Indexer) {
    let mut idx = Indexer::new();
    let uris: Vec<String> = files.iter().map(|(path, _)| uri(path)).collect();
    for ((_path, src), u) in files.iter().zip(uris.iter()) {
        idx.set_file(
            u,
            FileData { package: Some("test".to_owned()), text: (*src).to_owned() },
        );
        idx.add_definition("greet", Location { uri: u.clone(), range: range(1, 11, 16) });
    }
    (uris, idx)
}

fn assert_lens_for(lenses: &[CodeLens], label_substr: &str, target_uri_substr: &str) {
    let found = lenses.iter().any(|l| {
        l.command.as_ref().map(|c| c.title.contains(label_substr)).unwrap_or(false)
            && l.command.as_ref().map_or(false, |c| {
                c.arguments
                    .as_ref()
                    .and_then(|a| a.first())
                    .and_then(|v| v.as_str())
                    .map(|s| s.contains(target_uri_substr))
                    .unwrap_or(false)
            })
    });
    assert!(
        found,
        "no lens found with label containing '{label_substr}' and target '{target_uri_substr}'"
    );
}

#[test]
fn classify_source_set_common_main() {
    let result = classify_source_set("/home/project/src/commonMain/kotlin/com/example/Foo.kt");
    assert_eq!(result.as_deref(), Some("common"));
}

#[test]
fn classify_source_set_android_main() {
    let result = classify_source_set("/home/project/src/androidMain/kotlin/com/example/Foo.kt");
    assert_eq!(result.as_deref(), Some("android"));
}

#[test]
fn classify_source_set_no_match() {
    let result = classify_source_set("/home/project/src/main/kotlin/com/example/Foo.kt");
    assert_eq!(result, None);
}

#[test]
fn classify_source_set_takes_the_first_directory() {
    let result = classify_source_set("/a/iosTest/commonMain/Foo.kt");
    assert_eq!(result.as_deref(), Some("ios"));
}

#[test]
fn source_set_names_are_told_by_their_ends() {
    assert!(is_source_set_name("commonMain"));
    assert!(is_source_set_name("jvmTest"));
    assert!(!is_source_set_name("main"));
    assert!(!is_source_set_name("Mainframe"));
}

#[test]
fn source_set_names_of_platforms() {
    for (name, set) in [
        ("commonMain", "common"),
        ("commonTest", "common"),
        ("androidMain", "android"),
        ("androidUnitTest", "android"),
        ("iosArm64Main", "ios"),
        ("jvmMain", "jvm"),
        ("desktopMain", "desktop"),
    ] {
        assert_eq!(classify_source_set_name(name), set, "{name}");
    }
}

#[test]
fn target_label_android() {
    assert_eq!(&*target_label("android"), "\u{25A6} Android");
}

#[test]
fn target_label_jvm() {
    assert_eq!(&*target_label("jvm"), "\u{2B22} JVM");
}

#[test]
fn target_label_common() {
    assert_eq!(&*target_label("common"), "\u{25C9} common");
}

#[test]
fn check_modifier_expect_fun() {
    assert_eq!(first_modifier("expect fun foo()"), Some(true));
}

#[test]
fn check_modifier_actual_fun() {
    assert_eq!(first_modifier("actual fun foo() {}"), Some(false));
}

#[test]
fn check_modifier_plain_fun() {
    assert_eq!(first_modifier("fun foo() {}"), None);
}

#[test]
fn check_modifier_expect_class() {
    assert_eq!(first_modifier("expect class PlatformContext"), Some(true));
}

#[test]
fn check_modifier_expect_val() {
    assert_eq!(first_modifier("expect val x: Int"), Some(true));
}

#[test]
fn check_modifier_passes_over_other_modifiers() {
    assert_eq!(first_modifier("public expect fun foo()"), Some(true));
}

#[test]
fn declared_names_and_where_they_stand() {
    let src = "expect fun foo()";
    let doc = parse_doc(src);
    let decl = first_decl(&doc, src);
    let (name, place) = extract_decl_name(&doc, decl).unwrap();
    assert_eq!(name, "foo");
    assert_eq!(place, range(0, 11, 14));
    assert_eq!(ts_range_to_lsp(doc.node(0)), range(0, 0, 16));
}

#[test]
fn detect_expect_actual_mixed() {
    let src = "expect fun greet(name: String)\nactual fun greet(name: String) {}\nfun helper() {}";
    let doc = parse_doc(src);
    let results = detect_expect_actual(&doc);
    assert_eq!(
        results.len(),
        2,
        "expect+actual+plain \u{2192} 2 results, got {}",
        results.len()
    );
    let names: Vec<&str> = results.iter().map(|(n, _, _)| n.as_str()).collect();
    assert!(names.contains(&"greet"), "results should include 'greet'");
}

#[test]
fn nested_declarations_are_found() {
    let doc = parse_doc("expect class Outer {\n    fun plain()\n    expect fun inner()\n}");
    let mut found: Vec<(String, bool)> =
        detect_expect_actual(&doc).into_iter().map(|(n, _, e)| (n, e)).collect();
    found.sort();
    assert_eq!(found, vec![("Outer".to_owned(), true), ("inner".to_owned(), true)]);
}

#[test]
fn resolve_counterparts_expect_in_common_to_android() {
    let (uris, idx) = index_multi(&[
        (
            "/src/commonMain/kotlin/Foo.kt",
            "package test\nexpect fun greet(name: String)",
        ),
        (
            "/src/androidMain/kotlin/Foo.kt",
            "package test\nactual fun greet(name: String) {}",
        ),
    ]);
    let mut cache = DeclCache::new();
    let results =
        resolve_counterparts(&idx, "greet", Some("test"), uris[0].as_str(), true, &mut cache);
    assert_eq!(results.len(), 1, "common expect \u{2192} should find 1 counterpart");
    assert!(
        results[0].0.contains("Android"),
        "label should mention Android, got: {}",
        results[0].0
    );
}

#[test]
fn resolve_counterparts_actual_in_android_to_common() {
    let (uris, idx) = index_multi(&[
        (
            "/src/commonMain/kotlin/Foo.kt",
            "package test\nexpect fun greet(name: String)",
        ),
        (
            "/src/androidMain/kotlin/Foo.kt",
            "package test\nactual fun greet(name: String) {}",
        ),
    ]);
    let mut cache = DeclCache::new();
    let results =
        resolve_counterparts(&idx, "greet", Some("test"), uris[1].as_str(), false, &mut cache);
    assert_eq!(results.len(), 1, "android actual \u{2192} should find 1 counterpart");
    assert!(
        results[0].0.contains("common"),
        "label should mention 'common', got: {}",
        results[0].0
    );
}

#[test]
fn resolve_counterparts_skips_wrong_modifier() {
    let (uris, idx) = index_multi(&[
        (
            "/src/commonMain/kotlin/Foo.kt",
            "package test\nexpect fun greet(name: String)",
        ),
        (
            "/src/androidMain/kotlin/Foo.kt",
            "package test\nfun greet(name: String) {}",
        ),
    ]);
    let mut cache = DeclCache::new();
    let results =
        resolve_counterparts(&idx, "greet", Some("test"), uris[0].as_str(), true, &mut cache);
    assert!(
        results.is_empty(),
        "expect \u{2192} plain (without actual) should be skipped, got {} results",
        results.len()
    );
}

#[test]
fn resolve_counterparts_needs_the_same_package() {
    let (uris, mut idx) = index_multi(&[
        (
            "/src/commonMain/kotlin/Foo.kt",
            "package test\nexpect fun greet(name: String)",
        ),
        (
            "/src/androidMain/kotlin/Foo.kt",
            "package test\nactual fun greet(name: String) {}",
        ),
    ]);
    let mut cache = DeclCache::new();
    assert!(resolve_counterparts(&idx, "greet", None, &uris[0], true, &mut cache).is_empty());
    idx.set_file(
        &uris[1],
        FileData {
            package: Some("other".to_owned()),
            text: "package other\nactual fun greet(name: String) {}".to_owned(),
        },
    );
    let mut cache = DeclCache::new();
    let results = resolve_counterparts(&idx, "greet", Some("test"), &uris[0], true, &mut cache);
    assert!(results.is_empty());
}

#[test]
fn marks_are_cached() {
    let (uris, idx) = index_multi(&[(
        "/src/androidMain/kotlin/Foo.kt",
        "package test\nactual fun greet(name: String) {}",
    )]);
    let mut cache = DeclCache::new();
    assert!(symbol_has_modifier(&idx, &uris[0], "greet", true, &mut cache));
    assert!(!symbol_has_modifier(&idx, &uris[0], "greet", false, &mut cache));
    assert!(!symbol_has_modifier(&idx, &uris[0], "missing", true, &mut cache));
    assert!(cache.contains_key(&uris[0]));
    assert_eq!(cache.len(), 1);
}

#[test]
fn the_cached_declarations_decide() {
    let (uris, idx) = index_multi(&[(
        "/src/androidMain/kotlin/Foo.kt",
        "package test\nactual fun greet(name: String) {}",
    )]);
    let mut cache = DeclCache::new();
    let other = parse_doc("expect fun greet()\nactual fun greet() {}");
    remember_declarations(&mut cache, &uris[0], Some(&other));
    let first = detect_expect_actual(&other)[0].2;
    assert_eq!(symbol_has_modifier(&idx, &uris[0], "greet", true, &mut cache), !first);
    assert_eq!(symbol_has_modifier(&idx, &uris[0], "greet", false, &mut cache), first);
    remember_declarations(&mut cache, &uris[0], None);
    assert!(!symbol_has_modifier(&idx, &uris[0], "greet", true, &mut cache));
    assert!(!symbol_has_modifier(&idx, &uris[0], "greet", false, &mut cache));
}

#[test]
fn lenses_go_by_what_was_read() {
    let (uris, idx) = index_multi(&[
        (
            "/src/commonMain/kotlin/Foo.kt",
            "package test\nexpect fun greet(name: String)",
        ),
        ("/src/jvmMain/kotlin/Foo.kt", "package test\nfun greet(name: String) {}"),
    ]);
    let symbols = vec![("greet".to_owned(), range(3, 0, 5), true)];
    let mut cache = DeclCache::new();
    assert!(lenses_at(&idx, &uris[0], &symbols, &mut cache).is_empty());
    assert!(cache.contains_key(&uris[1]) && !cache.contains_key(&uris[0]));
    let edited = parse_doc("package test\nactual fun greet(name: String) {}");
    remember_declarations(&mut cache, &uris[1], Some(&edited));
    let lenses = lenses_at(&idx, &uris[0], &symbols, &mut cache);
    assert_lens_for(&lenses, "JVM", "jvmMain");
    assert_eq!(lenses[0].range, range(3, 0, 5));
}

#[test]
fn compute_code_lens_kmp() {
    let common_src = "package test\nexpect fun greet(name: String)";
    let android_src = "package test\nactual fun greet(name: String) {}";
    let ios_src = "package test\nactual fun greet(name: String) {}";

    let (uris, mut idx) = index_multi(&[
        ("/src/commonMain/kotlin/Foo.kt", common_src),
        ("/src/androidMain/kotlin/Foo.kt", android_src),
        ("/src/iosMain/kotlin/Foo.kt", ios_src),
    ]);

    idx.store_live_tree(&uris[0], common_src);
    idx.store_live_tree(&uris[1], android_src);
    idx.store_live_tree(&uris[2], ios_src);

    let lenses = compute_code_lens(&idx, &uris[0]);
    assert_eq!(
        lenses.len(),
        2,
        "expected 2 lenses (android + ios), got {}",
        lenses.len()
    );

    assert_lens_for(&lenses, "Android", "androidMain");
    assert_lens_for(&lenses, "iOS", "iosMain");
    assert_eq!(lenses[0].range, range(1, 11, 16));
}

#[test]
fn lenses_lead_there_and_back() {
    let (uris, idx) = index_multi(&[
        (
            "/src/commonMain/kotlin/Foo.kt",
            "package test\nexpect fun greet(name: String)",
        ),
        (
            "/src/jvmMain/kotlin/Foo.kt",
            "package test\nactual fun greet(name: String) {}",
        ),
    ]);
    assert_lens_for(&compute_code_lens(&idx, &uris[0]), "JVM", "jvmMain");
    assert_lens_for(&compute_code_lens(&idx, &uris[1]), "common", "commonMain");
}

#[test]
fn only_kotlin_documents_have_lenses() {
    let idx = Indexer::new();
    assert_eq!(code_lens(&idx, "file:///a/Foo.java"), None);
    assert_eq!(code_lens(&idx, "file:///a/Foo.kt"), Some(vec![]));
    assert_eq!(code_lens(&idx, "file:///a/build.gradle.kts"), Some(vec![]));
    assert_eq!(code_lens(&idx, "file:///a/Foo.kt?x=.java"), Some(vec![]));
}

#[test]
fn a_lens_carries_its_target() {
    let target = Location { uri: uri("/b/Foo.kt"), range: range(7, 2, 9) };
    let lens = make_navigate_lens(range(1, 0, 5), "there", &target);
    let command = lens.command.unwrap();
    assert_eq!(lens.range, range(1, 0, 5));
    assert_eq!(command.title, "there");
    assert_eq!(command.command, GO_TO_LOCATIONS);
    let arguments = command.arguments.unwrap();
    assert_eq!(arguments.len(), 4);
    assert_eq!(arguments[0], JsonValue::Str(uri("/b/Foo.kt")));
    assert_eq!(
        arguments[1],
        JsonValue::pair("line", JsonValue::Unsigned(7), "character", JsonValue::Unsigned(2))
    );
    assert_eq!(arguments[3], JsonValue::Str("goto".to_owned()));
    let mut idx = Indexer::new();
    match execute_command_impl(&mut idx, None, &command.command, &arguments) {
        CommandStep::Open(document) => {
            assert_eq!(document.uri, uri("/b/Foo.kt"));
            assert_eq!(document.selection, Some(range(7, 2, 9)));
            assert_eq!(document.external, Some(false));
            assert_eq!(document.take_focus, Some(true));
        }
        other => panic!("expected a document, got {other:?}"),
    }
}
