//! Source sets of a multiplatform project, told by the names of their directories.

use crate::text::{
    ends_with, joined, pieces, same_text, split, starts_with, strip_suffix,
};
use vstd::prelude::*;

verus! {

/// The source sets that a directory's name tells by how it begins.
pub open spec fn platform_sets() -> Seq<Seq<char>> {
    seq![
        "common"@,
        "android"@,
        "apple"@,
        "ios"@,
        "jvm"@,
        "js"@,
        "native"@,
        "macos"@,
        "linux"@,
        "wasm"@,
    ]
}

/// The first of the listed texts that the name begins with.
pub open spec fn first_prefix(list: Seq<Seq<char>>, name: Seq<char>) -> Option<Seq<char>>
    decreases list.len(),
{
    if list.len() == 0 {
        None
    } else if list.first().is_prefix_of(name) {
        Some(list.first())
    } else {
        first_prefix(list.drop_first(), name)
    }
}

/// The name without the ending of a source set's directory.
pub open spec fn without_set_suffix(name: Seq<char>) -> Seq<char> {
    if "Main"@.is_suffix_of(name) {
        name.take(name.len() - "Main"@.len())
    } else if "Test"@.is_suffix_of(name) {
        name.take(name.len() - "Test"@.len())
    } else {
        name
    }
}

/// The source set that a directory's name stands for.
pub open spec fn set_of_name(name: Seq<char>) -> Seq<char> {
    match first_prefix(platform_sets(), name) {
        Some(platform) => platform,
        None => without_set_suffix(name),
    }
}

/// Whether a directory's name is that of a source set.
pub open spec fn names_set(name: Seq<char>) -> bool {
    "Main"@.is_suffix_of(name) || "Test"@.is_suffix_of(name)
}

/// The source set that the first source set's name in a list stands for.
pub open spec fn first_set(names: Seq<Seq<char>>) -> Option<Seq<char>>
    decreases names.len(),
{
    if names.len() == 0 {
        None
    } else if names_set(names.first()) {
        Some(set_of_name(names.first()))
    } else {
        first_set(names.drop_first())
    }
}

/// The source set that a document belongs to, told by the directories in its address.
pub open spec fn set_of_uri(uri: Seq<char>) -> Option<Seq<char>> {
    first_set(pieces(uri, '/'))
}

/// The label of a source set.
pub open spec fn label_of(set: Seq<char>) -> Seq<char> {
    if set == "common"@ {
        "\u{25C9} common"@
    } else if set == "android"@ {
        "\u{25A6} Android"@
    } else if set == "apple"@ {
        "\u{25C8} Apple"@
    } else if set == "ios"@ {
        "\u{25C7} iOS"@
    } else if set == "jvm"@ {
        "\u{2B22} JVM"@
    } else if set == "js"@ {
        "\u{2726} JS"@
    } else if set == "native"@ {
        "\u{25A0} Native"@
    } else if set == "macos"@ {
        "\u{25C7} macOS"@
    } else if set == "linux"@ {
        "\u{25B2} Linux"@
    } else if set == "wasm"@ {
        "\u{25A2} Wasm"@
    } else {
        "\u{25C8} "@ + set
    }
}

/// The source sets that a directory's name tells by how it begins.
fn platforms() -> (r: Vec<&'static str>)
    ensures
        r.deep_view() == platform_sets(),
{
    let list = vec![
        "common",
        "android",
        "apple",
        "ios",
        "jvm",
        "js",
        "native",
        "macos",
        "linux",
        "wasm",
    ];
    assert(list.deep_view() =~= platform_sets());
    list
}

/// Whether a directory's name is that of a source set.
pub fn is_source_set_name(name: &str) -> (r: bool)
    ensures
        r == names_set(name@),
{
    ends_with(name, "Main") || ends_with(name, "Test")
}

/// The source set that a directory's name stands for.
///
/// A name that begins with a known platform stands for that platform; any other loses its
/// ending `Main` or `Test`.
pub fn classify_source_set_name(name: &str) -> (r: String)
    ensures
        r@ == set_of_name(name@),
{
    let list = platforms();
    let ghost sets = platform_sets();
    let mut i: usize = 0;
    assert(sets.skip(0) =~= sets);
    while i < list.len()
        invariant
            i <= list@.len(),
            list.deep_view() == sets,
            first_prefix(sets.skip(i as int), name@) == first_prefix(sets, name@),
            sets == platform_sets(),
        decreases list.len() - i,
    {
        assert(list@[i as int]@ == sets[i as int]);
        assert(sets.skip(i as int).drop_first() =~= sets.skip(i + 1));
        if starts_with(name, list[i]) {
            return list[i].to_owned();
        }
        i += 1;
    }
    match strip_suffix(name, "Main") {
        Some(stem) => stem,
        None => match strip_suffix(name, "Test") {
            Some(stem) => stem,
            None => name.to_owned(),
        },
    }
}

/// The source set that a document belongs to: that of the first directory in its address whose
/// name ends in `Main` or `Test`.
pub fn classify_source_set(uri: &str) -> (r: Option<String>)
    ensures
        r.deep_view() == set_of_uri(uri@),
{
    let names = split(uri, '/');
    let ghost all = pieces(uri@, '/');
    let mut i: usize = 0;
    assert(all.skip(0) =~= all);
    while i < names.len()
        invariant
            i <= names@.len(),
            names.deep_view() == all,
            all == pieces(uri@, '/'),
            first_set(all.skip(i as int)) == first_set(all),
        decreases names.len() - i,
    {
        assert(names@[i as int]@ == all[i as int]);
        assert(all.skip(i as int).drop_first() =~= all.skip(i + 1));
        if is_source_set_name(&names[i]) {
            return Some(classify_source_set_name(&names[i]));
        }
        i += 1;
    }
    None
}

/// The label of a source set, with a sign of its own for each known platform.
pub fn target_label(target_set: &str) -> (r: String)
    ensures
        r@ == label_of(target_set@),
{
    if same_text(target_set, "common") {
        "\u{25C9} common".to_owned()
    } else if same_text(target_set, "android") {
        "\u{25A6} Android".to_owned()
    } else if same_text(target_set, "apple") {
        "\u{25C8} Apple".to_owned()
    } else if same_text(target_set, "ios") {
        "\u{25C7} iOS".to_owned()
    } else if same_text(target_set, "jvm") {
        "\u{2B22} JVM".to_owned()
    } else if same_text(target_set, "js") {
        "\u{2726} JS".to_owned()
    } else if same_text(target_set, "native") {
        "\u{25A0} Native".to_owned()
    } else if same_text(target_set, "macos") {
        "\u{25C7} macOS".to_owned()
    } else if same_text(target_set, "linux") {
        "\u{25B2} Linux".to_owned()
    } else if same_text(target_set, "wasm") {
        "\u{25A2} Wasm".to_owned()
    } else {
        joined("\u{25C8} ", target_set)
    }
}

/// A text that ends before a character does not begin past it.
proof fn lemma_prefix_stops(prefix: Seq<char>, stem: Seq<char>, ending: Seq<char>)
    requires
        ending.len() > 0,
        !prefix.contains(ending[0]),
    ensures
        prefix.is_prefix_of(stem + ending) <==> prefix.is_prefix_of(stem),
{
    let whole = stem + ending;
    if prefix.is_prefix_of(whole) {
        if prefix.len() > stem.len() {
            assert(prefix[stem.len() as int] == whole[stem.len() as int]);
            assert(prefix.contains(ending[0]));
        }
        assert(prefix =~= stem.subrange(0, prefix.len() as int));
    }
    if prefix.is_prefix_of(stem) {
        assert(prefix =~= whole.subrange(0, prefix.len() as int));
    }
}

proof fn lemma_first_prefix_stops(list: Seq<Seq<char>>, stem: Seq<char>, ending: Seq<char>)
    requires
        ending.len() > 0,
        forall|i: int| 0 <= i < list.len() ==> !(#[trigger] list[i]).contains(ending[0]),
    ensures
        first_prefix(list, stem + ending) == first_prefix(list, stem),
    decreases list.len(),
{
    if list.len() > 0 {
        assert(!list[0].contains(ending[0]));
        lemma_prefix_stops(list.first(), stem, ending);
        lemma_first_prefix_stops(list.drop_first(), stem, ending);
    }
}

/// The production and the test directory of a source set stand for the same source set.
pub proof fn main_and_test_alike(stem: Seq<char>)
    ensures
        set_of_name(stem + "Main"@) == set_of_name(stem + "Test"@),
{
    reveal_platform_names();
    reveal_strlit("Main");
    reveal_strlit("Test");
    lemma_first_prefix_stops(platform_sets(), stem, "Main"@);
    lemma_first_prefix_stops(platform_sets(), stem, "Test"@);
    let main = stem + "Main"@;
    let test = stem + "Test"@;
    assert(main.subrange(main.len() - 4, main.len() as int) =~= "Main"@);
    assert(test.subrange(test.len() - 4, test.len() as int) =~= "Test"@);
    assert(test.subrange(test.len() - 4, test.len() as int)[0] != "Main"@[0]);
    assert(main.take(main.len() - 4) =~= stem);
    assert(test.take(test.len() - 4) =~= stem);
}

/// The known platforms are written in lower case.
proof fn reveal_platform_names()
    ensures
        forall|i: int|
            0 <= i < platform_sets().len() ==> !(#[trigger] platform_sets()[i]).contains('M')
                && !platform_sets()[i].contains('T'),
{
    reveal_strlit("common");
    reveal_strlit("android");
    reveal_strlit("apple");
    reveal_strlit("ios");
    reveal_strlit("jvm");
    reveal_strlit("js");
    reveal_strlit("native");
    reveal_strlit("macos");
    reveal_strlit("linux");
    reveal_strlit("wasm");
}

proof fn lemma_first_prefix(list: Seq<Seq<char>>, name: Seq<char>, k: int)
    requires
        0 <= k < list.len(),
        list[k].is_prefix_of(name),
        forall|j: int| 0 <= j < k ==> !(#[trigger] list[j]).is_prefix_of(name),
    ensures
        first_prefix(list, name) == Some(list[k]),
    decreases k,
{
    if k > 0 {
        assert(!list[0].is_prefix_of(name));
        let rest = list.drop_first();
        assert forall|j: int| 0 <= j < k - 1 implies !(#[trigger] rest[j]).is_prefix_of(name) by {
            assert(rest[j] == list[j + 1]);
        }
        lemma_first_prefix(rest, name, k - 1);
    }
}

proof fn lemma_no_prefix(list: Seq<Seq<char>>, name: Seq<char>)
    requires
        forall|j: int| 0 <= j < list.len() ==> !(#[trigger] list[j]).is_prefix_of(name),
    ensures
        first_prefix(list, name) is None,
    decreases list.len(),
{
    if list.len() > 0 {
        assert(!list[0].is_prefix_of(name));
        let rest = list.drop_first();
        assert forall|j: int| 0 <= j < rest.len() implies !(#[trigger] rest[j]).is_prefix_of(
            name,
        ) by {
            assert(rest[j] == list[j + 1]);
        }
        lemma_no_prefix(rest, name);
    }
}

/// A text that begins with another shares its first characters.
proof fn lemma_begins_alike(start: Seq<char>, name: Seq<char>)
    requires
        start.is_prefix_of(name),
    ensures
        forall|i: int| 0 <= i < start.len() ==> #[trigger] start[i] == name[i],
{
    assert forall|i: int| 0 <= i < start.len() implies #[trigger] start[i] == name[i] by {
        assert(name.subrange(0, start.len() as int)[i] == name[i]);
    }
}

/// Whether a source set is that of a known platform, or the common one.
pub open spec fn is_known_platform(set: Seq<char>) -> bool {
    ||| set == "common"@
    ||| set == "android"@
    ||| set == "apple"@
    ||| set == "ios"@
    ||| set == "jvm"@
    ||| set == "js"@
    ||| set == "native"@
    ||| set == "macos"@
    ||| set == "linux"@
    ||| set == "wasm"@
}

/// A directory whose name begins with that of a known platform belongs to that platform, whatever
/// follows.
pub proof fn platforms_are_told_by_how_a_name_begins(name: Seq<char>, platform: Seq<char>)
    requires
        platform.is_prefix_of(name),
        is_known_platform(platform),
    ensures
        set_of_name(name) == platform,
{
    reveal_strlit("common");
    reveal_strlit("android");
    reveal_strlit("apple");
    reveal_strlit("ios");
    reveal_strlit("jvm");
    reveal_strlit("js");
    reveal_strlit("native");
    reveal_strlit("macos");
    reveal_strlit("linux");
    reveal_strlit("wasm");
    let sets = platform_sets();
    let k: int = if platform == "common"@ {
        0
    } else if platform == "android"@ {
        1
    } else if platform == "apple"@ {
        2
    } else if platform == "ios"@ {
        3
    } else if platform == "jvm"@ {
        4
    } else if platform == "js"@ {
        5
    } else if platform == "native"@ {
        6
    } else if platform == "macos"@ {
        7
    } else if platform == "linux"@ {
        8
    } else {
        9
    };
    assert(sets[k] == platform);
    lemma_begins_alike(platform, name);
    assert(platform[0] == name[0] && platform[1] == name[1]);
    assert forall|j: int| 0 <= j < k implies !(#[trigger] sets[j]).is_prefix_of(name) by {
        if sets[j].is_prefix_of(name) {
            lemma_begins_alike(sets[j], name);
            assert(sets[j][0] == name[0] && sets[j][1] == name[1]);
        }
    }
    lemma_first_prefix(sets, name, k);
}

/// A directory whose name begins with that of no known platform stands for the rest of its name,
/// once the ending `Main` or `Test` is taken away.
pub proof fn other_sets_are_told_by_the_stem(stem: Seq<char>)
    requires
        !"common"@.is_prefix_of(stem),
        !"android"@.is_prefix_of(stem),
        !"apple"@.is_prefix_of(stem),
        !"ios"@.is_prefix_of(stem),
        !"jvm"@.is_prefix_of(stem),
        !"js"@.is_prefix_of(stem),
        !"native"@.is_prefix_of(stem),
        !"macos"@.is_prefix_of(stem),
        !"linux"@.is_prefix_of(stem),
        !"wasm"@.is_prefix_of(stem),
    ensures
        set_of_name(stem + "Main"@) == stem,
        set_of_name(stem + "Test"@) == stem,
        !"Main"@.is_suffix_of(stem) && !"Test"@.is_suffix_of(stem) ==> set_of_name(stem) == stem,
{
    reveal_platform_names();
    reveal_strlit("Main");
    reveal_strlit("Test");
    lemma_no_prefix(platform_sets(), stem);
    lemma_first_prefix_stops(platform_sets(), stem, "Main"@);
    lemma_first_prefix_stops(platform_sets(), stem, "Test"@);
    let main = stem + "Main"@;
    let test = stem + "Test"@;
    assert(main.subrange(main.len() - 4, main.len() as int) =~= "Main"@);
    assert(test.subrange(test.len() - 4, test.len() as int) =~= "Test"@);
    assert(test.subrange(test.len() - 4, test.len() as int)[0] != "Main"@[0]);
    assert(main.take(main.len() - 4) =~= stem);
    assert(test.take(test.len() - 4) =~= stem);
}

proof fn lemma_first_set(names: Seq<Seq<char>>, i: int)
    requires
        0 <= i <= names.len(),
        forall|j: int|
            0 <= j < i ==> !"Main"@.is_suffix_of(#[trigger] names[j]) && !"Test"@.is_suffix_of(
                names[j],
            ),
    ensures
        i < names.len() && ("Main"@.is_suffix_of(names[i]) || "Test"@.is_suffix_of(names[i]))
            ==> first_set(names) == Some(set_of_name(names[i])),
        i == names.len() ==> first_set(names) is None,
    decreases i,
{
    if i > 0 {
        assert(!"Main"@.is_suffix_of(names[0]));
        let rest = names.drop_first();
        assert forall|j: int| 0 <= j < i - 1 implies !"Main"@.is_suffix_of(#[trigger] rest[j])
            && !"Test"@.is_suffix_of(rest[j]) by {
            assert(rest[j] == names[j + 1]);
        }
        lemma_first_set(rest, i - 1);
    }
}

/// Whether a directory is the first in an address whose name ends in `Main` or `Test`.
pub open spec fn is_first_set_directory(uri: Seq<char>, i: int) -> bool {
    let names = pieces(uri, '/');
    &&& 0 <= i < names.len()
    &&& "Main"@.is_suffix_of(names[i]) || "Test"@.is_suffix_of(names[i])
    &&& forall|j: int|
        0 <= j < i ==> !"Main"@.is_suffix_of(#[trigger] names[j]) && !"Test"@.is_suffix_of(names[j])
}

/// A document belongs to the source set of the first directory in its address whose name ends in
/// `Main` or `Test`, and to none where there is no such directory.
pub proof fn the_first_set_directory_decides(uri: Seq<char>, i: int)
    ensures
        is_first_set_directory(uri, i) ==> set_of_uri(uri) == Some(
            set_of_name(pieces(uri, '/')[i]),
        ),
        set_of_uri(uri) is None <==> forall|j: int|
            0 <= j < pieces(uri, '/').len() ==> !"Main"@.is_suffix_of(
                #[trigger] pieces(uri, '/')[j],
            ) && !"Test"@.is_suffix_of(pieces(uri, '/')[j]),
        set_of_uri(uri) is Some ==> exists|j: int| is_first_set_directory(uri, j),
{
    let names = pieces(uri, '/');
    if is_first_set_directory(uri, i) {
        lemma_first_set(names, i);
    }
    let first = lemma_some_set_directory(uri, names.len() as int);
    if first < names.len() {
        lemma_first_set(names, first);
        assert(is_first_set_directory(uri, first));
    } else {
        lemma_first_set(names, names.len() as int);
    }
}

/// The first place, below a bound, of a directory whose name ends in `Main` or `Test`, or else
/// the bound.
proof fn lemma_some_set_directory(uri: Seq<char>, bound: int) -> (first: int)
    requires
        0 <= bound <= pieces(uri, '/').len(),
    ensures
        0 <= first <= bound,
        first < bound ==> is_first_set_directory(uri, first),
        first == bound ==> forall|j: int|
            0 <= j < bound ==> !"Main"@.is_suffix_of(#[trigger] pieces(uri, '/')[j])
                && !"Test"@.is_suffix_of(pieces(uri, '/')[j]),
    decreases bound,
{
    if bound == 0 {
        0
    } else {
        let names = pieces(uri, '/');
        let first = lemma_some_set_directory(uri, bound - 1);
        if first < bound - 1 {
            first
        } else if "Main"@.is_suffix_of(names[bound - 1]) || "Test"@.is_suffix_of(
            names[bound - 1],
        ) {
            bound - 1
        } else {
            bound
        }
    }
}

/// Every known source set has a label of its own, and any other is labelled by its name.
pub proof fn labels_name_their_sets(set: Seq<char>)
    ensures
        label_of("common"@) == "\u{25C9} common"@,
        label_of("android"@) == "\u{25A6} Android"@,
        label_of("apple"@) == "\u{25C8} Apple"@,
        label_of("ios"@) == "\u{25C7} iOS"@,
        label_of("jvm"@) == "\u{2B22} JVM"@,
        label_of("js"@) == "\u{2726} JS"@,
        label_of("native"@) == "\u{25A0} Native"@,
        label_of("macos"@) == "\u{25C7} macOS"@,
        label_of("linux"@) == "\u{25B2} Linux"@,
        label_of("wasm"@) == "\u{25A2} Wasm"@,
        !is_known_platform(set) ==> label_of(set) == "\u{25C8} "@ + set,
{
    reveal_strlit("common");
    reveal_strlit("android");
    reveal_strlit("apple");
    reveal_strlit("ios");
    reveal_strlit("jvm");
    reveal_strlit("js");
    reveal_strlit("native");
    reveal_strlit("macos");
    reveal_strlit("linux");
    reveal_strlit("wasm");
    assert("common"@.len() == 6 && "native"@.len() == 6 && "common"@[0] != "native"@[0]);
    assert("android"@.len() == 7 && "ios"@.len() == 3 && "jvm"@.len() == 3 && "js"@.len() == 2);
    assert("ios"@[0] != "jvm"@[0]);
    assert("wasm"@.len() == 4);
    assert("apple"@.len() == 5 && "macos"@.len() == 5 && "linux"@.len() == 5);
    assert("apple"@[0] != "macos"@[0] && "apple"@[0] != "linux"@[0]);
    assert("macos"@[0] != "linux"@[0]);
}

}
