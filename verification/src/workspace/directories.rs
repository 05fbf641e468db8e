//! The directories above an opened file, and the workspace root that they tell.

use crate::paths::FilePath;
use crate::text::contains_text;
use vstd::prelude::*;

verus! {

/// A directory above an opened file. What a path is, is left to the caller.
pub struct DirectoryLevel<P> {
    pub path: P,
    /// Where the path leads once symbolic links are resolved.
    pub canonical: FilePath,
    /// The names that exist in the directory, among those that mark a root.
    pub entries: Vec<String>,
}

/// A directory and whether it holds a git repository.
pub struct GitLevel<P> {
    pub path: P,
    pub has_git: bool,
}

/// The name of the directory that holds a git repository.
pub const GIT_DIRECTORY: &'static str = ".git";

/// The files that mark the root of a build.
pub open spec fn strong_markers() -> Seq<Seq<char>> {
    seq![
        "build.gradle"@,
        "settings.gradle"@,
        "build.gradle.kts"@,
        "Cargo.toml"@,
        "pom.xml"@,
        "settings.gradle.kts"@,
    ]
}

/// The files that mark the root of a build where nothing else does.
pub open spec fn weak_markers() -> Seq<Seq<char>> {
    seq!["Package.swift"@]
}

/// Whether one of the markers is among the entries of a directory.
pub open spec fn holds_any(entries: Seq<Seq<char>>, markers: Seq<Seq<char>>) -> bool {
    exists|k: int| 0 <= k < markers.len() && entries.contains(#[trigger] markers[k])
}

/// The entries of the listed directories.
pub open spec fn entries_of<P>(levels: Seq<DirectoryLevel<P>>) -> Seq<Seq<Seq<char>>> {
    Seq::new(levels.len(), |i: int| levels[i].entries.deep_view())
}

/// The first of the directories that holds one of the markers.
pub open spec fn first_holding(
    levels: Seq<Seq<Seq<char>>>,
    markers: Seq<Seq<char>>,
) -> Option<int>
    decreases levels.len(),
{
    if levels.len() == 0 {
        None
    } else {
        match first_holding(levels.drop_last(), markers) {
            Some(i) => Some(i),
            None => if holds_any(levels.last(), markers) {
                Some(levels.len() - 1)
            } else {
                None
            },
        }
    }
}

/// The directory that is taken for the workspace root, of those above a file from the nearest
/// up: the nearest with a build marker within the git repository that the file lies in, or else
/// the root of that repository, or else the nearest with a weak marker, or else the nearest.
pub open spec fn detected_level(levels: Seq<Seq<Seq<char>>>) -> Option<int> {
    let repository = first_holding(levels, seq![GIT_DIRECTORY@]);
    let reach = match repository {
        Some(git) => levels.take(git + 1),
        None => levels,
    };
    match first_holding(reach, strong_markers()) {
        Some(i) => Some(i),
        None => match repository {
            Some(git) => Some(git),
            None => match first_holding(levels, weak_markers()) {
                Some(i) => Some(i),
                None => if levels.len() > 0 {
                    Some(0)
                } else {
                    None
                },
            },
        },
    }
}

/// The first of the directories that holds a git repository.
pub open spec fn first_repository<P>(levels: Seq<GitLevel<P>>) -> Option<int>
    decreases levels.len(),
{
    if levels.len() == 0 {
        None
    } else {
        match first_repository(levels.drop_last()) {
            Some(i) => Some(i),
            None => if levels.last().has_git {
                Some(levels.len() - 1)
            } else {
                None
            },
        }
    }
}

/// The first of the directories that holds a git repository, or else the first.
pub open spec fn git_level<P>(levels: Seq<GitLevel<P>>) -> int {
    match first_repository(levels) {
        Some(i) => i,
        None => 0,
    }
}

proof fn lemma_first_holding(levels: Seq<Seq<Seq<char>>>, markers: Seq<Seq<char>>)
    ensures
        match first_holding(levels, markers) {
            Some(i) => {
                &&& 0 <= i < levels.len()
                &&& holds_any(levels[i], markers)
                &&& forall|j: int| 0 <= j < i ==> !holds_any(#[trigger] levels[j], markers)
            },
            None => forall|j: int|
                0 <= j < levels.len() ==> !holds_any(#[trigger] levels[j], markers),
        },
    decreases levels.len(),
{
    if levels.len() > 0 {
        let before = levels.drop_last();
        lemma_first_holding(before, markers);
        assert forall|j: int| 0 <= j < before.len() implies #[trigger] levels[j]
            == before[j] by {}
    }
}

proof fn lemma_detected_level(levels: Seq<Seq<Seq<char>>>)
    ensures
        match detected_level(levels) {
            Some(i) => 0 <= i < levels.len(),
            None => levels.len() == 0,
        },
{
    lemma_first_holding(levels, seq![GIT_DIRECTORY@]);
    lemma_first_holding(levels, strong_markers());
    lemma_first_holding(levels, weak_markers());
    if let Some(git) = first_holding(levels, seq![GIT_DIRECTORY@]) {
        lemma_first_holding(levels.take(git + 1), strong_markers());
    }
}

/// The directory taken for the workspace root never lies above the git repository that the file
/// lies in, and within it no directory nearer to the file has a build marker.
pub proof fn detected_root_is_the_nearest_build(levels: Seq<Seq<Seq<char>>>, i: int, j: int)
    requires
        detected_level(levels) == Some(i),
        0 <= j < levels.len(),
    ensures
        holds_any(levels[j], seq![GIT_DIRECTORY@]) ==> i <= j,
        j < i ==> !holds_any(levels[j], strong_markers()),
{
    lemma_first_holding(levels, seq![GIT_DIRECTORY@]);
    lemma_first_holding(levels, strong_markers());
    lemma_first_holding(levels, weak_markers());
    if let Some(git) = first_holding(levels, seq![GIT_DIRECTORY@]) {
        let reach = levels.take(git + 1);
        lemma_first_holding(reach, strong_markers());
        if j < git + 1 {
            assert(reach[j] == levels[j]);
        }
    }
}

/// The files that mark the root of a build.
pub fn strong_build_markers() -> (r: Vec<String>)
    ensures
        r.deep_view() == strong_markers(),
{
    let mut list: Vec<String> = Vec::new();
    list.push("build.gradle".to_owned());
    list.push("settings.gradle".to_owned());
    list.push("build.gradle.kts".to_owned());
    list.push("Cargo.toml".to_owned());
    list.push("pom.xml".to_owned());
    list.push("settings.gradle.kts".to_owned());
    assert(list.deep_view() =~= strong_markers());
    list
}

/// The files that mark the root of a build where nothing else does.
pub fn weak_build_markers() -> (r: Vec<String>)
    ensures
        r.deep_view() == weak_markers(),
{
    let mut list: Vec<String> = Vec::new();
    list.push("Package.swift".to_owned());
    assert(list.deep_view() =~= weak_markers());
    list
}

/// Whether one of the markers is among the entries of a directory.
pub fn has_any_marker(entries: &Vec<String>, markers: &Vec<String>) -> (r: bool)
    ensures
        r == holds_any(entries.deep_view(), markers.deep_view()),
{
    let ghost wanted = markers.deep_view();
    let mut k: usize = 0;
    while k < markers.len()
        invariant
            k <= markers@.len(),
            wanted == markers.deep_view(),
            forall|j: int| 0 <= j < k ==> !entries.deep_view().contains(#[trigger] wanted[j]),
        decreases markers.len() - k,
    {
        assert(wanted[k as int] == markers@[k as int]@);
        if contains_text(entries, &markers[k]) {
            return true;
        }
        k += 1;
    }
    false
}

/// The first of the nearest directories that holds one of the markers.
fn first_level_holding<P>(
    levels: &Vec<DirectoryLevel<P>>,
    count: usize,
    markers: &Vec<String>,
) -> (r: Option<usize>)
    requires
        count <= levels@.len(),
    ensures
        match r {
            Some(i) => first_holding(
                entries_of(levels@).take(count as int),
                markers.deep_view(),
            ) == Some(i as int),
            None => first_holding(entries_of(levels@).take(count as int), markers.deep_view())
                is None,
        },
{
    let ghost all = entries_of(levels@).take(count as int);
    let mut i: usize = 0;
    assert(all.take(0) =~= Seq::<Seq<Seq<char>>>::empty());
    while i < count
        invariant
            i <= count <= levels@.len(),
            all == entries_of(levels@).take(count as int),
            first_holding(all.take(i as int), markers.deep_view()) is None,
        decreases count - i,
    {
        assert(all[i as int] == levels@[i as int].entries.deep_view());
        assert(all.take(i + 1).drop_last() =~= all.take(i as int));
        if has_any_marker(&levels[i].entries, markers) {
            proof {
                lemma_first_holding(all, markers.deep_view());
                lemma_first_holding(all.take(i + 1), markers.deep_view());
                let first = first_holding(all, markers.deep_view())->0;
                assert(all.take(i + 1)[i as int] == all[i as int]);
                if first < i {
                    assert(all.take(i + 1)[first] == all[first]);
                }
            }
            return Some(i);
        }
        i += 1;
    }
    assert(all.take(i as int) =~= all);
    None
}

/// The directory that is taken for the workspace root, of those above an opened file.
pub fn auto_detect_workspace_root<P>(levels: &Vec<DirectoryLevel<P>>) -> (r: Option<usize>)
    ensures
        match r {
            Some(i) => i < levels@.len() && detected_level(entries_of(levels@)) == Some(i as int),
            None => levels@.len() == 0 && detected_level(entries_of(levels@)) is None,
        },
{
    let ghost all = entries_of(levels@);
    proof {
        lemma_detected_level(all);
        lemma_first_holding(all, seq![GIT_DIRECTORY@]);
        assert(all.take(all.len() as int) =~= all);
    }
    let mut git_marker: Vec<String> = Vec::new();
    git_marker.push(GIT_DIRECTORY.to_owned());
    assert(git_marker.deep_view() =~= seq![GIT_DIRECTORY@]);
    let git_root = first_level_holding(levels, levels.len(), &git_marker);
    let reach: usize = match git_root {
        Some(git) => git + 1,
        None => levels.len(),
    };
    let strong = first_level_holding(levels, reach, &strong_build_markers());
    if strong.is_some() {
        return strong;
    }
    if git_root.is_some() {
        return git_root;
    }
    let weak = first_level_holding(levels, levels.len(), &weak_build_markers());
    if weak.is_some() {
        return weak;
    }
    if levels.len() > 0 {
        Some(0)
    } else {
        None
    }
}

/// Once a repository was found, directories further up do not change what is found.
proof fn lemma_repository_stays<P>(levels: Seq<GitLevel<P>>, count: int)
    requires
        0 <= count <= levels.len(),
        first_repository(levels.take(count)) is Some,
    ensures
        first_repository(levels) == first_repository(levels.take(count)),
    decreases levels.len(),
{
    if count == levels.len() {
        assert(levels.take(count) =~= levels);
    } else {
        assert(levels.drop_last().take(count) =~= levels.take(count));
        lemma_repository_stays(levels.drop_last(), count);
    }
}

/// The nearest of a directory and those above it that holds a git repository, or else the
/// directory itself.
pub fn walk_up_to_git_root<P>(levels: Vec<GitLevel<P>>) -> (r: P)
    requires
        levels@.len() > 0,
    ensures
        r == levels@[git_level(levels@)].path,
{
    let ghost all = levels@;
    let mut i: usize = 0;
    assert(all.take(0) =~= Seq::<GitLevel<P>>::empty());
    while i < levels.len() && !levels[i].has_git
        invariant
            i <= levels@.len(),
            levels@ == all,
            first_repository(all.take(i as int)) is None,
        decreases levels.len() - i,
    {
        assert(all.take(i + 1).drop_last() =~= all.take(i as int));
        i += 1;
    }
    let mut found: usize = 0;
    if i < levels.len() {
        found = i;
        proof {
            assert(all.take(i + 1).drop_last() =~= all.take(i as int));
            lemma_repository_stays(all, i + 1);
        }
    } else {
        assert(all.take(i as int) =~= all);
    }
    let mut levels = levels;
    levels.swap_remove(found).path
}

/// Whether a directory holds a file that marks the root of a build.
pub open spec fn is_built(entries: Seq<Seq<char>>) -> bool {
    ||| entries.contains("build.gradle"@)
    ||| entries.contains("build.gradle.kts"@)
    ||| entries.contains("settings.gradle"@)
    ||| entries.contains("settings.gradle.kts"@)
    ||| entries.contains("pom.xml"@)
    ||| entries.contains("Cargo.toml"@)
}

/// Whether no directory before the given one holds a git repository.
pub open spec fn is_in_repository(levels: Seq<Seq<Seq<char>>>, i: int) -> bool {
    forall|j: int| 0 <= j < i ==> !(#[trigger] levels[j]).contains(".git"@)
}

proof fn lemma_markers(entries: Seq<Seq<char>>)
    ensures
        holds_any(entries, strong_markers()) <==> is_built(entries),
        holds_any(entries, weak_markers()) <==> entries.contains("Package.swift"@),
        holds_any(entries, seq![GIT_DIRECTORY@]) <==> entries.contains(".git"@),
{
    let strong = strong_markers();
    assert(strong[0] == "build.gradle"@);
    assert(strong[1] == "settings.gradle"@);
    assert(strong[2] == "build.gradle.kts"@);
    assert(strong[3] == "Cargo.toml"@);
    assert(strong[4] == "pom.xml"@);
    assert(strong[5] == "settings.gradle.kts"@);
    assert(weak_markers()[0] == "Package.swift"@);
    assert(seq![GIT_DIRECTORY@][0] == ".git"@);
}

/// Where a directory above a file is built, and no nearer one is built or holds a git
/// repository, it is taken for the workspace root.
pub proof fn the_nearest_build_is_the_root(levels: Seq<Seq<Seq<char>>>, i: int)
    requires
        0 <= i < levels.len(),
        is_built(levels[i]),
        is_in_repository(levels, i),
        forall|j: int| 0 <= j < i ==> !is_built(#[trigger] levels[j]),
    ensures
        detected_level(levels) == Some(i),
{
    lemma_all_markers(levels);
    lemma_first_holding(levels, seq![GIT_DIRECTORY@]);
    lemma_first_holding(levels, strong_markers());
    if let Some(git) = first_holding(levels, seq![GIT_DIRECTORY@]) {
        let reach = levels.take(git + 1);
        lemma_first_holding(reach, strong_markers());
        if git < i {
            assert(levels[git].contains(".git"@));
        }
        assert(reach[i] == levels[i]);
        let first = first_holding(reach, strong_markers())->0;
        assert(reach[first] == levels[first]);
    }
}

proof fn lemma_all_markers(levels: Seq<Seq<Seq<char>>>)
    ensures
        forall|j: int|
            0 <= j < levels.len() ==> {
                &&& holds_any(#[trigger] levels[j], strong_markers()) <==> is_built(levels[j])
                &&& holds_any(levels[j], weak_markers()) <==> levels[j].contains("Package.swift"@)
                &&& holds_any(levels[j], seq![GIT_DIRECTORY@]) <==> levels[j].contains(".git"@)
            },
{
    assert forall|j: int| 0 <= j < levels.len() implies {
        &&& holds_any(#[trigger] levels[j], strong_markers()) <==> is_built(levels[j])
        &&& holds_any(levels[j], weak_markers()) <==> levels[j].contains("Package.swift"@)
        &&& holds_any(levels[j], seq![GIT_DIRECTORY@]) <==> levels[j].contains(".git"@)
    } by {
        lemma_markers(levels[j]);
    }
}

/// Where no directory within the git repository that a file lies in is built, the root of the
/// repository is taken for the workspace root.
pub proof fn a_repository_without_builds_is_the_root(levels: Seq<Seq<Seq<char>>>, i: int)
    requires
        0 <= i < levels.len(),
        levels[i].contains(".git"@),
        is_in_repository(levels, i),
        forall|j: int| 0 <= j <= i ==> !is_built(#[trigger] levels[j]),
    ensures
        detected_level(levels) == Some(i),
{
    lemma_all_markers(levels);
    lemma_first_holding(levels, seq![GIT_DIRECTORY@]);
    let git = first_holding(levels, seq![GIT_DIRECTORY@])->0;
    assert(holds_any(levels[i], seq![GIT_DIRECTORY@]));
    assert(git == i);
    let reach = levels.take(git + 1);
    lemma_first_holding(reach, strong_markers());
    if let Some(first) = first_holding(reach, strong_markers()) {
        assert(reach[first] == levels[first]);
    }
}

/// Where no directory above a file is built or holds a git repository, the nearest with a Swift
/// package is taken for the workspace root, and where there is none of those either, the nearest
/// directory. Of no directory none is taken.
pub proof fn elsewhere_the_nearest_package_or_directory_is_the_root(
    levels: Seq<Seq<Seq<char>>>,
    i: int,
)
    requires
        forall|j: int|
            0 <= j < levels.len() ==> !is_built(#[trigger] levels[j]) && !levels[j].contains(
                ".git"@,
            ),
    ensures
        0 <= i < levels.len() && levels[i].contains("Package.swift"@) && (forall|j: int|
            0 <= j < i ==> !(#[trigger] levels[j]).contains("Package.swift"@))
            ==> detected_level(levels) == Some(i),
        levels.len() > 0 && (forall|j: int|
            0 <= j < levels.len() ==> !(#[trigger] levels[j]).contains("Package.swift"@))
            ==> detected_level(levels) == Some(0int),
        levels.len() == 0 ==> detected_level(levels) is None,
{
    lemma_all_markers(levels);
    lemma_first_holding(levels, seq![GIT_DIRECTORY@]);
    lemma_first_holding(levels, strong_markers());
    lemma_first_holding(levels, weak_markers());
}

proof fn lemma_first_repository<P>(levels: Seq<GitLevel<P>>)
    ensures
        match first_repository(levels) {
            Some(i) => {
                &&& 0 <= i < levels.len()
                &&& levels[i].has_git
                &&& forall|j: int| 0 <= j < i ==> !(#[trigger] levels[j]).has_git
            },
            None => forall|j: int| 0 <= j < levels.len() ==> !(#[trigger] levels[j]).has_git,
        },
    decreases levels.len(),
{
    if levels.len() > 0 {
        let before = levels.drop_last();
        lemma_first_repository(before);
        assert forall|j: int| 0 <= j < before.len() implies #[trigger] levels[j]
            == before[j] by {}
    }
}

/// Of a directory and those above it, the nearest that holds a git repository is the root, and
/// where none does, the directory itself is.
pub proof fn the_nearest_repository_is_the_root<P>(levels: Seq<GitLevel<P>>, i: int)
    ensures
        0 <= i < levels.len() && levels[i].has_git && (forall|j: int|
            0 <= j < i ==> !(#[trigger] levels[j]).has_git) ==> git_level(levels) == i,
        (forall|j: int| 0 <= j < levels.len() ==> !(#[trigger] levels[j]).has_git) ==> git_level(
            levels,
        ) == 0,
{
    lemma_first_repository(levels);
}

}
