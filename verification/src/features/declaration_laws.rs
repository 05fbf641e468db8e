//! What holds of marked declarations, stated over the nodes of the tree and the text they cover.

use crate::features::declarations::{
    child_name, first_mark, first_modifier_mark, first_of_kind, mark_of_decl, mark_of_node,
    marked_among, marked_at, marked_decls, name_of_decl, range_of, MarkedDeclModel,
};
use crate::laws::{comes_first, walks_go_down_and_from_right_to_left};
use crate::protocol::Range;
use crate::syntax::{
    children_of, covered_text, is_document_tree, is_parent, lemma_children_below, visit, DocModel,
    NodeFacts,
};
use crate::text::trimmed;
use vstd::prelude::*;
use vstd::utf8::{decode_utf8, valid_utf8};

verus! {

/// Whether a node covers a word, with no more than white space around it.
pub open spec fn reads(bytes: Seq<u8>, node: NodeFacts, word: Seq<char>) -> bool {
    let covered = bytes.subrange(node.start_byte as int, node.end_byte as int);
    valid_utf8(covered) && trimmed(decode_utf8(covered)) == word
}

/// Whether a node covers one of the two words that mark a declaration.
pub open spec fn reads_a_mark(bytes: Seq<u8>, node: NodeFacts) -> bool {
    reads(bytes, node, "expect"@) || reads(bytes, node, "actual"@)
}

/// Whether a node stands in the given list of modifiers of a declaration.
pub open spec fn stands_in_modifiers(
    nodes: Seq<NodeFacts>,
    decl: int,
    modifiers: int,
    node: int,
) -> bool {
    &&& is_parent(nodes, decl, modifiers)
    &&& nodes[modifiers].kind == "modifiers"@
    &&& is_parent(nodes, modifiers, node)
}

/// Whether a node is one of the modifiers of a declaration.
pub open spec fn is_modifier_of(nodes: Seq<NodeFacts>, decl: int, node: int) -> bool {
    exists|modifiers: int| stands_in_modifiers(nodes, decl, modifiers, node)
}

/// Whether a node is the first of the modifiers of a declaration that covers a mark.
pub open spec fn is_first_mark_of(
    bytes: Seq<u8>,
    nodes: Seq<NodeFacts>,
    decl: int,
    node: int,
) -> bool {
    &&& is_modifier_of(nodes, decl, node)
    &&& reads_a_mark(bytes, nodes[node])
    &&& forall|earlier: int|
        earlier < node && #[trigger] is_modifier_of(nodes, decl, earlier) ==> !reads_a_mark(
            bytes,
            nodes[earlier],
        )
}

proof fn lemma_mark_of_node(bytes: Seq<u8>, node: NodeFacts)
    ensures
        mark_of_node(bytes, node) is Some <==> reads_a_mark(bytes, node),
        mark_of_node(bytes, node) is Some ==> mark_of_node(bytes, node)->0 == reads(
            bytes,
            node,
            "expect"@,
        ),
{
    reveal_strlit("expect");
    reveal_strlit("actual");
    assert("expect"@[0] != "actual"@[0]);
}

proof fn lemma_first_mark(bytes: Seq<u8>, nodes: Seq<NodeFacts>, list: Seq<usize>)
    ensures
        first_mark(bytes, nodes, list) is None ==> forall|t: int|
            0 <= t < list.len() ==> !reads_a_mark(bytes, nodes[#[trigger] list[t] as int]),
        first_mark(bytes, nodes, list) matches Some(mark) ==> exists|t: int|
            0 <= t < list.len() && reads_a_mark(bytes, nodes[#[trigger] list[t] as int]) && mark
                == reads(bytes, nodes[list[t] as int], "expect"@) && forall|u: int|
                0 <= u < t ==> !reads_a_mark(bytes, nodes[#[trigger] list[u] as int]),
    decreases list.len(),
{
    if list.len() > 0 {
        let rest = list.drop_first();
        lemma_mark_of_node(bytes, nodes[list[0] as int]);
        lemma_first_mark(bytes, nodes, rest);
        if mark_of_node(bytes, nodes[list[0] as int]) is None {
            if let Some(mark) = first_mark(bytes, nodes, rest) {
                let t = choose|t: int|
                    0 <= t < rest.len() && reads_a_mark(bytes, nodes[#[trigger] rest[t] as int])
                        && mark == reads(bytes, nodes[rest[t] as int], "expect"@) && forall|u: int|
                        0 <= u < t ==> !reads_a_mark(bytes, nodes[#[trigger] rest[u] as int]);
                assert(list[t + 1] == rest[t]);
                assert forall|u: int| 0 <= u < t + 1 implies !reads_a_mark(
                    bytes,
                    nodes[#[trigger] list[u] as int],
                ) by {
                    if u > 0 {
                        assert(rest[u - 1] == list[u]);
                    }
                }
            } else {
                assert forall|u: int| 0 <= u < list.len() implies !reads_a_mark(
                    bytes,
                    nodes[#[trigger] list[u] as int],
                ) by {
                    if u > 0 {
                        assert(rest[u - 1] == list[u]);
                    }
                }
            }
        } else {
            assert(reads_a_mark(bytes, nodes[list[0] as int]));
        }
    }
}

/// The mark among the modifiers that a node holds, where it is a list of modifiers.
spec fn mark_in(bytes: Seq<u8>, nodes: Seq<NodeFacts>, child: int) -> Option<bool> {
    if nodes[child].kind == "modifiers"@ {
        first_mark(bytes, nodes, children_of(nodes, child))
    } else {
        None
    }
}

proof fn lemma_first_modifier_mark(bytes: Seq<u8>, nodes: Seq<NodeFacts>, list: Seq<usize>)
    ensures
        first_modifier_mark(bytes, nodes, list) is None ==> forall|t: int|
            0 <= t < list.len() ==> mark_in(bytes, nodes, #[trigger] list[t] as int) is None,
        first_modifier_mark(bytes, nodes, list) matches Some(mark) ==> exists|t: int|
            0 <= t < list.len() && mark_in(bytes, nodes, #[trigger] list[t] as int) == Some(mark)
                && forall|u: int|
                0 <= u < t ==> mark_in(bytes, nodes, #[trigger] list[u] as int) is None,
    decreases list.len(),
{
    if list.len() > 0 {
        let rest = list.drop_first();
        lemma_first_modifier_mark(bytes, nodes, rest);
        let child = list[0] as int;
        if mark_in(bytes, nodes, child) is None {
            if let Some(mark) = first_modifier_mark(bytes, nodes, rest) {
                let t = choose|t: int|
                    0 <= t < rest.len() && mark_in(bytes, nodes, #[trigger] rest[t] as int) == Some(
                        mark,
                    ) && forall|u: int|
                        0 <= u < t ==> mark_in(bytes, nodes, #[trigger] rest[u] as int) is None;
                assert(list[t + 1] == rest[t]);
                assert forall|u: int| 0 <= u < t + 1 implies mark_in(
                    bytes,
                    nodes,
                    #[trigger] list[u] as int,
                ) is None by {
                    if u > 0 {
                        assert(rest[u - 1] == list[u]);
                    }
                }
            } else {
                assert forall|u: int| 0 <= u < list.len() implies mark_in(
                    bytes,
                    nodes,
                    #[trigger] list[u] as int,
                ) is None by {
                    if u > 0 {
                        assert(rest[u - 1] == list[u]);
                    }
                }
            }
        } else {
            assert(mark_in(bytes, nodes, list[0] as int) is Some);
        }
    }
}

/// Modifiers of an earlier list stand before those of a later one.
proof fn lemma_modifiers_in_order(
    nodes: Seq<NodeFacts>,
    decl: int,
    first: int,
    second: int,
    a: int,
    b: int,
)
    requires
        stands_in_modifiers(nodes, decl, first, a),
        stands_in_modifiers(nodes, decl, second, b),
        first < second,
    ensures
        a < second < b,
{
    assert(nodes[first].depth >= nodes[second].depth);
    if a > second {
        assert(nodes[second].depth >= nodes[a].depth);
    }
    if a == second {
        assert(nodes[first].depth < nodes[a].depth);
    }
}

/// A declaration is marked exactly where one of its modifiers, wherever it stands among them,
/// covers the word `expect` or `actual`. The first such modifier tells which mark it is.
pub proof fn the_first_word_among_the_modifiers_marks(
    bytes: Seq<u8>,
    nodes: Seq<NodeFacts>,
    decl: int,
)
    requires
        0 <= decl < nodes.len() <= usize::MAX,
    ensures
        mark_of_decl(bytes, nodes, decl) is Some <==> exists|node: int| #[trigger]
            is_modifier_of(nodes, decl, node) && reads_a_mark(bytes, nodes[node]),
        mark_of_decl(bytes, nodes, decl) is Some ==> exists|node: int|
            is_first_mark_of(bytes, nodes, decl, node),
        forall|node: int| #[trigger]
            is_first_mark_of(bytes, nodes, decl, node) ==> mark_of_decl(bytes, nodes, decl) == Some(
                reads(bytes, nodes[node], "expect"@),
            ),
{
    let list = children_of(nodes, decl);
    lemma_children_below(nodes, decl, nodes.len());
    lemma_first_modifier_mark(bytes, nodes, list);
    match mark_of_decl(bytes, nodes, decl) {
        Some(mark) => {
            let t = choose|t: int|
                0 <= t < list.len() && mark_in(bytes, nodes, #[trigger] list[t] as int) == Some(
                    mark,
                ) && forall|u: int|
                    0 <= u < t ==> mark_in(bytes, nodes, #[trigger] list[u] as int) is None;
            let modifiers = list[t] as int;
            let words = children_of(nodes, modifiers);
            assert(is_parent(nodes, decl, modifiers));
            lemma_children_below(nodes, modifiers, nodes.len());
            lemma_first_mark(bytes, nodes, words);
            let s = choose|s: int|
                0 <= s < words.len() && reads_a_mark(bytes, nodes[#[trigger] words[s] as int])
                    && mark == reads(bytes, nodes[words[s] as int], "expect"@) && forall|u: int|
                    0 <= u < s ==> !reads_a_mark(bytes, nodes[#[trigger] words[u] as int]);
            let found = words[s] as int;
            assert(stands_in_modifiers(nodes, decl, modifiers, found));
            assert(is_modifier_of(nodes, decl, found));
            assert forall|earlier: int|
                earlier < found && #[trigger] is_modifier_of(
                    nodes,
                    decl,
                    earlier,
                ) implies !reads_a_mark(bytes, nodes[earlier]) by {
                let other = choose|other: int| stands_in_modifiers(nodes, decl, other, earlier);
                lemma_stands_unmarked(bytes, nodes, decl, list, t, words, s, other, earlier);
            }
            assert(is_first_mark_of(bytes, nodes, decl, found));
            assert forall|node: int| #[trigger]
                is_first_mark_of(bytes, nodes, decl, node) implies mark == reads(
                bytes,
                nodes[node],
                "expect"@,
            ) by {
                if node < found {
                    assert(is_modifier_of(nodes, decl, node));
                } else if found < node {
                    assert(is_modifier_of(nodes, decl, found));
                }
            }
        },
        None => {
            assert forall|node: int| #[trigger]
                is_modifier_of(nodes, decl, node) implies !reads_a_mark(bytes, nodes[node]) by {
                let modifiers = choose|modifiers: int|
                    stands_in_modifiers(nodes, decl, modifiers, node);
                assert(list.contains(modifiers as usize));
                let t = choose|t: int| 0 <= t < list.len() && list[t] == modifiers as usize;
                assert(mark_in(bytes, nodes, list[t] as int) is None);
                let words = children_of(nodes, modifiers);
                lemma_children_below(nodes, modifiers, nodes.len());
                lemma_first_mark(bytes, nodes, words);
                assert(words.contains(node as usize));
                let s = choose|s: int| 0 <= s < words.len() && words[s] == node as usize;
                assert(!reads_a_mark(bytes, nodes[words[s] as int]));
            }
        },
    }
}

/// A modifier that stands before the first marked one found is not marked.
proof fn lemma_stands_unmarked(
    bytes: Seq<u8>,
    nodes: Seq<NodeFacts>,
    decl: int,
    list: Seq<usize>,
    t: int,
    words: Seq<usize>,
    s: int,
    modifiers: int,
    node: int,
)
    requires
        0 <= decl < nodes.len() <= usize::MAX,
        list == children_of(nodes, decl),
        0 <= t < list.len(),
        words == children_of(nodes, list[t] as int),
        0 <= s < words.len(),
        forall|u: int| 0 <= u < t ==> mark_in(bytes, nodes, #[trigger] list[u] as int) is None,
        forall|u: int| 0 <= u < s ==> !reads_a_mark(bytes, nodes[#[trigger] words[u] as int]),
        stands_in_modifiers(nodes, decl, list[t] as int, words[s] as int),
        stands_in_modifiers(nodes, decl, modifiers, node),
        node < words[s],
    ensures
        !reads_a_mark(bytes, nodes[node]),
{
    let chosen = list[t] as int;
    lemma_children_below(nodes, decl, nodes.len());
    lemma_children_below(nodes, modifiers, nodes.len());
    if chosen < modifiers {
        lemma_modifiers_in_order(nodes, decl, chosen, modifiers, words[s] as int, node);
    } else if modifiers == chosen {
        assert(words.contains(node as usize));
        let u = choose|u: int| 0 <= u < words.len() && words[u] == node as usize;
        if u >= s && u != s {
            assert(words[s] < words[u]);
        }
        assert(!reads_a_mark(bytes, nodes[words[u] as int]));
    } else {
        assert(list.contains(modifiers as usize));
        let u = choose|u: int| 0 <= u < list.len() && list[u] == modifiers as usize;
        if u > t {
            assert(list[t] < list[u]);
        }
        assert(mark_in(bytes, nodes, list[u] as int) is None);
        let others = children_of(nodes, modifiers);
        lemma_first_mark(bytes, nodes, others);
        assert(others.contains(node as usize));
        let v = choose|v: int| 0 <= v < others.len() && others[v] == node as usize;
        assert(!reads_a_mark(bytes, nodes[others[v] as int]));
    }
}

/// Whether a node is the first child of another that has the given kind.
pub open spec fn is_first_child(
    nodes: Seq<NodeFacts>,
    parent: int,
    child: int,
    kind: Seq<char>,
) -> bool {
    &&& is_parent(nodes, parent, child)
    &&& nodes[child].kind == kind
    &&& forall|earlier: int|
        earlier < child && #[trigger] is_parent(nodes, parent, earlier) ==> nodes[earlier].kind
            != kind
}

proof fn lemma_first_of_kind(nodes: Seq<NodeFacts>, list: Seq<usize>, kind: Seq<char>)
    ensures
        match first_of_kind(nodes, list, kind) {
            Some(child) => exists|t: int|
                0 <= t < list.len() && #[trigger] list[t] == child && nodes[child as int].kind
                    == kind && forall|u: int|
                    0 <= u < t ==> nodes[#[trigger] list[u] as int].kind != kind,
            None => forall|u: int|
                0 <= u < list.len() ==> nodes[#[trigger] list[u] as int].kind != kind,
        },
    decreases list.len(),
{
    if list.len() > 0 {
        let rest = list.drop_first();
        lemma_first_of_kind(nodes, rest, kind);
        if nodes[list[0] as int].kind == kind {
            assert(list[0] == list.first());
        } else {
            assert forall|u: int| 0 <= u < rest.len() implies #[trigger] rest[u] == list[u + 1] by {}
            if let Some(child) = first_of_kind(nodes, rest, kind) {
                let t = choose|t: int|
                    0 <= t < rest.len() && #[trigger] rest[t] == child && nodes[child as int].kind
                        == kind && forall|u: int|
                        0 <= u < t ==> nodes[#[trigger] rest[u] as int].kind != kind;
                assert(list[t + 1] == child);
                assert forall|u: int| 0 <= u < t + 1 implies nodes[#[trigger] list[u] as int].kind
                    != kind by {
                    if u > 0 {
                        assert(rest[u - 1] == list[u]);
                    }
                }
            } else {
                assert forall|u: int| 0 <= u < list.len() implies nodes[#[trigger] list[u] as int].kind
                    != kind by {
                    if u > 0 {
                        assert(rest[u - 1] == list[u]);
                    }
                }
            }
        }
    }
}

/// The child that is looked for by its kind is the first of that kind.
pub proof fn the_first_child_of_a_kind_is_found(nodes: Seq<NodeFacts>, parent: int, kind: Seq<char>)
    requires
        0 <= parent < nodes.len() <= usize::MAX,
    ensures
        forall|child: usize|
            first_of_kind(nodes, children_of(nodes, parent), kind) == Some(child)
                <==> #[trigger] is_first_child(nodes, parent, child as int, kind),
        first_of_kind(nodes, children_of(nodes, parent), kind) is None ==> forall|child: int|
            #[trigger] is_parent(nodes, parent, child) ==> nodes[child].kind != kind,
{
    let list = children_of(nodes, parent);
    lemma_children_below(nodes, parent, nodes.len());
    lemma_first_of_kind(nodes, list, kind);
    match first_of_kind(nodes, list, kind) {
        Some(found) => {
            let t = choose|t: int|
                0 <= t < list.len() && #[trigger] list[t] == found && nodes[found as int].kind
                    == kind && forall|u: int|
                    0 <= u < t ==> nodes[#[trigger] list[u] as int].kind != kind;
            assert(is_parent(nodes, parent, list[t] as int));
            assert forall|earlier: int|
                earlier < found && #[trigger] is_parent(
                    nodes,
                    parent,
                    earlier,
                ) implies nodes[earlier].kind != kind by {
                assert(list.contains(earlier as usize));
                let u = choose|u: int| 0 <= u < list.len() && list[u] == earlier as usize;
                if u > t {
                    assert(list[t] < list[u]);
                }
                assert(nodes[list[u] as int].kind != kind);
            }
            assert(is_first_child(nodes, parent, found as int, kind));
            assert forall|child: usize| #[trigger]
                is_first_child(nodes, parent, child as int, kind) implies child == found by {
                if child < found {
                    assert(is_parent(nodes, parent, child as int));
                } else if found < child {
                    assert(is_parent(nodes, parent, found as int));
                }
            }
        },
        None => {
            assert forall|child: int| #[trigger] is_parent(nodes, parent, child) implies nodes[child].kind
                != kind by {
                assert(list.contains(child as usize));
                let u = choose|u: int| 0 <= u < list.len() && list[u] == child as usize;
                assert(nodes[list[u] as int].kind != kind);
            }
        },
    }
}

/// Whether a child of a declaration names it: it is the first of its kind, and its bytes are a
/// text.
pub open spec fn names_by(
    bytes: Seq<u8>,
    nodes: Seq<NodeFacts>,
    decl: int,
    child: int,
    kind: Seq<char>,
) -> bool {
    &&& is_first_child(nodes, decl, child, kind)
    &&& valid_utf8(
        bytes.subrange(nodes[child].start_byte as int, nodes[child].end_byte as int),
    )
}

/// The text of a node and where the node stands.
pub open spec fn text_and_place(bytes: Seq<u8>, node: NodeFacts) -> (Seq<char>, Range) {
    (
        decode_utf8(bytes.subrange(node.start_byte as int, node.end_byte as int)),
        range_of(node),
    )
}

/// A declaration is named by its first simple identifier, or else by its first type identifier,
/// and the name stands where that identifier does. One with neither has no name.
pub proof fn a_declaration_is_named_by_its_first_identifier(
    bytes: Seq<u8>,
    nodes: Seq<NodeFacts>,
    decl: int,
)
    requires
        0 <= decl < nodes.len() <= usize::MAX,
    ensures
        forall|child: int| #[trigger]
            names_by(bytes, nodes, decl, child, "simple_identifier"@) ==> name_of_decl(
                bytes,
                nodes,
                decl,
            ) == Some(text_and_place(bytes, nodes[child])),
        (forall|child: int| !#[trigger] names_by(bytes, nodes, decl, child, "simple_identifier"@))
            ==> {
            &&& forall|child: int| #[trigger]
                names_by(bytes, nodes, decl, child, "type_identifier"@) ==> name_of_decl(
                    bytes,
                    nodes,
                    decl,
                ) == Some(text_and_place(bytes, nodes[child]))
            &&& (forall|child: int|
                !#[trigger] names_by(bytes, nodes, decl, child, "type_identifier"@))
                ==> name_of_decl(bytes, nodes, decl) is None
        },
{
    lemma_child_name(bytes, nodes, decl, "simple_identifier"@);
    lemma_child_name(bytes, nodes, decl, "type_identifier"@);
}

proof fn lemma_child_name(bytes: Seq<u8>, nodes: Seq<NodeFacts>, decl: int, kind: Seq<char>)
    requires
        0 <= decl < nodes.len() <= usize::MAX,
    ensures
        forall|child: int| #[trigger]
            names_by(bytes, nodes, decl, child, kind) ==> child_name(bytes, nodes, decl, kind)
                == Some(text_and_place(bytes, nodes[child])),
        child_name(bytes, nodes, decl, kind) is Some ==> exists|child: int| #[trigger]
            names_by(bytes, nodes, decl, child, kind),
{
    the_first_child_of_a_kind_is_found(nodes, decl, kind);
    assert forall|child: int| #[trigger] names_by(
        bytes,
        nodes,
        decl,
        child,
        kind,
    ) implies child_name(bytes, nodes, decl, kind) == Some(
        text_and_place(bytes, nodes[child]),
    ) by {
        assert(is_first_child(nodes, decl, (child as usize) as int, kind));
    }
    if child_name(bytes, nodes, decl, kind) is Some {
        let child = first_of_kind(nodes, children_of(nodes, decl), kind)->0;
        assert(is_first_child(nodes, decl, child as int, kind));
        assert(covered_text(bytes, nodes[child as int]) is Some);
        assert(names_by(bytes, nodes, decl, child as int, kind));
    }
}

/// A range runs from the line and character where a node begins to those where it ends. Of what
/// cannot be counted in 32 bits the low bits count.
pub proof fn ranges_are_where_the_nodes_stand(node: NodeFacts)
    ensures
        range_of(node).start.line == node.start_row as int % 0x1_0000_0000,
        range_of(node).start.character == node.start_column as int % 0x1_0000_0000,
        range_of(node).end.line == node.end_row as int % 0x1_0000_0000,
        range_of(node).end.character == node.end_column as int % 0x1_0000_0000,
{
    lemma_low_bits(node.start_row);
    lemma_low_bits(node.start_column);
    lemma_low_bits(node.end_row);
    lemma_low_bits(node.end_column);
}

proof fn lemma_low_bits(n: usize)
    ensures
        (n as u32) as int == n as int % 0x1_0000_0000,
{
    let wide = n as u64;
    assert((wide as u32) as u64 == wide % 0x1_0000_0000) by (bit_vector);
    assert(wide as u32 == n as u32) by (bit_vector)
        requires
            wide == n as u64,
    ;
}

/// Functions, properties, classes, objects and type aliases declare something that can be marked,
/// and other nodes do not. Such a node counts where it has both a mark and a name.
pub proof fn five_kinds_of_declarations_count(
    bytes: Seq<u8>,
    nodes: Seq<NodeFacts>,
    node: int,
    name: Seq<char>,
    range: Range,
    is_expect: bool,
)
    ensures
        marked_at(bytes, nodes, node) == Some((name, range, is_expect)) <==> {
            &&& {
                ||| nodes[node].kind == "function_declaration"@
                ||| nodes[node].kind == "property_declaration"@
                ||| nodes[node].kind == "class_declaration"@
                ||| nodes[node].kind == "object_declaration"@
                ||| nodes[node].kind == "type_alias"@
            }
            &&& mark_of_decl(bytes, nodes, node) == Some(is_expect)
            &&& name_of_decl(bytes, nodes, node) == Some((name, range))
        },
{
}

proof fn lemma_marked_positions(bytes: Seq<u8>, nodes: Seq<NodeFacts>, list: Seq<int>) -> (at: Seq<
    int,
>)
    ensures
        at.len() == marked_among(bytes, nodes, list).len(),
        forall|i: int|
            0 <= i < at.len() ==> 0 <= #[trigger] at[i] < list.len() && marked_at(
                bytes,
                nodes,
                list[at[i]],
            ) == Some(marked_among(bytes, nodes, list)[i]),
        forall|i: int, j: int| 0 <= i < j < at.len() ==> #[trigger] at[i] < #[trigger] at[j],
        forall|k: int|
            0 <= k < list.len() && marked_at(bytes, nodes, #[trigger] list[k]) is Some
                ==> at.contains(k),
    decreases list.len(),
{
    if list.len() == 0 {
        Seq::empty()
    } else {
        let rest = list.drop_last();
        let last = list.len() - 1;
        let before = lemma_marked_positions(bytes, nodes, rest);
        let found = marked_among(bytes, nodes, rest);
        let at = match marked_at(bytes, nodes, list.last()) {
            Some(_) => before.push(last),
            None => before,
        };
        assert forall|i: int| 0 <= i < at.len() implies 0 <= #[trigger] at[i] < list.len()
            && marked_at(bytes, nodes, list[at[i]]) == Some(
            marked_among(bytes, nodes, list)[i],
        ) by {
            if i < before.len() {
                assert(at[i] == before[i]);
                assert(rest[before[i]] == list[before[i]]);
            }
        }
        assert forall|i: int, j: int| 0 <= i < j < at.len() implies #[trigger] at[i]
            < #[trigger] at[j] by {
            assert(at[i] == before[i]);
            if j < before.len() {
                assert(at[j] == before[j]);
            }
        }
        assert forall|k: int|
            0 <= k < list.len() && marked_at(bytes, nodes, #[trigger] list[k])
                is Some implies at.contains(k) by {
            if k < last {
                assert(rest[k] == list[k]);
                assert(before.contains(k));
                let i = choose|i: int| 0 <= i < before.len() && before[i] == k;
                assert(at[i] == k);
            } else {
                assert(at[at.len() - 1] == k);
            }
        }
        at
    }
}

/// The marked declarations of a document stand in a fixed order: each is declared by a node of
/// its own, every marked node is among them, an outer declaration goes before those inside it,
/// and of declarations beside each other the later one goes first.
pub proof fn marked_declarations_stand_in_order(doc: DocModel) -> (at: Seq<int>)
    requires
        is_document_tree(doc.nodes, doc.bytes.len()),
        doc.nodes.len() <= usize::MAX,
    ensures
        at.len() == marked_decls(doc.bytes, doc.nodes).len(),
        at.no_duplicates(),
        forall|i: int|
            0 <= i < at.len() ==> 0 <= #[trigger] at[i] < doc.nodes.len() && marked_at(
                doc.bytes,
                doc.nodes,
                at[i],
            ) == Some(marked_decls(doc.bytes, doc.nodes)[i]),
        forall|node: int|
            0 <= node < doc.nodes.len() && #[trigger] marked_at(doc.bytes, doc.nodes, node) is Some
                ==> at.contains(node),
        forall|i: int, j: int|
            0 <= i < j < at.len() ==> comes_first(doc.nodes, #[trigger] at[i], #[trigger] at[j]),
{
    let order = visit(doc.nodes, 0);
    walks_go_down_and_from_right_to_left(doc.nodes, doc.bytes.len());
    let places = lemma_marked_positions(doc.bytes, doc.nodes, order);
    let at = Seq::new(places.len(), |i: int| order[places[i]]);
    assert forall|i: int| 0 <= i < at.len() implies 0 <= #[trigger] at[i] < doc.nodes.len()
        && marked_at(doc.bytes, doc.nodes, at[i]) == Some(
        marked_decls(doc.bytes, doc.nodes)[i],
    ) by {
        assert(0 <= places[i] < order.len());
        assert(order.contains(order[places[i]]));
    }
    assert forall|node: int|
        0 <= node < doc.nodes.len() && #[trigger] marked_at(doc.bytes, doc.nodes, node)
            is Some implies at.contains(node) by {
        assert(order.contains(node));
        let k = choose|k: int| 0 <= k < order.len() && order[k] == node;
        assert(places.contains(k));
        let i = choose|i: int| 0 <= i < places.len() && places[i] == k;
        assert(at[i] == node);
    }
    assert forall|i: int, j: int| 0 <= i < j < at.len() implies comes_first(
        doc.nodes,
        #[trigger] at[i],
        #[trigger] at[j],
    ) by {
        assert(places[i] < places[j]);
        assert(0 <= places[i] < order.len() && 0 <= places[j] < order.len());
    }
    assert forall|i: int, j: int| 0 <= i < at.len() && 0 <= j < at.len() && i != j implies at[i]
        != at[j] by {
        assert(0 <= places[i] < order.len() && 0 <= places[j] < order.len());
        if i < j {
            assert(places[i] < places[j]);
        } else {
            assert(places[j] < places[i]);
        }
    }
    at
}

}
