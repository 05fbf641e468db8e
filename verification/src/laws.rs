//! What holds of texts, JSON values, syntax trees and the index, stated over what they hold.

use crate::indexer::{is_kotlin, is_there, may_be_read, names_kotlin, Indexer};
use crate::json::{field_named, json_model, JsonModel, JsonValue};
use crate::protocol::LocationModel;
use crate::syntax::{
    ascii_nodes, children_below, children_of, covered_text, every_node_visited_once, in_subtree,
    is_document_tree, is_parent, lemma_children_below, may_parse, open_strings, tree_nodes,
    tree_text, visit, visit_all, within_limits, DocModel, NodeFacts,
};
use crate::text::{decimal, is_space, pieces, trimmed, trimmed_end, trimmed_start};
use crate::urls::{normal_url, path_of_url, url_parts};
use vstd::prelude::*;
use vstd::utf8::{decode_utf8, encode_utf8, is_ascii_chars, valid_utf8};

verus! {

/// The characters that count as white space are those with that property in Unicode.
pub proof fn white_space_is_that_of_unicode(c: char)
    ensures
        c <= '\u{7f}' ==> (is_space(c) <==> c == ' ' || c == '\t' || c == '\n' || c == '\u{b}' || c
            == '\u{c}' || c == '\r'),
        '\u{7f}' < c <= '\u{ff}' ==> (is_space(c) <==> c == '\u{85}' || c == '\u{a0}'),
        '\u{ff}' < c ==> (is_space(c) <==> {
            ||| c == '\u{1680}'
            ||| '\u{2000}' <= c < '\u{200b}'
            ||| c == '\u{2028}'
            ||| c == '\u{2029}'
            ||| c == '\u{202f}'
            ||| c == '\u{205f}'
            ||| c == '\u{3000}'
        }),
{
}

proof fn lemma_trimmed_start(s: Seq<char>) -> (from: int)
    ensures
        0 <= from <= s.len(),
        trimmed_start(s) == s.skip(from),
        forall|i: int| 0 <= i < from ==> is_space(#[trigger] s[i]),
        from < s.len() ==> !is_space(s[from]),
    decreases s.len(),
{
    if s.len() > 0 && is_space(s[0]) {
        let rest = s.drop_first();
        let from = lemma_trimmed_start(rest);
        assert(rest.skip(from) =~= s.skip(from + 1));
        assert forall|i: int| 0 <= i < from + 1 implies is_space(#[trigger] s[i]) by {
            if i > 0 {
                assert(rest[i - 1] == s[i]);
            }
        }
        if from + 1 < s.len() {
            assert(rest[from] == s[from + 1]);
        }
        from + 1
    } else {
        assert(s.skip(0) =~= s);
        0
    }
}

proof fn lemma_trimmed_end(s: Seq<char>) -> (to: int)
    ensures
        0 <= to <= s.len(),
        trimmed_end(s) == s.take(to),
        forall|i: int| to <= i < s.len() ==> is_space(#[trigger] s[i]),
        0 < to ==> !is_space(s[to - 1]),
    decreases s.len(),
{
    if s.len() > 0 && is_space(s.last()) {
        let rest = s.drop_last();
        let to = lemma_trimmed_end(rest);
        assert(rest.take(to) =~= s.take(to));
        assert forall|i: int| to <= i < s.len() implies is_space(#[trigger] s[i]) by {
            if i < rest.len() {
                assert(rest[i] == s[i]);
            }
        }
        if 0 < to {
            assert(rest[to - 1] == s[to - 1]);
        }
        to
    } else {
        assert(s.take(s.len() as int) =~= s);
        s.len() as int
    }
}

/// What is left of a text once it is trimmed is the part between two ends: beyond them there is
/// only white space, and what is left neither begins nor ends with any.
pub proof fn trimming_takes_away_the_space_around(s: Seq<char>) -> (ends: (int, int))
    ensures
        0 <= ends.0 <= ends.1 <= s.len(),
        trimmed(s) == s.subrange(ends.0, ends.1),
        forall|i: int|
            0 <= i < ends.0 || ends.1 <= i < s.len() ==> is_space(#[trigger] s[i]),
        ends.0 < ends.1 ==> !is_space(s[ends.0]) && !is_space(s[ends.1 - 1]),
{
    let from = lemma_trimmed_start(s);
    let kept = s.skip(from);
    let to = lemma_trimmed_end(kept);
    assert(kept.take(to) =~= s.subrange(from, from + to));
    assert forall|i: int| 0 <= i < from || from + to <= i < s.len() implies is_space(
        #[trigger] s[i],
    ) by {
        if i >= from {
            assert(kept[i - from] == s[i]);
        }
    }
    if to > 0 {
        assert(kept[to - 1] == s[from + to - 1]);
        assert(kept[0] == s[from]);
    }
    (from, from + to)
}

/// The listed texts, one after the other with a separator between them.
pub open spec fn put_together(list: Seq<Seq<char>>, separator: char) -> Seq<char>
    decreases list.len(),
{
    if list.len() == 0 {
        Seq::empty()
    } else if list.len() == 1 {
        list[0]
    } else {
        put_together(list.drop_last(), separator).push(separator) + list.last()
    }
}

/// The pieces of a text, put together again with the separator between them, are the text, and
/// none of them holds the separator.
pub proof fn pieces_make_up_the_text(s: Seq<char>, separator: char)
    ensures
        pieces(s, separator).len() > 0,
        put_together(pieces(s, separator), separator) == s,
        forall|i: int|
            0 <= i < pieces(s, separator).len() ==> !(#[trigger] pieces(s, separator)[i]).contains(
                separator,
            ),
    decreases s.len(),
{
    let all = pieces(s, separator);
    if s.len() > 0 {
        let shorter = s.drop_last();
        let before = pieces(shorter, separator);
        pieces_make_up_the_text(shorter, separator);
        if s.last() == separator {
            assert(all.drop_last() =~= before);
            assert(put_together(all, separator) =~= shorter.push(separator));
            assert(shorter.push(separator) =~= s);
            assert forall|i: int| 0 <= i < all.len() implies !(#[trigger] all[i]).contains(
                separator,
            ) by {
                if i < before.len() {
                    assert(all[i] == before[i]);
                }
            }
        } else {
            assert(all.drop_last() =~= before.drop_last());
            assert(all.last() == before.last().push(s.last()));
            assert(shorter.push(s.last()) =~= s);
            assert(put_together(all, separator) =~= shorter.push(s.last())) by {
                if before.len() > 1 {
                    let head = put_together(before.drop_last(), separator).push(separator);
                    assert(shorter == head + before.last());
                    assert(head + before.last().push(s.last()) =~= (head + before.last()).push(
                        s.last(),
                    ));
                }
            }
            assert forall|i: int| 0 <= i < all.len() implies !(#[trigger] all[i]).contains(
                separator,
            ) by {
                if i < before.len() - 1 {
                    assert(all[i] == before[i]);
                } else {
                    let last = before[before.len() - 1];
                    assert(!last.contains(separator));
                    if all[i].contains(separator) {
                        let k = choose|k: int| 0 <= k < all[i].len() && all[i][k] == separator;
                        assert(last[k] == separator);
                    }
                }
            }
        }
    } else {
        assert(all[0] =~= s);
    }
}

/// The number that decimal digits stand for.
pub open spec fn number_in(digits: Seq<char>) -> int
    decreases digits.len(),
{
    if digits.len() == 0 {
        0
    } else {
        number_in(digits.drop_last()) * 10 + (digits.last() as int - '0' as int)
    }
}

/// The decimal notation of a number consists of digits, stands for the number, and has no
/// leading zero but for zero itself.
pub proof fn decimal_notation_reads_back(n: nat)
    ensures
        decimal(n).len() > 0,
        forall|i: int| 0 <= i < decimal(n).len() ==> '0' <= (#[trigger] decimal(n)[i]) <= '9',
        number_in(decimal(n)) == n,
        decimal(n)[0] == '0' ==> n == 0,
        n < 10 ==> decimal(n).len() == 1,
    decreases n,
{
    reveal_with_fuel(number_in, 2);
    if n >= 10 {
        decimal_notation_reads_back(n / 10);
        let head = decimal(n / 10);
        assert(decimal(n).drop_last() =~= head);
        assert(decimal(n)[0] == head[0]);
        assert forall|i: int| 0 <= i < decimal(n).len() implies '0' <= (#[trigger] decimal(n)[i])
            <= '9' by {
            if i < head.len() {
                assert(decimal(n)[i] == head[i]);
            }
        }
    } else {
        assert(decimal(n).drop_last() =~= Seq::<char>::empty());
    }
}

/// The field of an object with a name is the first of that name, where there is one. What is no
/// object has no fields.
pub proof fn a_field_is_the_first_of_its_name(
    fields: Seq<(Seq<char>, JsonModel)>,
    name: Seq<char>,
)
    ensures
        JsonModel::Object(fields).get(name) is None <==> forall|i: int|
            0 <= i < fields.len() ==> (#[trigger] fields[i]).0 != name,
        JsonModel::Object(fields).get(name) matches Some(value) ==> exists|i: int|
            0 <= i < fields.len() && #[trigger] fields[i] == (name, value) && forall|j: int|
                0 <= j < i ==> (#[trigger] fields[j]).0 != name,
        forall|value: JsonModel| !(value is Object) ==> #[trigger] value.get(name) is None,
    decreases fields.len(),
{
    if fields.len() > 0 {
        let rest = fields.drop_first();
        a_field_is_the_first_of_its_name(rest, name);
        assert forall|i: int| 0 <= i < rest.len() implies #[trigger] rest[i] == fields[i + 1] by {}
        assert(JsonModel::Object(fields).get(name) == field_named(fields, name));
        assert(JsonModel::Object(rest).get(name) == field_named(rest, name));
        if fields[0].0 == name {
            assert(fields[0] == (name, field_named(fields, name)->0));
        } else {
            if let Some(value) = field_named(rest, name) {
                let i = choose|i: int|
                    0 <= i < rest.len() && #[trigger] rest[i] == (name, value) && forall|j: int|
                        0 <= j < i ==> (#[trigger] rest[j]).0 != name;
                assert(fields[i + 1] == (name, value));
                assert forall|j: int| 0 <= j < i + 1 implies (#[trigger] fields[j]).0 != name by {
                    if j > 0 {
                        assert(rest[j - 1] == fields[j]);
                    }
                }
            } else {
                assert forall|j: int| 0 <= j < fields.len() implies (#[trigger] fields[j]).0
                    != name by {
                    if j > 0 {
                        assert(rest[j - 1] == fields[j]);
                    }
                }
            }
        }
    }
}

/// A value is read as what it is: a text as a text, a list as a list, a number as a number, and
/// nothing as anything else.
pub proof fn values_are_read_as_what_they_are(value: JsonModel)
    ensures
        forall|text: Seq<char>| #[trigger]
            value.as_str() == Some(text) <==> value == JsonModel::Str(text),
        forall|items: Seq<JsonModel>| #[trigger]
            value.as_array() == Some(items) <==> value == JsonModel::Array(items),
        forall|n: u64| #[trigger] value.as_u64() == Some(n) <==> value == JsonModel::Unsigned(n),
{
}

/// Nodes form a tree over a document where there is a first one, all others are deeper than it,
/// and each begins before it ends, within the document.
pub proof fn trees_have_a_root_above_all(nodes: Seq<NodeFacts>, len: nat)
    ensures
        is_document_tree(nodes, len) <==> {
            &&& nodes.len() > 0
            &&& forall|i: int| 0 < i < nodes.len() ==> nodes[0].depth < (#[trigger] nodes[i]).depth
            &&& forall|i: int|
                0 <= i < nodes.len() ==> (#[trigger] nodes[i]).start_byte <= nodes[i].end_byte
                    && nodes[i].end_byte <= len
        },
{
}

/// The children of a node are the deeper nodes after it that have no node of a smaller depth than
/// their own before them, as far back as that node. They stand in the order of the document.
pub proof fn children_are_the_nodes_right_below(nodes: Seq<NodeFacts>, parent: int)
    requires
        0 <= parent < nodes.len() <= usize::MAX,
    ensures
        forall|child: usize| #[trigger]
            children_of(nodes, parent).contains(child) <==> {
                &&& parent < child < nodes.len()
                &&& nodes[parent].depth < nodes[child as int].depth
                &&& forall|k: int|
                    parent < k < child ==> (#[trigger] nodes[k]).depth >= nodes[child as int].depth
            },
        forall|t: int, u: int|
            0 <= t < u < children_of(nodes, parent).len() ==> (#[trigger] children_of(
                nodes,
                parent,
            )[t]) < (#[trigger] children_of(nodes, parent)[u]),
{
    let list = children_of(nodes, parent);
    lemma_children_below(nodes, parent, nodes.len());
    assert(list == children_below(nodes, parent, nodes.len()));
    assert forall|child: usize| #[trigger] list.contains(child) <==> {
        &&& parent < child < nodes.len()
        &&& nodes[parent].depth < nodes[child as int].depth
        &&& forall|k: int|
            parent < k < child ==> (#[trigger] nodes[k]).depth >= nodes[child as int].depth
    } by {
        if list.contains(child) {
            let t = choose|t: int| 0 <= t < list.len() && list[t] == child;
            assert(is_parent(nodes, parent, list[t] as int));
        } else if is_parent(nodes, parent, child as int) {
            assert(list.contains(child as int as usize));
        }
    }
}

/// Whether a walk comes to one node before another: it comes to a node before those below it,
/// and of nodes that do not lie below each other to the later one first.
pub open spec fn comes_first(nodes: Seq<NodeFacts>, a: int, b: int) -> bool {
    in_subtree(nodes, a, b) || (b < a && !in_subtree(nodes, b, a))
}

proof fn lemma_visit_all_order(nodes: Seq<NodeFacts>, list: Seq<usize>, above: int)
    requires
        0 <= above < nodes.len() <= usize::MAX,
        forall|t: int| 0 <= t < list.len() ==> is_parent(nodes, above, #[trigger] list[t] as int),
        forall|t: int, u: int|
            0 <= t < u < list.len() ==> (#[trigger] list[t]) < (#[trigger] list[u]),
    ensures
        forall|node: int| #[trigger]
            visit_all(nodes, list, above).contains(node) ==> exists|t: int|
                0 <= t < list.len() && in_subtree(nodes, #[trigger] list[t] as int, node),
        forall|i: int, j: int|
            0 <= i < j < visit_all(nodes, list, above).len() ==> comes_first(
                nodes,
                #[trigger] visit_all(nodes, list, above)[i],
                #[trigger] visit_all(nodes, list, above)[j],
            ),
    decreases nodes.len() - above, 0nat, list.len(),
{
    if list.len() > 0 {
        let last = list.len() - 1;
        let child = list[last] as int;
        let rest = list.drop_last();
        assert(is_parent(nodes, above, child));
        assert forall|t: int| 0 <= t < rest.len() implies is_parent(
            nodes,
            above,
            #[trigger] rest[t] as int,
        ) by {
            assert(rest[t] == list[t]);
        }
        assert forall|t: int, u: int| 0 <= t < u < rest.len() implies (#[trigger] rest[t]) < (
        #[trigger] rest[u]) by {
            assert(rest[t] == list[t] && rest[u] == list[u]);
        }
        lemma_visit_order(nodes, child);
        lemma_visit_all_order(nodes, rest, above);
        let first = visit(nodes, child);
        let others = visit_all(nodes, rest, above);
        let all = visit_all(nodes, list, above);
        assert(all == first + others);
        assert forall|node: int| #[trigger] all.contains(node) implies exists|t: int|
            0 <= t < list.len() && in_subtree(nodes, #[trigger] list[t] as int, node) by {
            let at = choose|at: int| 0 <= at < all.len() && all[at] == node;
            if at < first.len() {
                assert(first[at] == node);
                assert(first.contains(node));
                assert(in_subtree(nodes, list[last] as int, node));
            } else {
                assert(others[at - first.len()] == node);
                assert(others.contains(node));
                let t = choose|t: int|
                    0 <= t < rest.len() && in_subtree(nodes, #[trigger] rest[t] as int, node);
                assert(list[t] == rest[t]);
                assert(in_subtree(nodes, list[t] as int, node));
            }
        }
        assert forall|i: int, j: int| 0 <= i < j < all.len() implies comes_first(
            nodes,
            #[trigger] all[i],
            #[trigger] all[j],
        ) by {
            let n = first.len() as int;
            if j < n {
                assert(comes_first(nodes, first[i], first[j]));
            } else if i >= n {
                assert(comes_first(nodes, others[i - n], others[j - n]));
            } else {
                let x = first[i];
                let y = others[j - n];
                assert(first.contains(x));
                assert(others.contains(y));
                assert(in_subtree(nodes, child, x));
                let t = choose|t: int|
                    0 <= t < rest.len() && in_subtree(nodes, #[trigger] rest[t] as int, y);
                assert(rest[t] == list[t]);
                let earlier = list[t] as int;
                assert(earlier < child);
                assert(is_parent(nodes, above, earlier));
                assert(nodes[earlier].depth >= nodes[child].depth);
                if y >= child {
                    assert(nodes[earlier].depth < nodes[child].depth);
                }
                assert(y < child <= x);
                if in_subtree(nodes, y, x) {
                    assert(nodes[y].depth < nodes[child].depth);
                    if earlier < y {
                        assert(nodes[earlier].depth < nodes[y].depth);
                    }
                }
            }
        }
    } else {
        assert(visit_all(nodes, list, above) == Seq::<int>::empty());
    }
}

proof fn lemma_visit_order(nodes: Seq<NodeFacts>, top: int)
    requires
        0 <= top < nodes.len() <= usize::MAX,
    ensures
        forall|node: int| #[trigger]
            visit(nodes, top).contains(node) ==> in_subtree(nodes, top, node),
        forall|i: int, j: int|
            0 <= i < j < visit(nodes, top).len() ==> comes_first(
                nodes,
                #[trigger] visit(nodes, top)[i],
                #[trigger] visit(nodes, top)[j],
            ),
    decreases nodes.len() - top, 1nat, 0nat,
{
    let list = children_of(nodes, top);
    lemma_children_below(nodes, top, nodes.len());
    lemma_visit_all_order(nodes, list, top);
    let below = visit_all(nodes, list, top);
    let all = visit(nodes, top);
    assert(all == seq![top] + below);
    assert forall|node: int| #[trigger] all.contains(node) implies in_subtree(nodes, top, node) by {
        let at = choose|at: int| 0 <= at < all.len() && all[at] == node;
        if at > 0 {
            assert(below[at - 1] == node);
            assert(below.contains(node));
            let t = choose|t: int|
                0 <= t < list.len() && in_subtree(nodes, #[trigger] list[t] as int, node);
            let child = list[t] as int;
            assert(is_parent(nodes, top, child));
            assert forall|k: int| top < k <= node implies nodes[top].depth < (
            #[trigger] nodes[k]).depth by {
                if k > child {
                    assert(nodes[child].depth < nodes[k].depth);
                }
            }
        }
    }
    assert forall|i: int, j: int| 0 <= i < j < all.len() implies comes_first(
        nodes,
        #[trigger] all[i],
        #[trigger] all[j],
    ) by {
        if i == 0 {
            assert(all.contains(all[j]));
        } else {
            assert(comes_first(nodes, below[i - 1], below[j - 1]));
        }
    }
}

/// A walk over a document's tree comes to every node once, to a node before those below it, and
/// of nodes that do not lie below each other to the later one first.
pub proof fn walks_go_down_and_from_right_to_left(nodes: Seq<NodeFacts>, len: nat)
    requires
        is_document_tree(nodes, len),
        nodes.len() <= usize::MAX,
    ensures
        visit(nodes, 0).no_duplicates(),
        forall|node: int| #[trigger]
            visit(nodes, 0).contains(node) <==> 0 <= node < nodes.len(),
        forall|i: int, j: int|
            0 <= i < j < visit(nodes, 0).len() ==> comes_first(
                nodes,
                #[trigger] visit(nodes, 0)[i],
                #[trigger] visit(nodes, 0)[j],
            ),
{
    every_node_visited_once(nodes, len);
    lemma_visit_order(nodes, 0);
}

/// A node's text is what the bytes between its ends say in UTF-8, and there is none where they
/// are not UTF-8.
pub proof fn a_text_is_what_the_bytes_of_the_node_say(bytes: Seq<u8>, node: NodeFacts)
    ensures
        ({
            let covered = bytes.subrange(node.start_byte as int, node.end_byte as int);
            &&& covered_text(bytes, node) is Some <==> valid_utf8(covered)
            &&& covered_text(bytes, node) is Some ==> covered_text(bytes, node)->0 == decode_utf8(
                covered,
            )
        }),
{
}

proof fn lemma_open_strings_are_quotes(text: Seq<char>, end: int)
    requires
        0 <= end <= text.len(),
    ensures
        open_strings(text, end).0 <= text.take(end).filter(|c: char| c == '"').len(),
    decreases end,
{
    reveal(Seq::filter);
    if end > 0 {
        lemma_open_strings_are_quotes(text, end - 1);
        assert(text.take(end).drop_last() =~= text.take(end - 1));
    }
}

/// A text is parsed where its bytes can be counted and it holds at most so many quotes as strings
/// can be open at once.
pub proof fn texts_with_few_quotes_are_parsed(text: Seq<char>)
    requires
        encode_utf8(text).len() <= 0xffff_ffff,
        text.filter(|c: char| c == '"').len() <= 1024,
    ensures
        within_limits(text),
{
    lemma_open_strings_are_quotes(text, text.len() as int);
    assert(text.take(text.len() as int) =~= text);
}

proof fn lemma_plain_strings(text: Seq<char>, end: int)
    requires
        0 <= end <= text.len(),
        forall|i: int|
            0 <= i < text.len() ==> #[trigger] text[i] != '\0' && !(text[i] == '$' && i + 1
                < text.len() && (text[i + 1] == '{' || text[i + 1] > '\u{7f}')),
    ensures
        open_strings(text, end).0 <= 1,
        open_strings(text, end).1 ==> open_strings(text, end).0 == 0,
    decreases end,
{
    if end > 0 {
        lemma_plain_strings(text, end - 1);
        assert(text[end - 1] != '\0');
    }
}

/// A text is parsed, however many strings it holds, where its bytes can be counted and no string
/// can hold another: there is no zero character, and no dollar sign before an opening brace or a
/// character beyond ASCII.
pub proof fn texts_with_plain_strings_are_parsed(text: Seq<char>)
    requires
        encode_utf8(text).len() <= 0xffff_ffff,
        forall|i: int|
            0 <= i < text.len() ==> #[trigger] text[i] != '\0' && !(text[i] == '$' && i + 1
                < text.len() && (text[i + 1] == '{' || text[i + 1] > '\u{7f}')),
    ensures
        within_limits(text),
{
    lemma_plain_strings(text, text.len() as int);
}

/// Whether at least so many strings were opened up to a place, and one more can be, or was.
spec fn opened(text: Seq<char>, end: int, count: int) -> bool {
    let (found, ready) = open_strings(text, end);
    found > count || (found == count && ready)
}

proof fn lemma_opened_stays(text: Seq<char>, from: int, to: int, count: int)
    requires
        0 <= from <= to <= text.len(),
        opened(text, from, count),
    ensures
        opened(text, to, count),
    decreases to,
{
    if from < to {
        lemma_opened_stays(text, from, to - 1, count);
    }
}

/// Whether an open string can be left at a place without being closed: at a zero character, and
/// at a dollar sign before an opening brace or a character beyond ASCII.
pub open spec fn is_break(text: Seq<char>, i: int) -> bool {
    &&& 0 <= i < text.len()
    &&& {
        ||| text[i] == '\0'
        ||| text[i] == '$' && i + 1 < text.len() && text[i + 1] == '{'
        ||| text[i] == '$' && i + 1 < text.len() && text[i + 1] > '\u{7f}'
    }
}

/// Whether the listed places are those of quotes, and between any two of them an open string can
/// be left. At each quote one more string may then be open.
pub open spec fn is_chain_of_quotes(text: Seq<char>, quotes: Seq<int>, breaks: Seq<int>) -> bool {
    &&& breaks.len() == quotes.len()
    &&& forall|k: int|
        0 <= k < quotes.len() ==> 0 <= (#[trigger] quotes[k]) < text.len() && text[quotes[k]] == '"'
    &&& forall|k: int|
        0 < k < quotes.len() ==> quotes[k - 1] < (#[trigger] breaks[k]) < quotes[k] && is_break(
            text,
            breaks[k],
        )
}

proof fn lemma_chain_is_counted(
    text: Seq<char>,
    quotes: Seq<int>,
    breaks: Seq<int>,
    count: int,
)
    requires
        0 < count <= quotes.len(),
        is_chain_of_quotes(text, quotes, breaks),
    ensures
        open_strings(text, quotes[count - 1] + 1).0 >= count,
    decreases count,
{
    let last = quotes[count - 1];
    assert(text[last] == '"');
    if count > 1 {
        lemma_chain_is_counted(text, quotes, breaks, count - 1);
        let before = quotes[count - 2];
        let at = breaks[count - 1];
        assert(before < at < last);
        assert(is_break(text, at));
        assert(open_strings(text, before + 1).0 >= count - 1);
        lemma_count_grows(text, before + 1, at);
        assert(opened(text, at + 1, count - 1));
        lemma_opened_stays(text, at + 1, last, count - 1);
    } else {
        assert(opened(text, 0, 0));
        lemma_opened_stays(text, 0, last, 0);
    }
}

proof fn lemma_count_grows(text: Seq<char>, from: int, to: int)
    requires
        0 <= from <= to <= text.len(),
    ensures
        open_strings(text, from).0 <= open_strings(text, to).0,
    decreases to,
{
    if from < to {
        lemma_count_grows(text, from, to - 1);
    }
}

/// What is counted is a chain of quotes. The third result is a place after the last of them at
/// which an open string can be left, where there is one.
proof fn lemma_counted_is_a_chain(text: Seq<char>, end: int) -> (chain: (Seq<int>, Seq<int>, int))
    requires
        0 <= end <= text.len(),
    ensures
        is_chain_of_quotes(text, chain.0, chain.1),
        chain.0.len() == open_strings(text, end).0,
        chain.0.len() > 0 ==> chain.0.last() < end,
        chain.0.len() > 0 && open_strings(text, end).1 ==> chain.0.last() < chain.2 < end
            && is_break(text, chain.2),
        chain.0.len() == 0 ==> open_strings(text, end).1,
    decreases end,
{
    if end == 0 {
        (Seq::empty(), Seq::empty(), 0)
    } else {
        let before = lemma_counted_is_a_chain(text, end - 1);
        let ready = open_strings(text, end - 1).1;
        if text[end - 1] == '"' && ready {
            let quotes = before.0.push(end - 1);
            let breaks = before.1.push(before.2);
            assert forall|k: int| 0 <= k < quotes.len() implies 0 <= (#[trigger] quotes[k])
                < text.len() && text[quotes[k]] == '"' by {
                if k < before.0.len() {
                    assert(quotes[k] == before.0[k]);
                }
            }
            assert forall|k: int| 0 < k < quotes.len() implies quotes[k - 1] < (
            #[trigger] breaks[k]) < quotes[k] && is_break(text, breaks[k]) by {
                if k < before.0.len() {
                    assert(breaks[k] == before.1[k]);
                    assert(quotes[k] == before.0[k] && quotes[k - 1] == before.0[k - 1]);
                }
            }
            (quotes, breaks, 0)
        } else if is_break(text, end - 1) {
            (before.0, before.1, end - 1)
        } else {
            before
        }
    }
}

/// A text is parsed exactly where its bytes can be counted in 32 bits and no more strings might
/// be open at once than there is room for: it holds no longer chain of quotes between any two of
/// which an open string can be left.
pub proof fn texts_with_room_for_their_strings_are_parsed(text: Seq<char>)
    ensures
        within_limits(text) <==> {
            &&& encode_utf8(text).len() <= 0xffff_ffff
            &&& forall|quotes: Seq<int>, breaks: Seq<int>| #[trigger]
                is_chain_of_quotes(text, quotes, breaks) ==> quotes.len() <= 1024
        },
{
    let chain = lemma_counted_is_a_chain(text, text.len() as int);
    assert(is_chain_of_quotes(text, chain.0, chain.1));
    assert forall|quotes: Seq<int>, breaks: Seq<int>| #[trigger]
        is_chain_of_quotes(text, quotes, breaks) implies quotes.len() <= open_strings(
        text,
        text.len() as int,
    ).0 by {
        let count = quotes.len() as int;
        if count > 0 {
            lemma_chain_is_counted(text, quotes, breaks, count);
            assert(0 <= quotes[count - 1] < text.len());
            lemma_count_grows(text, quotes[count - 1] + 1, text.len() as int);
        }
    }
}

/// What comes of parsing a text is made from that text: its bytes are those of the text, and its
/// nodes are those of a tree of the text. For a text in ASCII they are those that the grammar
/// yields.
pub proof fn parses_are_made_from_the_text(text: Seq<char>, doc: Option<DocModel>)
    requires
        may_parse(text, doc),
    ensures
        doc is Some <==> within_limits(text),
        doc is Some ==> doc->0.bytes == encode_utf8(text) && is_document_tree(
            doc->0.nodes,
            encode_utf8(text).len(),
        ) && exists|tree: tree_sitter::Tree| #[trigger]
            tree_text(tree) == text && tree_nodes(tree) == doc->0.nodes,
        doc is Some && is_ascii_chars(text) ==> doc->0.nodes == ascii_nodes(text),
{
    if doc is Some {
        let tree = choose|tree: tree_sitter::Tree| #[trigger]
            tree_nodes(tree) == doc->0.nodes && tree_text(tree) == text;
        assert(tree_text(tree) == text && tree_nodes(tree) == doc->0.nodes);
    }
}

/// The normal form and the path of an address are the two parts that it is parsed to. A text that
/// is no address has neither.
pub proof fn addresses_have_a_normal_form_and_a_path(text: Seq<char>)
    ensures
        url_parts(text) matches Some(parts) ==> normal_url(text) == Some(parts.0) && path_of_url(
            text,
        ) == Some(parts.1),
        url_parts(text) is None ==> normal_url(text) is None && path_of_url(text) is None,
{
}

/// A JSON value says what it holds: a list what its items say in their order, and an object what
/// its fields say under their names.
pub proof fn values_say_what_they_hold(value: JsonValue)
    ensures
        value is Null ==> json_model(value) is Null,
        value is OtherNumber ==> json_model(value) is OtherNumber,
        value matches JsonValue::Bool(b) ==> json_model(value) == JsonModel::Bool(b),
        value matches JsonValue::Unsigned(n) ==> json_model(value) == JsonModel::Unsigned(n),
        value matches JsonValue::Str(text) ==> json_model(value) == JsonModel::Str(text@),
        value matches JsonValue::Array(items) ==> {
            &&& json_model(value) is Array
            &&& json_model(value)->Array_0.len() == items@.len()
            &&& forall|i: int|
                0 <= i < items@.len() ==> #[trigger] json_model(value)->Array_0[i] == json_model(
                    items@[i],
                )
        },
        value matches JsonValue::Object(fields) ==> {
            &&& json_model(value) is Object
            &&& json_model(value)->Object_0.len() == fields@.len()
            &&& forall|i: int|
                0 <= i < fields@.len() ==> #[trigger] json_model(value)->Object_0[i] == (
                    fields@[i].0@,
                    json_model(fields@[i].1),
                )
        },
{
}

/// The index says of a file and of a name what it holds of them.
pub proof fn the_index_says_what_it_holds(indexer: Indexer, uri: Seq<char>, name: Seq<char>)
    ensures
        indexer.package_of(uri) is Some <==> indexer.files@.contains_key(uri)
            && indexer.files@[uri].package is Some,
        indexer.package_of(uri) is Some ==> indexer.package_of(uri)->0
            == indexer.files@[uri].package->0@,
        !indexer.definitions@.contains_key(name) ==> indexer.locations_of(name).len() == 0,
        indexer.definitions@.contains_key(name) ==> {
            &&& indexer.locations_of(name).len() == indexer.definitions@[name]@.len()
            &&& forall|i: int|
                0 <= i < indexer.definitions@[name]@.len() ==> #[trigger] indexer.locations_of(
                    name,
                )[i] == (LocationModel {
                    uri: indexer.definitions@[name]@[i].uri@,
                    range: indexer.definitions@[name]@[i].range,
                })
        },
{
}

/// Whether a text is another with an ending put behind it.
pub open spec fn is_followed_by(text: Seq<char>, start: Seq<char>, ending: Seq<char>) -> bool {
    text =~= start + ending
}

proof fn lemma_suffix_follows(text: Seq<char>, ending: Seq<char>)
    ensures
        ending.is_suffix_of(text) <==> exists|start: Seq<char>| is_followed_by(text, start, ending),
{
    if ending.is_suffix_of(text) {
        assert(is_followed_by(text, text.take(text.len() - ending.len()), ending));
    }
    if exists|start: Seq<char>| is_followed_by(text, start, ending) {
        let start = choose|start: Seq<char>| is_followed_by(text, start, ending);
        assert(text.subrange(start.len() as int, text.len() as int) =~= ending);
    }
}

/// Kotlin sources are told by the end of their path: `.kt` and `.kts`, and nothing else.
pub proof fn kotlin_is_told_by_the_end_of_the_path(uri: Seq<char>, path: Seq<char>)
    ensures
        names_kotlin(path) <==> {
            ||| exists|start: Seq<char>| is_followed_by(path, start, ".kt"@)
            ||| exists|start: Seq<char>| is_followed_by(path, start, ".kts"@)
        },
        is_kotlin(uri) <==> path_of_url(uri) is Some && names_kotlin(path_of_url(uri)->0),
{
    lemma_suffix_follows(path, ".kt"@);
    lemma_suffix_follows(path, ".kts"@);
}

/// A document is read from its stored parse, where there is one. Otherwise what the editor holds
/// of it is parsed, or else what was indexed of it, where it is Kotlin within the limits of the
/// parser. A document that is not in memory is not there.
pub proof fn documents_are_read_from_the_newest_source(
    indexer: Indexer,
    uri: Seq<char>,
    doc: Option<DocModel>,
)
    requires
        may_be_read(uri, indexer.source_of(uri), doc),
    ensures
        doc is Some <==> is_there(uri, indexer.source_of(uri)),
        indexer.live_trees@.contains_key(uri) ==> doc == Some(
            DocModel {
                bytes: indexer.live_trees@[uri].bytes(),
                nodes: indexer.live_trees@[uri].nodes(),
            },
        ),
        !indexer.live_trees@.contains_key(uri) && indexer.live_lines@.contains_key(uri) ==> {
            let text = indexer.live_lines@[uri]@;
            &&& doc is Some <==> is_kotlin(uri) && within_limits(text)
            &&& doc is Some ==> doc->0.bytes == encode_utf8(text)
        },
        !indexer.live_trees@.contains_key(uri) && !indexer.live_lines@.contains_key(uri)
            && indexer.files@.contains_key(uri) ==> {
            let text = indexer.files@[uri].text@;
            &&& doc is Some <==> is_kotlin(uri) && within_limits(text)
            &&& doc is Some ==> doc->0.bytes == encode_utf8(text)
        },
        !indexer.live_trees@.contains_key(uri) && !indexer.live_lines@.contains_key(uri)
            && !indexer.files@.contains_key(uri) ==> doc is None,
{
}

}
