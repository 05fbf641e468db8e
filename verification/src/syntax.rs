//! Kotlin syntax trees: what the parser says of a document, held as plain values.

use crate::text::chars_of;
use vstd::prelude::*;
use vstd::slice::slice_subrange;
use vstd::utf8::{decode_utf8, encode_utf8, is_ascii_chars, valid_utf8};

verus! {

/// What a syntax tree says of one of its nodes.
pub struct NodeFacts {
    pub kind: Seq<char>,
    pub depth: u32,
    pub start_byte: usize,
    pub end_byte: usize,
    pub start_row: usize,
    pub start_column: usize,
    pub end_row: usize,
    pub end_column: usize,
}

/// One node of a syntax tree: its kind, how deep it lies below the root, and where it stands
/// in the document.
#[derive(Debug, PartialEq, Eq)]
pub struct SyntaxNode {
    pub kind: String,
    pub depth: u32,
    pub start_byte: usize,
    pub end_byte: usize,
    pub start_row: usize,
    pub start_column: usize,
    pub end_row: usize,
    pub end_column: usize,
}

impl DeepView for SyntaxNode {
    type V = NodeFacts;

    open spec fn deep_view(&self) -> NodeFacts {
        NodeFacts {
            kind: self.kind@,
            depth: self.depth,
            start_byte: self.start_byte,
            end_byte: self.end_byte,
            start_row: self.start_row,
            start_column: self.start_column,
            end_row: self.end_row,
            end_column: self.end_column,
        }
    }
}

impl Clone for SyntaxNode {
    fn clone(&self) -> (r: Self)
        ensures
            r == *self,
    {
        SyntaxNode {
            kind: self.kind.clone(),
            depth: self.depth,
            start_byte: self.start_byte,
            end_byte: self.end_byte,
            start_row: self.start_row,
            start_column: self.start_column,
            end_row: self.end_row,
            end_column: self.end_column,
        }
    }
}

/// The syntax tree that `tree_sitter` builds of a document.
#[verifier::external_type_specification]
#[verifier::external_body]
pub struct ExTree(tree_sitter::Tree);

/// The nodes that a tree holds, each before its descendants and siblings from left to right.
pub uninterp spec fn tree_nodes(tree: tree_sitter::Tree) -> Seq<NodeFacts>;

/// The text that a tree was made from.
pub uninterp spec fn tree_text(tree: tree_sitter::Tree) -> Seq<char>;

/// The nodes of the tree that the Kotlin grammar yields for a text in ASCII.
pub uninterp spec fn ascii_nodes(text: Seq<char>) -> Seq<NodeFacts>;

/// How many strings can be open at once while a text is parsed.
pub const MAX_OPEN_STRINGS: usize = 1024;

/// Whether an open string may be left at a character without being closed: at a zero character,
/// and at a dollar sign before an opening brace or a character beyond ASCII.
///
/// Content ends at a zero character. A brace opens an interpolation, which may hold strings or
/// not be read to its end. A character beyond ASCII may be taken for a letter and then not for a
/// name. A dollar sign before an ASCII letter starts a name, and after it the string goes on. Any
/// other dollar sign is content.
pub open spec fn interrupts(text: Seq<char>, i: int) -> bool {
    ||| text[i] == '\0'
    ||| text[i] == '$' && i + 1 < text.len() && (text[i + 1] == '{' || text[i + 1] > '\u{7f}')
}

/// The largest number of strings that can be open at once among the first `end` characters, and
/// whether the next quote can open one more.
///
/// A string opens only at a quote. An open string admits its content, its end and interpolations,
/// so while it is open another opens only after it was interrupted.
pub open spec fn open_strings(text: Seq<char>, end: int) -> (nat, bool)
    decreases end,
{
    if end <= 0 {
        (0, true)
    } else {
        let (count, ready) = open_strings(text, end - 1);
        if text[end - 1] == '"' && ready {
            (count + 1, false)
        } else if interrupts(text, end - 1) {
            (count, true)
        } else {
            (count, ready)
        }
    }
}

/// Whether a text stays within the limits of the parser, however it is read: its bytes are
/// counted in 32 bits, and there is room for the strings that are open at once.
pub open spec fn within_limits(text: Seq<char>) -> bool {
    &&& encode_utf8(text).len() <= u32::MAX
    &&& open_strings(text, text.len() as int).0 <= MAX_OPEN_STRINGS
}

/// Parses a Kotlin text with `tree_sitter::Parser::parse` under the grammar of
/// `tree_sitter_kotlin::language`.
///
/// The grammar's scanner ends the process where more strings are open than it has room for, so
/// texts beyond the limits are left out. For any other text there is a tree, since the grammar
/// has a version that the parser takes, and no timeout or cancellation flag is given. Its nodes
/// form a tree over the bytes of the text.
///
/// The scanner asks the C library what letters, digits and white space are, whose answer for a
/// character beyond ASCII depends on the machine and its locale. So the contract names the nodes
/// for texts in ASCII alone, where the text decides them. Of which nodes the tree of another text
/// has, no more is said.
#[verifier::external_body]
fn parse_kotlin(text: &str) -> (r: Option<tree_sitter::Tree>)
    requires
        within_limits(text@),
    ensures
        r is Some,
        r matches Some(tree) ==> tree_text(tree) == text@,
        r matches Some(tree) ==> is_document_tree(tree_nodes(tree), encode_utf8(text@).len()),
        is_ascii_chars(text@) ==> (r matches Some(tree) ==> tree_nodes(tree) == ascii_nodes(text@)),
{
    let mut parser = tree_sitter::Parser::new();
    parser.set_language(&tree_sitter_kotlin::language()).ok()?;
    parser.parse(text, None)
}

/// The number of nodes of a tree, the root included, from `tree_sitter::Node::descendant_count`.
#[verifier::external_body]
fn node_count(tree: &tree_sitter::Tree) -> (r: usize)
    ensures
        r == tree_nodes(*tree).len(),
{
    tree.root_node().descendant_count()
}

/// The node with the given place in the order of the tree's nodes, which
/// `tree_sitter::TreeCursor::goto_descendant` moves to.
#[verifier::external_body]
fn node_at(tree: &tree_sitter::Tree, index: usize) -> (r: SyntaxNode)
    requires
        index < tree_nodes(*tree).len(),
    ensures
        r.deep_view() == tree_nodes(*tree)[index as int],
{
    let mut cursor = tree.walk();
    cursor.goto_descendant(index);
    let (kind, depth, range) = (cursor.node().kind(), cursor.depth(), cursor.node().range());
    SyntaxNode {
        kind: kind.to_owned(),
        depth,
        start_byte: range.start_byte,
        end_byte: range.end_byte,
        start_row: range.start_point.row,
        start_column: range.start_point.column,
        end_row: range.end_point.row,
        end_column: range.end_point.column,
    }
}

/// Reads bytes as UTF-8 with `std::str::from_utf8`, which succeeds exactly on valid UTF-8 and
/// then gives the characters that the bytes encode.
#[verifier::external_body]
fn utf8_text(bytes: &[u8]) -> (r: Option<&str>)
    ensures
        r is Some <==> valid_utf8(bytes@),
        r matches Some(text) ==> text@ == decode_utf8(bytes@),
{
    std::str::from_utf8(bytes).ok()
}

/// Whether a node is the parent of another: the last one before it that is less deep.
pub open spec fn is_parent(nodes: Seq<NodeFacts>, parent: int, child: int) -> bool {
    &&& 0 <= parent < child < nodes.len()
    &&& nodes[parent].depth < nodes[child].depth
    &&& forall|k: int|
        parent < k < child ==> (#[trigger] nodes[k]).depth >= nodes[child].depth
}

/// The children of a node among the first `bound` nodes, from left to right.
pub open spec fn children_below(nodes: Seq<NodeFacts>, parent: int, bound: nat) -> Seq<usize>
    decreases bound,
{
    if bound == 0 {
        Seq::empty()
    } else {
        let before = children_below(nodes, parent, (bound - 1) as nat);
        if is_parent(nodes, parent, bound - 1) {
            before.push((bound - 1) as usize)
        } else {
            before
        }
    }
}

/// The children of a node, from left to right.
pub open spec fn children_of(nodes: Seq<NodeFacts>, parent: int) -> Seq<usize> {
    children_below(nodes, parent, nodes.len())
}

/// Whether the nodes form one tree over a document of the given length: the first node is above
/// all others, and every node covers bytes of the document.
pub open spec fn is_document_tree(nodes: Seq<NodeFacts>, len: nat) -> bool {
    &&& nodes.len() > 0
    &&& forall|i: int| 0 < i < nodes.len() ==> nodes[0].depth < (#[trigger] nodes[i]).depth
    &&& forall|i: int|
        0 <= i < nodes.len() ==> (#[trigger] nodes[i]).start_byte <= nodes[i].end_byte <= len
}

/// A parsed document: its bytes and its syntax tree, whose nodes are addressed by their place.
///
/// Node `0` is the root.
#[derive(Debug)]
pub struct LiveDoc {
    bytes: Vec<u8>,
    nodes: Vec<SyntaxNode>,
    children: Vec<Vec<usize>>,
}

impl LiveDoc {
    /// The bytes of the document.
    pub closed spec fn bytes(&self) -> Seq<u8> {
        self.bytes@
    }

    /// The nodes of the document's tree.
    pub closed spec fn nodes(&self) -> Seq<NodeFacts> {
        self.nodes.deep_view()
    }

    /// The nodes form a tree over the bytes, and the children are those of that tree.
    pub closed spec fn wf(&self) -> bool {
        &&& is_document_tree(self.nodes(), self.bytes().len())
        &&& self.children@.len() == self.nodes@.len()
        &&& forall|i: int|
            0 <= i < self.nodes@.len() ==> (#[trigger] self.children@[i])@ == children_of(
                self.nodes(),
                i,
            )
    }
}

/// Whether the nodes form one tree over a document of the given length.
fn check_document_tree(nodes: &Vec<SyntaxNode>, len: usize) -> (r: bool)
    ensures
        r == is_document_tree(nodes.deep_view(), len as nat),
{
    let ghost facts = nodes.deep_view();
    if nodes.len() == 0 {
        return false;
    }
    let mut i: usize = 0;
    while i < nodes.len()
        invariant
            i <= nodes.len(),
            facts == nodes.deep_view(),
            forall|k: int| 0 < k < i ==> facts[0].depth < (#[trigger] facts[k]).depth,
            forall|k: int|
                0 <= k < i ==> (#[trigger] facts[k]).start_byte <= facts[k].end_byte <= len,
        decreases nodes.len() - i,
    {
        assert(facts[i as int] == nodes@[i as int].deep_view());
        assert(facts[0] == nodes@[0].deep_view());
        if i > 0 && nodes[0].depth >= nodes[i].depth {
            return false;
        }
        if nodes[i].start_byte > nodes[i].end_byte || nodes[i].end_byte > len {
            return false;
        }
        i += 1;
    }
    true
}

/// The path from the root down to the last node before `next`: its entries stand in order, and
/// each is less deep than those that follow.
#[verifier::opaque]
spec fn is_open_path(nodes: Seq<NodeFacts>, path: Seq<usize>, next: int) -> bool {
    &&& forall|t: int| 0 <= t < path.len() ==> (#[trigger] path[t]) < next
    &&& forall|t: int, u: int|
        0 <= t < u < path.len() ==> (#[trigger] path[t]) < (#[trigger] path[u])
            && nodes[path[t] as int].depth < nodes[path[u] as int].depth
}

/// The nodes between two entries of the path are at least as deep as the second of them, and
/// those between the last entry and `next` are at least as deep as `bound`.
#[verifier::opaque]
spec fn covers(nodes: Seq<NodeFacts>, path: Seq<usize>, next: int, bound: int) -> bool {
    &&& forall|k: int|
        0 <= k < next && (path.len() == 0 || path.last() < k) ==> (#[trigger] nodes[k]).depth
            >= bound
    &&& forall|t: int, k: int|
        0 <= t < path.len() && 0 <= k < path[t] && (t == 0 || path[t - 1] < k) ==> (
        #[trigger] nodes[k]).depth >= nodes[(#[trigger] path[t]) as int].depth
}

/// Where the path ends just before `next`, no node stands between them.
proof fn lemma_covers_any_bound(nodes: Seq<NodeFacts>, path: Seq<usize>, next: int, bound: int)
    requires
        covers(nodes, path, next, 0),
        next > 0 ==> path.len() > 0 && path.last() == next - 1,
    ensures
        covers(nodes, path, next, bound),
{
    reveal(covers);
}

/// Dropping a last entry that is not above `next`.
proof fn lemma_covers_pop(nodes: Seq<NodeFacts>, path: Seq<usize>, next: int, bound: int)
    requires
        is_open_path(nodes, path, next),
        covers(nodes, path, next, bound),
        path.len() > 0,
        nodes[path.last() as int].depth >= bound,
    ensures
        is_open_path(nodes, path.drop_last(), next),
        covers(nodes, path.drop_last(), next, bound),
{
    reveal(is_open_path);
    reveal(covers);
    let rest = path.drop_last();
    let last = path.len() - 1;
    assert forall|k: int| 0 <= k < next && (rest.len() == 0 || rest.last() < k) implies (
    #[trigger] nodes[k]).depth >= bound by {
        if k < path[last] {
            assert(nodes[k].depth >= nodes[path[last] as int].depth);
        }
    }
    assert forall|t: int, k: int|
        0 <= t < rest.len() && 0 <= k < rest[t] && (t == 0 || rest[t - 1] < k) implies (
    #[trigger] nodes[k]).depth >= nodes[(#[trigger] rest[t]) as int].depth by {
        assert(rest[t] == path[t]);
    }
}

/// The node after the path has the path's last entry as its parent.
proof fn lemma_parent_is_last(nodes: Seq<NodeFacts>, path: Seq<usize>, next: int)
    requires
        0 <= next < nodes.len(),
        is_open_path(nodes, path, next),
        covers(nodes, path, next, nodes[next].depth as int),
        path.len() > 0 ==> nodes[path.last() as int].depth < nodes[next].depth,
    ensures
        forall|i: int|
            0 <= i < next ==> (#[trigger] is_parent(nodes, i, next) <==> (path.len() > 0
                && path.last() == i)),
{
    reveal(is_open_path);
    reveal(covers);
    assert forall|i: int| 0 <= i < next implies (#[trigger] is_parent(nodes, i, next) <==> (
    path.len() > 0 && path.last() == i)) by {
        if path.len() > 0 {
            let p = path.last() as int;
            assert(path[path.len() - 1] < next);
            if i < p {
                assert(nodes[p].depth < nodes[next].depth);
            } else if p < i {
                assert(nodes[i].depth >= nodes[next].depth);
            }
        } else {
            assert(nodes[i].depth >= nodes[next].depth);
        }
    }
}

/// The path grows by the node after it.
proof fn lemma_covers_push(nodes: Seq<NodeFacts>, path: Seq<usize>, next: usize)
    requires
        next < nodes.len(),
        is_open_path(nodes, path, next as int),
        covers(nodes, path, next as int, nodes[next as int].depth as int),
        path.len() > 0 ==> nodes[path.last() as int].depth < nodes[next as int].depth,
    ensures
        is_open_path(nodes, path.push(next), next + 1),
        covers(nodes, path.push(next), next + 1, 0),
{
    reveal(is_open_path);
    reveal(covers);
    let grown = path.push(next);
    assert forall|t: int, u: int| 0 <= t < u < grown.len() implies (#[trigger] grown[t]) < (
    #[trigger] grown[u]) && nodes[grown[t] as int].depth < nodes[grown[u] as int].depth by {
        assert(grown[t] == path[t]);
        if u < path.len() {
            assert(grown[u] == path[u]);
        } else if t < path.len() - 1 {
            assert(nodes[path[t] as int].depth < nodes[path[path.len() - 1] as int].depth);
        }
    }
    assert forall|t: int, k: int|
        0 <= t < grown.len() && 0 <= k < grown[t] && (t == 0 || grown[t - 1] < k) implies (
    #[trigger] nodes[k]).depth >= nodes[(#[trigger] grown[t]) as int].depth by {
        if t < path.len() {
            assert(grown[t] == path[t]);
            if t > 0 {
                assert(grown[t - 1] == path[t - 1]);
            }
        } else if t > 0 {
            assert(grown[t - 1] == path.last());
        }
    }
}

/// The children of every node of a tree.
fn link_children(nodes: &Vec<SyntaxNode>) -> (children: Vec<Vec<usize>>)
    ensures
        children@.len() == nodes@.len(),
        forall|i: int|
            0 <= i < nodes@.len() ==> (#[trigger] children@[i])@ == children_of(
                nodes.deep_view(),
                i,
            ),
{
    let ghost facts = nodes.deep_view();
    let mut children: Vec<Vec<usize>> = Vec::new();
    let mut path: Vec<usize> = Vec::new();
    let mut j: usize = 0;
    proof {
        reveal(is_open_path);
        reveal(covers);
    }
    while j < nodes.len()
        invariant
            j <= nodes.len(),
            facts == nodes.deep_view(),
            children@.len() == j,
            is_open_path(facts, path@, j as int),
            j > 0 ==> path@.len() > 0 && path@.last() == j - 1,
            covers(facts, path@, j as int, 0),
            forall|i: int|
                0 <= i < j ==> (#[trigger] children@[i])@ == children_below(facts, i, j as nat),
        decreases nodes.len() - j,
    {
        let depth: u32 = nodes[j].depth;
        proof {
            lemma_covers_any_bound(facts, path@, j as int, depth as int);
        }
        while path.len() > 0 && nodes[entry_above(&nodes, &path, j)].depth >= depth
            invariant
                j < nodes.len(),
                facts == nodes.deep_view(),
                facts[j as int].depth == depth,
                is_open_path(facts, path@, j as int),
                covers(facts, path@, j as int, depth as int),
            ensures
                is_open_path(facts, path@, j as int),
                covers(facts, path@, j as int, depth as int),
                path@.len() > 0 ==> facts[path@.last() as int].depth < depth,
            decreases path.len(),
        {
            proof {
                lemma_covers_pop(facts, path@, j as int, depth as int);
                assert(path@.subrange(0, path@.len() - 1) =~= path@.drop_last());
            }
            path.pop();
        }
        let ghost above = path@;
        let ghost earlier = children@;
        proof {
            lemma_parent_is_last(facts, above, j as int);
            lemma_covers_push(facts, above, j);
        }
        if path.len() > 0 {
            let parent: usize = entry_above(&nodes, &path, j);
            children[parent].push(j);
        }
        children.push(Vec::new());
        path.push(j);
        proof {
            assert forall|i: int| 0 <= i < j + 1 implies (#[trigger] children@[i])@
                == children_below(facts, i, (j + 1) as nat) by {
                if i < j {
                    assert(earlier[i]@ == children_below(facts, i, j as nat));
                    assert(is_parent(facts, i, j as int) <==> (above.len() > 0 && above.last()
                        == i));
                } else {
                    lemma_no_children_before(facts, i, (j + 1) as nat);
                }
            }
        }
        j += 1;
    }
    children
}

/// The last entry of a path.
fn entry_above(nodes: &Vec<SyntaxNode>, path: &Vec<usize>, next: usize) -> (r: usize)
    requires
        next < nodes@.len(),
        path@.len() > 0,
        is_open_path(nodes.deep_view(), path@, next as int),
    ensures
        r == path@.last(),
        r < next,
{
    proof {
        reveal(is_open_path);
        assert(path@[path@.len() - 1] < next);
    }
    path[path.len() - 1]
}

/// A node has no children among the nodes up to and including itself.
proof fn lemma_no_children_before(nodes: Seq<NodeFacts>, parent: int, bound: nat)
    requires
        bound <= parent + 1,
    ensures
        children_below(nodes, parent, bound) == Seq::<usize>::empty(),
    decreases bound,
{
    if bound > 0 {
        lemma_no_children_before(nodes, parent, (bound - 1) as nat);
    }
}

/// The text that a node covers, where its bytes are UTF-8.
pub open spec fn covered_text(bytes: Seq<u8>, node: NodeFacts) -> Option<Seq<char>> {
    let covered = bytes.subrange(node.start_byte as int, node.end_byte as int);
    if valid_utf8(covered) {
        Some(decode_utf8(covered))
    } else {
        None
    }
}

/// A parsed document, as its bytes and the nodes of its tree.
pub struct DocModel {
    pub bytes: Seq<u8>,
    pub nodes: Seq<NodeFacts>,
}

/// What a parsed document says.
pub open spec fn doc_model(doc: LiveDoc) -> DocModel {
    DocModel { bytes: doc.bytes(), nodes: doc.nodes() }
}

/// What a parsed document says, where there is one.
pub open spec fn optional_model(doc: Option<LiveDoc>) -> Option<DocModel> {
    match doc {
        Some(doc) => Some(doc_model(doc)),
        None => None,
    }
}

/// Whether nodes can be those of a Kotlin text: they are those of a tree that was made from the
/// text, they form a tree over its bytes, and for a text in ASCII they are those that the grammar
/// yields.
pub open spec fn may_have_nodes(text: Seq<char>, nodes: Seq<NodeFacts>) -> bool {
    &&& exists|tree: tree_sitter::Tree| #[trigger]
        tree_nodes(tree) == nodes && tree_text(tree) == text
    &&& is_document_tree(nodes, encode_utf8(text).len())
    &&& is_ascii_chars(text) ==> nodes == ascii_nodes(text)
}

/// Whether a document, or that there is none, can come of parsing a Kotlin text. There is one
/// exactly where the text is within the limits of the parser, and it is one of that text.
pub open spec fn may_parse(text: Seq<char>, doc: Option<DocModel>) -> bool {
    match doc {
        Some(doc) => {
            &&& within_limits(text)
            &&& doc.bytes == encode_utf8(text)
            &&& may_have_nodes(text, doc.nodes)
        },
        None => !within_limits(text),
    }
}

/// A list of children holds exactly the nodes whose parent is the given one, in order.
pub proof fn lemma_children_below(nodes: Seq<NodeFacts>, parent: int, bound: nat)
    requires
        bound <= nodes.len() <= usize::MAX,
    ensures
        forall|t: int|
            0 <= t < children_below(nodes, parent, bound).len() ==> {
                let child = #[trigger] children_below(nodes, parent, bound)[t];
                child < bound && is_parent(nodes, parent, child as int)
            },
        forall|child: int|
            0 <= child < bound && #[trigger] is_parent(nodes, parent, child) ==> children_below(
                nodes,
                parent,
                bound,
            ).contains(child as usize),
        forall|t: int, u: int|
            0 <= t < u < children_below(nodes, parent, bound).len() ==> (#[trigger] children_below(
                nodes,
                parent,
                bound,
            )[t]) < (#[trigger] children_below(nodes, parent, bound)[u]),
    decreases bound,
{
    if bound > 0 {
        lemma_children_below(nodes, parent, (bound - 1) as nat);
        let before = children_below(nodes, parent, (bound - 1) as nat);
        let all = children_below(nodes, parent, bound);
        assert forall|child: int|
            0 <= child < bound && #[trigger] is_parent(nodes, parent, child) implies all.contains(
            child as usize,
        ) by {
            if child < bound - 1 {
                assert(before.contains(child as usize));
                let t = choose|t: int| 0 <= t < before.len() && before[t] == child as usize;
                assert(all[t] == child as usize);
            } else {
                assert(all.last() == child as usize);
            }
        }
    }
}

/// The places of a node and of its descendants, a node before its descendants and the children
/// of a node from right to left.
pub open spec fn visit(nodes: Seq<NodeFacts>, node: int) -> Seq<int>
    decreases nodes.len() - node, 1nat, 0nat,
{
    if 0 <= node < nodes.len() {
        seq![node] + visit_all(nodes, children_of(nodes, node), node)
    } else {
        Seq::empty()
    }
}

/// The places of the listed nodes and of their descendants, from the last listed node to the
/// first. The listed nodes come after the place `above`.
pub open spec fn visit_all(nodes: Seq<NodeFacts>, list: Seq<usize>, above: int) -> Seq<int>
    decreases nodes.len() - above, 0nat, list.len(),
{
    if list.len() == 0 {
        Seq::empty()
    } else {
        let first = if above < list.last() < nodes.len() {
            visit(nodes, list.last() as int)
        } else {
            Seq::empty()
        };
        first + visit_all(nodes, list.drop_last(), above)
    }
}

/// Whether every listed node comes after the place `above`.
pub open spec fn all_after(nodes: Seq<NodeFacts>, list: Seq<usize>, above: int) -> bool {
    forall|t: int| 0 <= t < list.len() ==> above < (#[trigger] list[t]) < nodes.len()
}

proof fn lemma_visit_all_above(nodes: Seq<NodeFacts>, list: Seq<usize>, above: int, other: int)
    requires
        all_after(nodes, list, above),
        all_after(nodes, list, other),
    ensures
        visit_all(nodes, list, above) == visit_all(nodes, list, other),
    decreases list.len(),
{
    if list.len() > 0 {
        lemma_visit_all_above(nodes, list.drop_last(), above, other);
        assert(above < list[list.len() - 1] < nodes.len());
        assert(other < list[list.len() - 1] < nodes.len());
    }
}

proof fn lemma_visit_all_concat(
    nodes: Seq<NodeFacts>,
    first: Seq<usize>,
    second: Seq<usize>,
    above: int,
)
    ensures
        visit_all(nodes, first + second, above) == visit_all(nodes, second, above) + visit_all(
            nodes,
            first,
            above,
        ),
    decreases second.len(),
{
    if second.len() > 0 {
        assert((first + second).drop_last() =~= first + second.drop_last());
        lemma_visit_all_concat(nodes, first, second.drop_last(), above);
    } else {
        assert(first + second =~= first);
    }
}

/// A walk over the whole tree starts at the root.
pub proof fn lemma_visit_root(nodes: Seq<NodeFacts>)
    requires
        nodes.len() > 0,
    ensures
        all_after(nodes, seq![0usize], -1),
        visit_all(nodes, seq![0usize], -1) == visit(nodes, 0),
{
    reveal_with_fuel(visit_all, 2);
    assert(seq![0usize].drop_last() =~= Seq::<usize>::empty());
    assert(visit_all(nodes, seq![0usize], -1) =~= visit(nodes, 0));
}

/// One step of a walk that keeps the nodes still to be visited on a stack.
pub proof fn lemma_visit_step(nodes: Seq<NodeFacts>, stack: Seq<usize>)
    requires
        nodes.len() <= usize::MAX,
        stack.len() > 0,
        all_after(nodes, stack, -1),
    ensures
        ({
            let rest = stack.drop_last() + children_of(nodes, stack.last() as int);
            &&& all_after(nodes, rest, -1)
            &&& visit_all(nodes, stack, -1) == seq![stack.last() as int] + visit_all(
                nodes,
                rest,
                -1,
            )
        }),
{
    let top = stack.last() as int;
    let children = children_of(nodes, top);
    assert(-1 < stack[stack.len() - 1] < nodes.len());
    lemma_children_below(nodes, top, nodes.len());
    lemma_visit_all_above(nodes, children, top, -1);
    lemma_visit_all_concat(nodes, stack.drop_last(), children, -1);
    assert(visit(nodes, top) == seq![top] + visit_all(nodes, children, top));
    assert(visit_all(nodes, stack, -1) == visit(nodes, top) + visit_all(
        nodes,
        stack.drop_last(),
        -1,
    ));
    assert(visit_all(nodes, stack, -1) =~= seq![top] + visit_all(
        nodes,
        stack.drop_last() + children,
        -1,
    ));
}

impl LiveDoc {
    /// The nodes of a valid document form a tree over its bytes.
    pub proof fn lemma_document_tree(&self)
        requires
            self.wf(),
        ensures
            is_document_tree(self.nodes(), self.bytes().len()),
            self.nodes().len() <= usize::MAX,
    {
        assert(self.nodes().len() == self.nodes.len());
    }

    /// A document from its bytes and the nodes of its tree in the tree's order.
    ///
    /// There is none where the nodes do not form a tree over the bytes.
    pub fn from_nodes(bytes: Vec<u8>, nodes: Vec<SyntaxNode>) -> (r: Option<LiveDoc>)
        ensures
            r is Some <==> is_document_tree(nodes.deep_view(), bytes@.len()),
            r matches Some(doc) ==> {
                &&& doc.wf()
                &&& doc.bytes() == bytes@
                &&& doc.nodes() == nodes.deep_view()
            },
    {
        if !check_document_tree(&nodes, bytes.len()) {
            return None;
        }
        let children = link_children(&nodes);
        Some(LiveDoc { bytes, nodes, children })
    }

    /// The number of nodes.
    pub fn node_count(&self) -> (r: usize)
        requires
            self.wf(),
        ensures
            r == self.nodes().len(),
            r > 0,
    {
        self.nodes.len()
    }

    /// The node at a place.
    pub fn node(&self, index: usize) -> (r: &SyntaxNode)
        requires
            self.wf(),
            index < self.nodes().len(),
        ensures
            r.deep_view() == self.nodes()[index as int],
    {
        &self.nodes[index]
    }

    /// The places of a node's children, from left to right.
    pub fn children(&self, index: usize) -> (r: &Vec<usize>)
        requires
            self.wf(),
            index < self.nodes().len(),
        ensures
            r@ == children_of(self.nodes(), index as int),
            all_after(self.nodes(), r@, index as int),
    {
        proof {
            assert(self.nodes().len() == self.nodes.len());
            lemma_children_below(self.nodes(), index as int, self.nodes().len());
        }
        &self.children[index]
    }

    /// The text that a node covers, where its bytes are UTF-8.
    pub fn text(&self, index: usize) -> (r: Option<&str>)
        requires
            self.wf(),
            index < self.nodes().len(),
        ensures
            r.deep_view() == covered_text(self.bytes(), self.nodes()[index as int]),
    {
        let node = &self.nodes[index];
        assert(node.deep_view() == self.nodes()[index as int]);
        utf8_text(slice_subrange(self.bytes.as_slice(), node.start_byte, node.end_byte))
    }
}

impl Clone for LiveDoc {
    fn clone(&self) -> (r: Self)
        ensures
            self.wf() ==> r.wf(),
            r.bytes() == self.bytes(),
            r.nodes() == self.nodes(),
    {
        let r = LiveDoc {
            bytes: self.bytes.clone(),
            nodes: self.nodes.clone(),
            children: self.children.clone(),
        };
        proof {
            assert(r.bytes@ =~= self.bytes@);
            assert forall|i: int| 0 <= i < self.nodes@.len() implies #[trigger] r.nodes@[i]
                == self.nodes@[i] by {
                assert(cloned(self.nodes@[i], r.nodes@[i]));
            }
            assert(r.nodes.deep_view() =~= self.nodes.deep_view());
            assert forall|i: int| 0 <= i < self.children@.len() implies (#[trigger] r.children@[i])@
                == self.children@[i]@ by {
                assert(cloned(self.children@[i], r.children@[i]));
                assert(r.children@[i]@ =~= self.children@[i]@);
            }
        }
        r
    }
}

/// Whether a text stays within the limits of the parser.
pub fn is_within_limits(text: &str) -> (r: bool)
    ensures
        r == within_limits(text@),
{
    if text.as_bytes_vec().len() > u32::MAX as usize {
        return false;
    }
    let chars = chars_of(text);
    let mut count: usize = 0;
    let mut ready = true;
    let mut i: usize = 0;
    while i < chars.len()
        invariant
            i <= chars@.len(),
            chars@ == text@,
            count <= i,
            open_strings(text@, i as int) == (count as nat, ready),
        decreases chars.len() - i,
    {
        if chars[i] == '"' && ready {
            count += 1;
            ready = false;
        } else if interrupts_at(&chars, i) {
            ready = true;
        }
        i += 1;
    }
    count <= MAX_OPEN_STRINGS
}

/// Whether an open string may be left at a character without being closed.
fn interrupts_at(chars: &Vec<char>, i: usize) -> (r: bool)
    requires
        i < chars@.len(),
    ensures
        r == interrupts(chars@, i as int),
{
    if chars[i] == '\0' {
        return true;
    }
    if chars[i] != '$' || i == chars.len() - 1 {
        return false;
    }
    chars[i + 1] == '{' || chars[i + 1] > '\u{7f}'
}

/// Parses a Kotlin document.
///
/// There is none exactly where the text goes beyond the limits of the parser.
pub fn parse_live(text: &str) -> (r: Option<LiveDoc>)
    ensures
        r is Some <==> within_limits(text@),
        may_parse(text@, optional_model(r)),
        r matches Some(doc) ==> doc.wf(),
{
    if !is_within_limits(text) {
        return None;
    }
    let tree = match parse_kotlin(text) {
        Some(tree) => tree,
        None => return None,
    };
    let count: usize = node_count(&tree);
    let mut nodes: Vec<SyntaxNode> = Vec::new();
    while nodes.len() < count
        invariant
            count == tree_nodes(tree).len(),
            nodes@.len() <= count,
            nodes.deep_view() == tree_nodes(tree).take(nodes@.len() as int),
        decreases count - nodes.len(),
    {
        let ghost before = nodes.deep_view();
        let node = node_at(&tree, nodes.len());
        nodes.push(node);
        assert(nodes.deep_view() =~= before.push(node.deep_view()));
        assert(before.push(node.deep_view()) =~= tree_nodes(tree).take(nodes@.len() as int));
    }
    assert(nodes.deep_view() =~= tree_nodes(tree));
    LiveDoc::from_nodes(text.as_bytes_vec(), nodes)
}

/// Whether a node is another or lies below it.
pub open spec fn in_subtree(nodes: Seq<NodeFacts>, top: int, node: int) -> bool {
    &&& 0 <= top <= node < nodes.len()
    &&& forall|k: int| top < k <= node ==> nodes[top].depth < (#[trigger] nodes[k]).depth
}

proof fn lemma_visit_all_contains(nodes: Seq<NodeFacts>, list: Seq<usize>, above: int, node: int)
    requires
        all_after(nodes, list, above),
    ensures
        visit_all(nodes, list, above).contains(node) <==> exists|t: int|
            0 <= t < list.len() && visit(nodes, #[trigger] list[t] as int).contains(node),
    decreases list.len(),
{
    if list.len() > 0 {
        let last = list.len() - 1;
        let rest = list.drop_last();
        lemma_visit_all_contains(nodes, rest, above, node);
        assert(above < list[last] < nodes.len());
        let first = visit(nodes, list[last] as int);
        let others = visit_all(nodes, rest, above);
        assert(visit_all(nodes, list, above) == first + others);
        if (first + others).contains(node) {
            let at = choose|at: int| 0 <= at < (first + others).len() && (first + others)[at] == node;
            if at < first.len() {
                assert(first[at] == node);
                assert(visit(nodes, list[last] as int).contains(node));
            } else {
                assert(others[at - first.len()] == node);
                assert(others.contains(node));
                let t = choose|t: int|
                    0 <= t < rest.len() && visit(nodes, #[trigger] rest[t] as int).contains(node);
                assert(list[t] == rest[t]);
            }
        }
        if exists|t: int|
            0 <= t < list.len() && visit(nodes, #[trigger] list[t] as int).contains(node) {
            let t = choose|t: int|
                0 <= t < list.len() && visit(nodes, #[trigger] list[t] as int).contains(node);
            if t == last {
                let at = choose|at: int| 0 <= at < first.len() && first[at] == node;
                assert((first + others)[at] == node);
            } else {
                assert(rest[t] == list[t]);
                let at = choose|at: int| 0 <= at < others.len() && others[at] == node;
                assert((first + others)[first.len() + at] == node);
            }
        }
    } else {
        assert(visit_all(nodes, list, above) == Seq::<int>::empty());
    }
}

/// A visit goes to nodes of the subtree only, and to none twice.
proof fn lemma_visit_within(nodes: Seq<NodeFacts>, top: int)
    requires
        0 <= top < nodes.len() <= usize::MAX,
    ensures
        forall|node: int| #[trigger]
            visit(nodes, top).contains(node) ==> in_subtree(nodes, top, node),
        visit(nodes, top).no_duplicates(),
    decreases nodes.len() - top, 1nat, 0nat,
{
    let list = children_of(nodes, top);
    lemma_children_below(nodes, top, nodes.len());
    lemma_visit_all_within(nodes, list, top);
    let below = visit_all(nodes, list, top);
    assert(visit(nodes, top) == seq![top] + below);
    assert forall|node: int| #[trigger] visit(nodes, top).contains(node) implies in_subtree(
        nodes,
        top,
        node,
    ) by {
        let at = choose|at: int| 0 <= at < visit(nodes, top).len() && visit(nodes, top)[at] == node;
        if at > 0 {
            assert(below[at - 1] == node);
            assert(below.contains(node));
            let t = choose|t: int|
                0 <= t < list.len() && in_subtree(nodes, #[trigger] list[t] as int, node);
            let child = list[t] as int;
            assert(is_parent(nodes, top, child));
            assert forall|k: int| top < k <= node implies nodes[top].depth < (
            #[trigger] nodes[k]).depth by {
                if k > child {
                    assert(nodes[child].depth < nodes[k].depth);
                }
            }
        }
    }
    assert(!below.contains(top)) by {
        if below.contains(top) {
            let t = choose|t: int|
                0 <= t < list.len() && in_subtree(nodes, #[trigger] list[t] as int, top);
            assert(is_parent(nodes, top, list[t] as int));
        }
    }
    assert(visit(nodes, top).no_duplicates()) by {
        let all = visit(nodes, top);
        assert forall|a: int, b: int|
            0 <= a < all.len() && 0 <= b < all.len() && a != b implies all[a] != all[b] by {
            if a > 0 && b > 0 {
                assert(below[a - 1] != below[b - 1]);
            } else if a > 0 {
                assert(below.contains(below[a - 1]));
            } else {
                assert(below.contains(below[b - 1]));
            }
        }
    }
}

proof fn lemma_visit_all_within(nodes: Seq<NodeFacts>, list: Seq<usize>, above: int)
    requires
        0 <= above < nodes.len() <= usize::MAX,
        forall|t: int| 0 <= t < list.len() ==> is_parent(nodes, above, #[trigger] list[t] as int),
        forall|t: int, u: int|
            0 <= t < u < list.len() ==> (#[trigger] list[t]) < (#[trigger] list[u]),
    ensures
        forall|node: int| #[trigger]
            visit_all(nodes, list, above).contains(node) ==> exists|t: int|
                0 <= t < list.len() && in_subtree(nodes, #[trigger] list[t] as int, node),
        visit_all(nodes, list, above).no_duplicates(),
    decreases nodes.len() - above, 0nat, list.len(),
{
    if list.len() > 0 {
        let last = list.len() - 1;
        let child = list[last] as int;
        assert(is_parent(nodes, above, child));
        let rest = list.drop_last();
        assert forall|t: int| 0 <= t < rest.len() implies is_parent(
            nodes,
            above,
            #[trigger] rest[t] as int,
        ) by {
            assert(rest[t] == list[t]);
        }
        assert forall|t: int, u: int| 0 <= t < u < rest.len() implies (#[trigger] rest[t]) < (
        #[trigger] rest[u]) by {
            assert(rest[t] == list[t] && rest[u] == list[u]);
        }
        lemma_visit_within(nodes, child);
        lemma_visit_all_within(nodes, rest, above);
        let first = visit(nodes, child);
        let others = visit_all(nodes, rest, above);
        let all = visit_all(nodes, list, above);
        assert(all == first + others);
        assert forall|node: int| #[trigger] all.contains(node) implies exists|t: int|
            0 <= t < list.len() && in_subtree(nodes, #[trigger] list[t] as int, node) by {
            let at = choose|at: int| 0 <= at < all.len() && all[at] == node;
            if at < first.len() {
                assert(first[at] == node);
                assert(first.contains(node));
                assert(in_subtree(nodes, list[last] as int, node));
            } else {
                assert(others[at - first.len()] == node);
                assert(others.contains(node));
                let t = choose|t: int|
                    0 <= t < rest.len() && in_subtree(nodes, #[trigger] rest[t] as int, node);
                assert(list[t] == rest[t]);
                assert(in_subtree(nodes, list[t] as int, node));
            }
        }
        assert forall|a: int, b: int|
            0 <= a < first.len() && 0 <= b < others.len() implies first[a] != others[b] by {
            let node = first[a];
            assert(first.contains(node));
            if node == others[b] {
                assert(others.contains(node));
                let t = choose|t: int|
                    0 <= t < rest.len() && in_subtree(nodes, #[trigger] rest[t] as int, node);
                assert(rest[t] == list[t]);
                let earlier = list[t] as int;
                assert(earlier < child);
                assert(is_parent(nodes, above, earlier));
                assert(nodes[earlier].depth >= nodes[child].depth);
                assert(nodes[earlier].depth < nodes[child].depth);
            }
        }
        assert forall|a: int, b: int|
            0 <= a < all.len() && 0 <= b < all.len() && a != b implies all[a] != all[b] by {
            let n = first.len() as int;
            if a < n && b < n {
                assert(first[a] != first[b]);
            } else if a >= n && b >= n {
                assert(others[a - n] != others[b - n]);
            } else if a < n {
                assert(first[a] != others[b - n]);
            } else {
                assert(first[b] != others[a - n]);
            }
        }
    } else {
        assert(visit_all(nodes, list, above) == Seq::<int>::empty());
    }
}

/// A visit that goes to a node goes to the node's children.
proof fn lemma_visit_closed(nodes: Seq<NodeFacts>, top: int, parent: int, child: int)
    requires
        0 <= top < nodes.len() <= usize::MAX,
        visit(nodes, top).contains(parent),
        is_parent(nodes, parent, child),
    ensures
        visit(nodes, top).contains(child),
    decreases nodes.len() - top,
{
    let list = children_of(nodes, top);
    let below = visit_all(nodes, list, top);
    lemma_children_below(nodes, top, nodes.len());
    assert(visit(nodes, top) == seq![top] + below);
    let t = if parent == top {
        assert(list.contains(child as usize));
        let t = choose|t: int| 0 <= t < list.len() && list[t] == child as usize;
        assert(visit(nodes, child)[0] == child);
        t
    } else {
        let at = choose|at: int|
            0 <= at < visit(nodes, top).len() && visit(nodes, top)[at] == parent;
        assert(below[at - 1] == parent);
        assert(below.contains(parent));
        lemma_visit_all_contains(nodes, list, top, parent);
        let t = choose|t: int|
            0 <= t < list.len() && visit(nodes, #[trigger] list[t] as int).contains(parent);
        lemma_visit_closed(nodes, list[t] as int, parent, child);
        t
    };
    assert(visit(nodes, list[t] as int).contains(child));
    lemma_visit_all_contains(nodes, list, top, child);
    let at = choose|at: int| 0 <= at < below.len() && below[at] == child;
    assert(visit(nodes, top)[at + 1] == child);
}

/// A node that is not above all earlier ones has a parent among them.
proof fn lemma_has_parent(nodes: Seq<NodeFacts>, above: int, node: int, from: int) -> (parent: int)
    requires
        0 <= above <= from < node < nodes.len(),
        nodes[above].depth < nodes[node].depth,
        forall|k: int| from < k < node ==> (#[trigger] nodes[k]).depth >= nodes[node].depth,
    ensures
        above <= parent,
        is_parent(nodes, parent, node),
    decreases from,
{
    if nodes[from].depth < nodes[node].depth {
        from
    } else {
        lemma_has_parent(nodes, above, node, from - 1)
    }
}

proof fn lemma_visit_reaches(nodes: Seq<NodeFacts>, node: int)
    requires
        nodes.len() <= usize::MAX,
        0 <= node < nodes.len(),
        forall|i: int| 0 < i < nodes.len() ==> nodes[0].depth < (#[trigger] nodes[i]).depth,
    ensures
        visit(nodes, 0).contains(node),
    decreases node,
{
    if node == 0 {
        assert(visit(nodes, 0)[0] == 0);
    } else {
        assert(nodes[0].depth < nodes[node].depth);
        let parent = lemma_has_parent(nodes, 0, node, node - 1);
        lemma_visit_reaches(nodes, parent);
        lemma_visit_closed(nodes, 0, parent, node);
    }
}

/// A walk over a document's tree visits every node once.
pub proof fn every_node_visited_once(nodes: Seq<NodeFacts>, len: nat)
    requires
        is_document_tree(nodes, len),
        nodes.len() <= usize::MAX,
    ensures
        visit(nodes, 0).no_duplicates(),
        forall|node: int| #[trigger]
            visit(nodes, 0).contains(node) <==> 0 <= node < nodes.len(),
{
    lemma_visit_within(nodes, 0);
    assert forall|node: int| #[trigger] visit(nodes, 0).contains(node) <==> 0 <= node
        < nodes.len() by {
        if 0 <= node < nodes.len() {
            lemma_visit_reaches(nodes, node);
        }
    }
}

}
