//! Declarations that are marked `expect` or `actual`.

use crate::protocol::{Position, Range};
use crate::syntax::{
    all_after, children_of, covered_text, lemma_visit_root, lemma_visit_step, visit, visit_all,
    LiveDoc, NodeFacts, SyntaxNode,
};
use crate::text::{same_text, trim, trimmed};
use vstd::prelude::*;

verus! {

pub const KIND_FUN_DECL: &'static str = "function_declaration";

pub const KIND_PROP_DECL: &'static str = "property_declaration";

pub const KIND_CLASS_DECL: &'static str = "class_declaration";

pub const KIND_OBJECT_DECL: &'static str = "object_declaration";

pub const KIND_TYPE_ALIAS: &'static str = "type_alias";

pub const KIND_MODIFIERS: &'static str = "modifiers";

pub const KIND_SIMPLE_IDENT: &'static str = "simple_identifier";

pub const KIND_TYPE_IDENT: &'static str = "type_identifier";

/// A marked declaration: its name, where the name stands, and whether the mark is `expect`.
pub type MarkedDecl = (String, Range, bool);

/// What a marked declaration says.
pub type MarkedDeclModel = (Seq<char>, Range, bool);

/// Whether nodes of a kind declare something that can be marked.
pub open spec fn is_decl_kind(kind: Seq<char>) -> bool {
    ||| kind == KIND_FUN_DECL@
    ||| kind == KIND_PROP_DECL@
    ||| kind == KIND_CLASS_DECL@
    ||| kind == KIND_OBJECT_DECL@
    ||| kind == KIND_TYPE_ALIAS@
}

/// What a word marks: `expect` gives `true`, `actual` gives `false`, any other nothing.
pub open spec fn mark_of_word(word: Seq<char>) -> Option<bool> {
    if word == "expect"@ {
        Some(true)
    } else if word == "actual"@ {
        Some(false)
    } else {
        None
    }
}

/// What a node marks by the text that it covers.
pub open spec fn mark_of_node(bytes: Seq<u8>, node: NodeFacts) -> Option<bool> {
    match covered_text(bytes, node) {
        Some(text) => mark_of_word(trimmed(text)),
        None => None,
    }
}

/// The first mark among the listed nodes.
pub open spec fn first_mark(bytes: Seq<u8>, nodes: Seq<NodeFacts>, list: Seq<usize>) -> Option<
    bool,
>
    decreases list.len(),
{
    if list.len() == 0 {
        None
    } else {
        match mark_of_node(bytes, nodes[list.first() as int]) {
            Some(mark) => Some(mark),
            None => first_mark(bytes, nodes, list.drop_first()),
        }
    }
}

/// The first mark among the modifiers that the listed nodes hold.
pub open spec fn first_modifier_mark(
    bytes: Seq<u8>,
    nodes: Seq<NodeFacts>,
    list: Seq<usize>,
) -> Option<bool>
    decreases list.len(),
{
    if list.len() == 0 {
        None
    } else {
        let child = list.first() as int;
        let mark = if nodes[child].kind == KIND_MODIFIERS@ {
            first_mark(bytes, nodes, children_of(nodes, child))
        } else {
            None
        };
        if mark is Some {
            mark
        } else {
            first_modifier_mark(bytes, nodes, list.drop_first())
        }
    }
}

/// The mark of a declaration: the first one among its modifiers.
pub open spec fn mark_of_decl(bytes: Seq<u8>, nodes: Seq<NodeFacts>, node: int) -> Option<bool> {
    first_modifier_mark(bytes, nodes, children_of(nodes, node))
}

/// The first of the listed nodes that has the given kind.
pub open spec fn first_of_kind(
    nodes: Seq<NodeFacts>,
    list: Seq<usize>,
    kind: Seq<char>,
) -> Option<usize>
    decreases list.len(),
{
    if list.len() == 0 {
        None
    } else if nodes[list.first() as int].kind == kind {
        Some(list.first())
    } else {
        first_of_kind(nodes, list.drop_first(), kind)
    }
}

/// Where a node stands, in lines and characters.
pub open spec fn range_of(node: NodeFacts) -> Range {
    Range {
        start: Position { line: node.start_row as u32, character: node.start_column as u32 },
        end: Position { line: node.end_row as u32, character: node.end_column as u32 },
    }
}

/// The text and the place of the first child of the given kind, where there is such a text.
pub open spec fn child_name(
    bytes: Seq<u8>,
    nodes: Seq<NodeFacts>,
    node: int,
    kind: Seq<char>,
) -> Option<(Seq<char>, Range)> {
    match first_of_kind(nodes, children_of(nodes, node), kind) {
        Some(child) => match covered_text(bytes, nodes[child as int]) {
            Some(text) => Some((text, range_of(nodes[child as int]))),
            None => None,
        },
        None => None,
    }
}

/// The name of a declaration and where it stands: a simple identifier, or else a type's.
pub open spec fn name_of_decl(bytes: Seq<u8>, nodes: Seq<NodeFacts>, node: int) -> Option<
    (Seq<char>, Range),
> {
    match child_name(bytes, nodes, node, KIND_SIMPLE_IDENT@) {
        Some(name) => Some(name),
        None => child_name(bytes, nodes, node, KIND_TYPE_IDENT@),
    }
}

/// What a node declares, where it is a marked declaration with a name.
pub open spec fn marked_at(bytes: Seq<u8>, nodes: Seq<NodeFacts>, node: int) -> Option<
    MarkedDeclModel,
> {
    if is_decl_kind(nodes[node].kind) {
        match (mark_of_decl(bytes, nodes, node), name_of_decl(bytes, nodes, node)) {
            (Some(is_expect), Some((name, range))) => Some((name, range, is_expect)),
            _ => None,
        }
    } else {
        None
    }
}

/// What the listed nodes declare, in the order of the list.
pub open spec fn marked_among(bytes: Seq<u8>, nodes: Seq<NodeFacts>, list: Seq<int>) -> Seq<
    MarkedDeclModel,
>
    decreases list.len(),
{
    if list.len() == 0 {
        Seq::empty()
    } else {
        let before = marked_among(bytes, nodes, list.drop_last());
        match marked_at(bytes, nodes, list.last()) {
            Some(decl) => before.push(decl),
            None => before,
        }
    }
}

/// The marked declarations of a document, a declaration before those inside it and siblings
/// from last to first.
pub open spec fn marked_decls(bytes: Seq<u8>, nodes: Seq<NodeFacts>) -> Seq<MarkedDeclModel> {
    marked_among(bytes, nodes, visit(nodes, 0))
}

/// Where a node stands, in lines and characters.
pub fn ts_range_to_lsp(node: &SyntaxNode) -> (r: Range)
    ensures
        r == range_of(node.deep_view()),
{
    Range {
        start: Position {
            line: #[verifier::truncate]
            (node.start_row as u32),
            character: #[verifier::truncate]
            (node.start_column as u32),
        },
        end: Position {
            line: #[verifier::truncate]
            (node.end_row as u32),
            character: #[verifier::truncate]
            (node.end_column as u32),
        },
    }
}

/// The first mark among the listed nodes.
fn mark_among(doc: &LiveDoc, list: &Vec<usize>) -> (r: Option<bool>)
    requires
        doc.wf(),
        all_after(doc.nodes(), list@, -1),
    ensures
        r == first_mark(doc.bytes(), doc.nodes(), list@),
{
    let mut i: usize = 0;
    assert(list@.skip(0) =~= list@);
    while i < list.len()
        invariant
            i <= list@.len(),
            doc.wf(),
            all_after(doc.nodes(), list@, -1),
            first_mark(doc.bytes(), doc.nodes(), list@.skip(i as int)) == first_mark(
                doc.bytes(),
                doc.nodes(),
                list@,
            ),
        decreases list.len() - i,
    {
        assert(list@.skip(i as int).drop_first() =~= list@.skip(i + 1));
        assert(-1 < list@[i as int] < doc.nodes().len());
        if let Some(text) = doc.text(list[i]) {
            let word = trim(text);
            if same_text(word, "expect") {
                return Some(true);
            }
            if same_text(word, "actual") {
                return Some(false);
            }
        }
        i += 1;
    }
    None
}

/// The mark of a declaration: `true` for `expect`, `false` for `actual`, if it has one.
pub fn check_modifier(doc: &LiveDoc, node: usize) -> (r: Option<bool>)
    requires
        doc.wf(),
        node < doc.nodes().len(),
    ensures
        r == mark_of_decl(doc.bytes(), doc.nodes(), node as int),
{
    let list = doc.children(node);
    let mut i: usize = 0;
    assert(list@.skip(0) =~= list@);
    while i < list.len()
        invariant
            i <= list@.len(),
            doc.wf(),
            list@ == children_of(doc.nodes(), node as int),
            all_after(doc.nodes(), list@, -1),
            first_modifier_mark(doc.bytes(), doc.nodes(), list@.skip(i as int))
                == first_modifier_mark(doc.bytes(), doc.nodes(), list@),
        decreases list.len() - i,
    {
        assert(list@.skip(i as int).drop_first() =~= list@.skip(i + 1));
        assert(-1 < list@[i as int] < doc.nodes().len());
        let child: usize = list[i];
        if same_text(&doc.node(child).kind, KIND_MODIFIERS) {
            if let Some(mark) = mark_among(doc, doc.children(child)) {
                return Some(mark);
            }
        }
        i += 1;
    }
    None
}

/// The first child of a node that has the given kind.
pub fn first_child_of_kind(doc: &LiveDoc, node: usize, kind: &str) -> (r: Option<usize>)
    requires
        doc.wf(),
        node < doc.nodes().len(),
    ensures
        r == first_of_kind(doc.nodes(), children_of(doc.nodes(), node as int), kind@),
        r matches Some(child) ==> child < doc.nodes().len(),
{
    let list = doc.children(node);
    let mut i: usize = 0;
    assert(list@.skip(0) =~= list@);
    while i < list.len()
        invariant
            i <= list@.len(),
            doc.wf(),
            list@ == children_of(doc.nodes(), node as int),
            all_after(doc.nodes(), list@, -1),
            first_of_kind(doc.nodes(), list@.skip(i as int), kind@) == first_of_kind(
                doc.nodes(),
                list@,
                kind@,
            ),
        decreases list.len() - i,
    {
        assert(list@.skip(i as int).drop_first() =~= list@.skip(i + 1));
        assert(-1 < list@[i as int] < doc.nodes().len());
        if same_text(&doc.node(list[i]).kind, kind) {
            return Some(list[i]);
        }
        i += 1;
    }
    None
}

/// The text and the place of the first child of the given kind, where there is such a text.
fn name_in_child(doc: &LiveDoc, node: usize, kind: &str) -> (r: Option<(String, Range)>)
    requires
        doc.wf(),
        node < doc.nodes().len(),
    ensures
        r.deep_view() == child_name(doc.bytes(), doc.nodes(), node as int, kind@),
{
    match first_child_of_kind(doc, node, kind) {
        Some(child) => match doc.text(child) {
            Some(text) => Some((text.to_owned(), ts_range_to_lsp(doc.node(child)))),
            None => None,
        },
        None => None,
    }
}

/// The name of a declaration and where it stands.
pub fn extract_decl_name(doc: &LiveDoc, node: usize) -> (r: Option<(String, Range)>)
    requires
        doc.wf(),
        node < doc.nodes().len(),
    ensures
        r.deep_view() == name_of_decl(doc.bytes(), doc.nodes(), node as int),
{
    match name_in_child(doc, node, KIND_SIMPLE_IDENT) {
        Some(name) => Some(name),
        None => name_in_child(doc, node, KIND_TYPE_IDENT),
    }
}

/// Whether nodes of a kind declare something that can be marked.
fn is_decl(kind: &str) -> (r: bool)
    ensures
        r == is_decl_kind(kind@),
{
    same_text(kind, KIND_FUN_DECL) || same_text(kind, KIND_PROP_DECL) || same_text(
        kind,
        KIND_CLASS_DECL,
    ) || same_text(kind, KIND_OBJECT_DECL) || same_text(kind, KIND_TYPE_ALIAS)
}

/// What a node declares, where it is a marked declaration with a name.
fn marked_decl(doc: &LiveDoc, node: usize) -> (r: Option<MarkedDecl>)
    requires
        doc.wf(),
        node < doc.nodes().len(),
    ensures
        r.deep_view() == marked_at(doc.bytes(), doc.nodes(), node as int),
{
    if is_decl(&doc.node(node).kind) {
        if let Some(is_expect) = check_modifier(doc, node) {
            if let Some((name, range)) = extract_decl_name(doc, node) {
                return Some((name, range, is_expect));
            }
        }
    }
    None
}

/// The marked declarations of a document.
pub fn detect_expect_actual(doc: &LiveDoc) -> (r: Vec<MarkedDecl>)
    requires
        doc.wf(),
    ensures
        r.deep_view() == marked_decls(doc.bytes(), doc.nodes()),
{
    let ghost bytes = doc.bytes();
    let ghost nodes = doc.nodes();
    let ghost mut seen: Seq<int> = Seq::empty();
    let mut results: Vec<MarkedDecl> = Vec::new();
    let mut stack: Vec<usize> = Vec::new();
    let count: usize = doc.node_count();
    stack.push(0);
    proof {
        lemma_visit_root(nodes);
        assert(stack@ =~= seq![0usize]);
        assert(results.deep_view() =~= marked_among(bytes, nodes, seen));
        assert(seen + visit_all(nodes, stack@, -1) =~= visit(nodes, 0));
    }
    while stack.len() > 0
        invariant
            doc.wf(),
            count == nodes.len(),
            bytes == doc.bytes(),
            nodes == doc.nodes(),
            all_after(nodes, stack@, -1),
            seen + visit_all(nodes, stack@, -1) == visit(nodes, 0),
            results.deep_view() == marked_among(bytes, nodes, seen),
        decreases visit_all(nodes, stack@, -1).len(),
    {
        let ghost before = stack@;
        let ghost found = results.deep_view();
        proof {
            lemma_visit_step(nodes, before);
        }
        assert(-1 < before[before.len() - 1] < nodes.len());
        let node: usize = stack[stack.len() - 1];
        stack.pop();
        if let Some(decl) = marked_decl(doc, node) {
            results.push(decl);
            assert(results.deep_view() =~= found.push(decl.deep_view()));
        }
        proof {
            assert(seen.push(node as int).drop_last() =~= seen);
            seen = seen.push(node as int);
        }
        let children = doc.children(node);
        let mut i: usize = 0;
        let ghost below = stack@;
        while i < children.len()
            invariant
                i <= children@.len(),
                stack@ == below + children@.take(i as int),
            decreases children.len() - i,
        {
            stack.push(children[i]);
            i += 1;
            assert(children@.take(i as int) =~= children@.take(i - 1).push(children@[i - 1]));
        }
        proof {
            assert(children@.take(i as int) =~= children@);
            assert(stack@ =~= before.drop_last() + children_of(nodes, node as int));
            assert(seen + visit_all(nodes, stack@, -1) =~= visit(nodes, 0));
        }
    }
    assert(seen =~= visit(nodes, 0));
    results
}

}
