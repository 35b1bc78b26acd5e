//! The tree of a parsed page and the text that is extracted from it.

use vstd::prelude::*;

use crate::text::{chars_of, is_white_space, push_char, same_text, white_space};

verus! {

/// A node of a parsed page, as a mathematical tree.
pub enum Tree {
    /// An element with its tag name and its child nodes in document order.
    Element { name: Seq<char>, children: Seq<Tree> },
    /// A run of text.
    Text { text: Seq<char> },
    /// Any other node: a comment, a doctype, a processing instruction.
    Other,
}

/// An element of a parsed page.
pub struct MarkupElement {
    pub name: String,
    pub children: Vec<MarkupNode>,
}

/// A node of a parsed page.
pub enum MarkupNode {
    Element(MarkupElement),
    Text(String),
    Other,
}

impl MarkupNode {
    /// The tree that this node stands for.
    pub open spec fn tree(self) -> Tree
        decreases self,
    {
        match self {
            MarkupNode::Element(element) => Tree::Element {
                name: element.name@,
                children: element.child_trees(),
            },
            MarkupNode::Text(text) => Tree::Text { text: text@ },
            MarkupNode::Other => Tree::Other,
        }
    }
}

impl MarkupElement {
    /// The trees of this element's children, in order.
    pub open spec fn child_trees(self) -> Seq<Tree>
        decreases self,
    {
        Seq::new(
            self.children.len() as nat,
            |i: int|
                if 0 <= i < self.children.len() {
                    self.children[i].tree()
                } else {
                    Tree::Other
                },
        )
    }
}

/// Names of the elements whose content is no text of the page.
pub const IGNORED_ELEMENTS: [&'static str; 1] = ["script"];

/// Whether an element of this name is left out with all that it holds.
pub open spec fn is_ignored(name: Seq<char>) -> bool {
    exists|k: int| 0 <= k < IGNORED_ELEMENTS@.len() && (#[trigger] IGNORED_ELEMENTS@[k])@ == name
}

/// How many characters of white space a text starts with.
pub open spec fn leading_white(text: Seq<char>) -> nat
    decreases text.len(),
{
    if text.len() > 0 && white_space(text.first()) {
        1 + leading_white(text.drop_first())
    } else {
        0
    }
}

/// How many characters of white space a text ends with.
pub open spec fn trailing_white(text: Seq<char>) -> nat
    decreases text.len(),
{
    if text.len() > 0 && white_space(text.last()) {
        1 + trailing_white(text.drop_last())
    } else {
        0
    }
}

/// A text without the white space at its start and at its end.
pub open spec fn trimmed(text: Seq<char>) -> Seq<char> {
    if leading_white(text) >= text.len() {
        Seq::empty()
    } else {
        text.subrange(leading_white(text) as int, text.len() - trailing_white(text))
    }
}

/// What a run of text adds to the text of a page: nothing where it holds
/// only white space, else its trimmed form and one space.
pub open spec fn text_piece(text: Seq<char>) -> Seq<char> {
    if trimmed(text).len() > 0 {
        trimmed(text).push(' ')
    } else {
        Seq::empty()
    }
}

/// What a node adds to the text of a page.
pub open spec fn node_text(node: Tree) -> Seq<char>
    decreases node, 0nat,
{
    match node {
        Tree::Element { name, children } => if is_ignored(name) {
            Seq::empty()
        } else {
            nodes_text(children, children.len())
        },
        Tree::Text { text } => text_piece(text),
        Tree::Other => Seq::empty(),
    }
}

/// What the first `upto` nodes of a list add to the text of a page, in
/// order.
pub open spec fn nodes_text(nodes: Seq<Tree>, upto: nat) -> Seq<char>
    decreases nodes, upto,
{
    if upto == 0 || upto > nodes.len() {
        Seq::empty()
    } else {
        nodes_text(nodes, (upto - 1) as nat) + node_text(nodes[upto - 1])
    }
}

/// The text under an element: the text of its children in depth-first
/// order, without what ignored elements hold.
pub open spec fn element_text(children: Seq<Tree>) -> Seq<char> {
    nodes_text(children, children.len())
}

proof fn lemma_leading_white_step(text: Seq<char>, i: int)
    requires
        0 <= i < text.len(),
        white_space(text[i]),
    ensures
        leading_white(text.skip(i)) == 1 + leading_white(text.skip(i + 1)),
{
    assert(text.skip(i).drop_first() =~= text.skip(i + 1));
}

proof fn lemma_trailing_white_step(text: Seq<char>, j: int)
    requires
        0 < j <= text.len(),
        white_space(text[j - 1]),
    ensures
        trailing_white(text.take(j)) == 1 + trailing_white(text.take(j - 1)),
{
    assert(text.take(j).drop_last() =~= text.take(j - 1));
}

/// Appends to `out` what a run of text adds to the text of a page.
pub fn push_text_piece(out: &mut String, text: &str)
    ensures
        final(out)@ == old(out)@ + text_piece(text@),
{
    let chars = chars_of(text);
    let len = chars.len();
    let mut start: usize = 0;
    assert(chars@.skip(0) =~= chars@);
    while start < len && is_white_space(chars[start])
        invariant
            len == chars.len(),
            start <= len,
            leading_white(chars@) == start + leading_white(chars@.skip(start as int)),
        decreases len - start,
    {
        proof {
            lemma_leading_white_step(chars@, start as int);
        }
        start += 1;
    }
    if start == len {
        assert(out@ =~= old(out)@ + text_piece(text@));
        return ;
    }
    assert(leading_white(chars@.skip(start as int)) == 0);
    let mut end: usize = len;
    assert(chars@.take(len as int) =~= chars@);
    while end > 0 && is_white_space(chars[end - 1])
        invariant
            len == chars.len(),
            end <= len,
            start < end,
            !white_space(chars@[start as int]),
            trailing_white(chars@) == (len - end) + trailing_white(chars@.take(end as int)),
        decreases end,
    {
        proof {
            lemma_trailing_white_step(chars@, end as int);
        }
        end -= 1;
    }
    assert(trailing_white(chars@.take(end as int)) == 0);
    let mut i: usize = start;
    while i < end
        invariant
            start <= i <= end <= chars.len(),
            out@ == old(out)@ + chars@.subrange(start as int, i as int),
        decreases end - i,
    {
        push_char(out, chars[i]);
        assert(chars@.subrange(start as int, i + 1) =~= chars@.subrange(start as int, i as int).push(
            chars@[i as int],
        ));
        i += 1;
    }
    push_char(out, ' ');
    assert(trimmed(text@) == chars@.subrange(start as int, end as int));
    assert(out@ =~= old(out)@ + text_piece(text@));
}

/// Whether an element of this name is left out.
fn is_ignored_name(name: &str) -> (ignored: bool)
    ensures
        ignored == is_ignored(name@),
{
    let mut k: usize = 0;
    while k < IGNORED_ELEMENTS.len()
        invariant
            k <= IGNORED_ELEMENTS@.len(),
            forall|j: int| 0 <= j < k ==> (#[trigger] IGNORED_ELEMENTS@[j])@ != name@,
        decreases IGNORED_ELEMENTS@.len() - k,
    {
        if same_text(IGNORED_ELEMENTS[k], name) {
            return true;
        }
        k += 1;
    }
    false
}

/// The text under an element: every run of text below it in depth-first
/// order, trimmed and followed by one space, without runs of white space
/// and without anything inside an ignored element.
pub fn extract_text(element: &MarkupElement) -> (text: String)
    ensures
        text@ == element_text(element.child_trees()),
    decreases element,
{
    let mut text = String::new();
    let mut i: usize = 0;
    while i < element.children.len()
        invariant
            i <= element.children.len(),
            text@ == nodes_text(element.child_trees(), i as nat),
        decreases element.children.len() - i,
    {
        let ghost before = text@;
        match &element.children[i] {
            MarkupNode::Element(child) => {
                if !is_ignored_name(child.name.as_str()) {
                    let inner = extract_text(child);
                    text.append(inner.as_str());
                }
            },
            MarkupNode::Text(run) => {
                push_text_piece(&mut text, run.as_str());
            },
            MarkupNode::Other => {},
        }
        assert(text@ =~= before + node_text(element.child_trees()[i as int]));
        i += 1;
    }
    text
}

/// Two nodes are alike outside ignored elements when they are the same but
/// for what stands inside ignored elements, at any depth.
pub open spec fn alike_outside_ignored(a: Tree, b: Tree) -> bool
    decreases a, 0nat,
{
    match a {
        Tree::Element { name, children } => match b {
            Tree::Element { name: other_name, children: other_children } => {
                &&& name == other_name
                &&& is_ignored(name) || (children.len() == other_children.len()
                    && all_alike_outside_ignored(children, other_children, children.len()))
            },
            _ => false,
        },
        Tree::Text { text } => b == a,
        Tree::Other => b == a,
    }
}

/// The first `upto` nodes of two lists are alike outside ignored elements,
/// place by place.
pub open spec fn all_alike_outside_ignored(a: Seq<Tree>, b: Seq<Tree>, upto: nat) -> bool
    decreases a, upto,
{
    if upto == 0 {
        true
    } else if upto > a.len() || upto > b.len() {
        false
    } else {
        all_alike_outside_ignored(a, b, (upto - 1) as nat) && alike_outside_ignored(
            a[upto - 1],
            b[upto - 1],
        )
    }
}

proof fn lemma_alike_node_text(a: Tree, b: Tree)
    requires
        alike_outside_ignored(a, b),
    ensures
        node_text(a) == node_text(b),
    decreases a, 0nat,
{
    match a {
        Tree::Element { name, children } => {
            if !is_ignored(name) {
                lemma_alike_nodes_text(children, b->children, children.len());
            }
        },
        _ => {},
    }
}

proof fn lemma_alike_nodes_text(a: Seq<Tree>, b: Seq<Tree>, upto: nat)
    requires
        all_alike_outside_ignored(a, b, upto),
    ensures
        nodes_text(a, upto) == nodes_text(b, upto),
    decreases a, upto,
{
    if upto > 0 {
        lemma_alike_nodes_text(a, b, (upto - 1) as nat);
        lemma_alike_node_text(a[upto - 1], b[upto - 1]);
    }
}

/// Nothing inside an ignored element reaches the text of a page: an
/// ignored element adds nothing, whatever it holds, and two lists of nodes
/// that differ only inside ignored elements, however deep these stand and
/// whatever stands beside them, have the same text.
pub proof fn lemma_ignored_content_excluded(a: Seq<Tree>, b: Seq<Tree>)
    requires
        a.len() == b.len(),
        all_alike_outside_ignored(a, b, a.len()),
    ensures
        element_text(a) == element_text(b),
        forall|name: Seq<char>, children: Seq<Tree>|
            is_ignored(name) ==> #[trigger] node_text(Tree::Element { name, children })
                == Seq::<char>::empty(),
{
    lemma_alike_nodes_text(a, b, a.len());
}

} // verus!
