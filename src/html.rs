//! A plain HTML node tree, filled from the `html_parser` crate, and the text
//! content of its nodes.

use vstd::prelude::*;

verus! {

#[verifier::external_type_specification]
#[verifier::external_body]
pub struct ExParsedNode(html_parser::Node);

/// One node of a parsed HTML fragment.
#[derive(Debug)]
pub enum HtmlNode {
    Element { name: String, classes: Vec<String>, children: Vec<HtmlNode> },
    Text(String),
    Comment(String),
}

/// The top-level nodes that `html_parser` reads from a fragment, or `None`
/// where it refuses the fragment.
pub uninterp spec fn parsed_fragment(html: Seq<char>) -> Option<Seq<HtmlNode>>;

/// Relies on `html_parser::Dom::parse`: `Ok` with the fragment's top-level
/// nodes, which depend on the text alone, or `Err` where its grammar refuses
/// the text. Its `unreachable!` arms are taken at their word.
#[verifier::external_body]
pub(crate) fn parse_fragment(html: &str) -> (r: Option<Vec<HtmlNode>>)
    ensures
        r is Some <==> parsed_fragment(html@) is Some,
        r matches Some(v) ==> parsed_fragment(html@) == Some(v@),
{
    match html_parser::Dom::parse(html) {
        Ok(dom) => Some(dom.children.iter().map(from_parsed_node).collect()),
        Err(_) => None,
    }
}

/// Relies on the public variants of `html_parser::Node` and the `name`,
/// `classes` and `children` fields of `html_parser::Element`: carries a node
/// and its subtree over into an `HtmlNode`, one for one.
#[verifier::external_body]
fn from_parsed_node(n: &html_parser::Node) -> HtmlNode {
    match n {
        html_parser::Node::Text(t) => HtmlNode::Text(t.clone()),
        html_parser::Node::Comment(c) => HtmlNode::Comment(c.clone()),
        html_parser::Node::Element(e) => HtmlNode::Element {
            name: e.name.clone(),
            classes: e.classes.clone(),
            children: e.children.iter().map(from_parsed_node).collect(),
        },
    }
}

/// Whether `class` is one of `classes`.
pub open spec fn has_class(classes: Seq<String>, class: Seq<char>) -> bool {
    exists|i: int| 0 <= i < classes.len() && #[trigger] classes[i]@ == class
}

/// The text of a node: a text node's own text, nothing for a comment, and for
/// an element the text of its children, in order.
pub open spec fn node_text(n: HtmlNode) -> Seq<char>
    decreases n,
{
    match n {
        HtmlNode::Text(t) => t@,
        HtmlNode::Comment(_) => Seq::empty(),
        HtmlNode::Element { children, .. } => nodes_text(children@),
    }
}

/// The text of a sequence of sibling nodes, one after the other.
pub open spec fn nodes_text(ns: Seq<HtmlNode>) -> Seq<char>
    decreases ns,
{
    if ns.len() == 0 {
        Seq::empty()
    } else {
        nodes_text(ns.drop_last()) + node_text(ns.last())
    }
}

/// Whether `class` is one of `classes`.
pub fn contains_class(classes: &Vec<String>, class: &str) -> (r: bool)
    ensures
        r == has_class(classes@, class@),
{
    let mut i: usize = 0;
    while i < classes.len()
        invariant
            i <= classes.len(),
            forall|j: int| 0 <= j < i ==> classes@[j]@ != class@,
        decreases classes.len() - i,
    {
        if str_eq(classes[i].as_str(), class) {
            return true;
        }
        i += 1;
    }
    false
}

/// Whether two strings hold the same characters.
pub fn str_eq(a: &str, b: &str) -> (r: bool)
    ensures
        r == (a@ == b@),
{
    let n = a.unicode_len();
    if n != b.unicode_len() {
        return false;
    }
    let mut i: usize = 0;
    while i < n
        invariant
            n == a@.len() == b@.len(),
            i <= n,
            a@.subrange(0, i as int) == b@.subrange(0, i as int),
        decreases n - i,
    {
        if a.get_char(i) != b.get_char(i) {
            return false;
        }
        proof {
            assert(a@.subrange(0, i + 1) == a@.subrange(0, i as int).push(a@[i as int]));
            assert(b@.subrange(0, i + 1) == b@.subrange(0, i as int).push(b@[i as int]));
        }
        i += 1;
    }
    proof {
        assert(a@ == a@.subrange(0, n as int));
        assert(b@ == b@.subrange(0, n as int));
    }
    true
}

/// The text of a node, as `node_text` states it.
pub fn text_content(n: &HtmlNode) -> (r: String)
    ensures
        r@ == node_text(*n),
    decreases n,
{
    match n {
        HtmlNode::Text(t) => t.clone(),
        HtmlNode::Comment(_) => String::new(),
        HtmlNode::Element { children, .. } => {
            let mut acc = String::new();
            let mut i: usize = 0;
            while i < children.len()
                invariant
                    *n is Element,
                    n->Element_children == *children,
                    i <= children.len(),
                    acc@ == nodes_text(children@.subrange(0, i as int)),
                decreases children.len() - i,
            {
                proof {
                    assert(decreases_to!(*n => children[i as int]));
                }
                let t = text_content(&children[i]);
                acc.append(t.as_str());
                proof {
                    let s = children@.subrange(0, i + 1);
                    assert(s.drop_last() == children@.subrange(0, i as int));
                    assert(s.last() == children@[i as int]);
                }
                i += 1;
            }
            proof {
                assert(children@.subrange(0, children@.len() as int) == children@);
            }
            acc
        }
    }
}

} // verus!
