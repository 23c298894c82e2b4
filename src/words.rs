//! The target word of a card: the `<div>` block of its question, parsed, and
//! the text under the element that carries the marker class.

use vstd::prelude::*;
use crate::anki::AnkiCardInfoResult;
use crate::html::{
    contains_class, has_class, node_text, parse_fragment, parsed_fragment, text_content, HtmlNode,
};

verus! {

/// The class that marks the element holding the target word.
pub const TARGET_WORD_CLASS: &'static str = "targetWordFront";

/// Where the block to parse starts: the first occurrence of this text.
pub const OPEN_DIV: &'static str = "<div";

/// Where the block to parse ends: the last occurrence of this text.
pub const CLOSE_DIV: &'static str = "</div>";

/// Why no word could be read from a card.
#[derive(Clone, Copy, Debug, PartialEq, Eq, Structural)]
pub enum ExtractError {
    /// The question holds no `<div`.
    NoOpeningDiv,
    /// The question holds no `</div>`.
    NoClosingDiv,
    /// The last `</div>` comes before the first `<div`.
    DivsOutOfOrder,
    /// The HTML parser refused the block.
    ParseFailed,
    /// The block's first top-level node is missing or is no element.
    NotAnElement,
    /// The first-child descent ended before an element with the marker class.
    MarkerNotFound,
    /// The marked element has no first child, or that child holds no text.
    NoWordText,
}

/// `pat` occurs in `s` from index `i` on.
pub open spec fn occurs_at(s: Seq<char>, pat: Seq<char>, i: int) -> bool {
    0 <= i && i + pat.len() <= s.len() && s.subrange(i, i + pat.len()) == pat
}

pub open spec fn occurs(s: Seq<char>, pat: Seq<char>) -> bool {
    exists|i: int| occurs_at(s, pat, i)
}

/// `i` is where `pat` first occurs in `s`.
pub open spec fn first_at(s: Seq<char>, pat: Seq<char>, i: int) -> bool {
    occurs_at(s, pat, i) && forall|j: int| 0 <= j < i ==> !occurs_at(s, pat, j)
}

/// `i` is where `pat` last occurs in `s`.
pub open spec fn last_at(s: Seq<char>, pat: Seq<char>, i: int) -> bool {
    occurs_at(s, pat, i) && forall|j: int| i < j <= s.len() ==> !occurs_at(s, pat, j)
}

/// The block of a question that is parsed: from the first `<div` up to, not
/// including, the last `</div>`.
pub open spec fn question_fragment(q: Seq<char>) -> Result<Seq<char>, ExtractError> {
    if !occurs(q, OPEN_DIV@) {
        Err(ExtractError::NoOpeningDiv)
    } else if !occurs(q, CLOSE_DIV@) {
        Err(ExtractError::NoClosingDiv)
    } else {
        let a = choose|a: int| first_at(q, OPEN_DIV@, a);
        let b = choose|b: int| last_at(q, CLOSE_DIV@, b);
        if b < a {
            Err(ExtractError::DivsOutOfOrder)
        } else {
            Ok(q.subrange(a, b))
        }
    }
}

/// The word that the first child of a marked element gives: its text,
/// which must not be empty; a comment gives none.
pub open spec fn child_word(c: HtmlNode) -> Result<Seq<char>, ExtractError> {
    match c {
        HtmlNode::Comment(_) => Err(ExtractError::NoWordText),
        _ => if node_text(c).len() == 0 {
            Err(ExtractError::NoWordText)
        } else {
            Ok(node_text(c))
        },
    }
}

/// The word found from `n` down through first children: the first element
/// on the way that carries `marker` gives the text of its first child.
pub open spec fn word_below(n: HtmlNode, marker: Seq<char>) -> Result<Seq<char>, ExtractError>
    decreases n,
{
    match n {
        HtmlNode::Element { classes, children, .. } => {
            if has_class(classes@, marker) {
                if children.len() == 0 {
                    Err(ExtractError::NoWordText)
                } else {
                    child_word(children@[0])
                }
            } else if children.len() == 0 {
                Err(ExtractError::MarkerNotFound)
            } else {
                word_below(children@[0], marker)
            }
        },
        _ => Err(ExtractError::MarkerNotFound),
    }
}

/// The word of a parsed block: found from its first top-level node, which
/// must be an element.
pub open spec fn word_in_nodes(nodes: Seq<HtmlNode>, marker: Seq<char>) -> Result<
    Seq<char>,
    ExtractError,
> {
    if nodes.len() == 0 || !(nodes[0] is Element) {
        Err(ExtractError::NotAnElement)
    } else {
        word_below(nodes[0], marker)
    }
}

/// The word of a card's question HTML.
pub open spec fn question_word(q: Seq<char>, marker: Seq<char>) -> Result<Seq<char>, ExtractError> {
    match question_fragment(q) {
        Err(e) => Err(e),
        Ok(f) => match parsed_fragment(f) {
            None => Err(ExtractError::ParseFailed),
            Some(nodes) => word_in_nodes(nodes, marker),
        },
    }
}

/// The node reached from `n` by `k` steps, each into the first child of an
/// element that does not carry `marker`.
pub open spec fn unmarked_descent(n: HtmlNode, k: nat, marker: Seq<char>) -> Option<HtmlNode>
    decreases k,
{
    if k == 0 {
        Some(n)
    } else {
        match n {
            HtmlNode::Element { classes, children, .. } => {
                if !has_class(classes@, marker) && children.len() > 0 {
                    unmarked_descent(children@[0], (k - 1) as nat, marker)
                } else {
                    None
                }
            },
            _ => None,
        }
    }
}

/// `k` unmarked steps down from `n` stands an element that carries
/// `marker` and whose first child is no comment and holds text.
pub open spec fn marked_word_at(n: HtmlNode, k: nat, marker: Seq<char>) -> bool {
    &&& unmarked_descent(n, k, marker) matches Some(m)
    &&& m is Element
    &&& has_class(m->Element_classes@, marker)
    &&& m->Element_children.len() > 0
    &&& !(m->Element_children@[0] is Comment)
    &&& node_text(m->Element_children@[0]).len() > 0
}

/// The text of the first child of the element `k` unmarked steps down from `n`.
pub open spec fn word_at(n: HtmlNode, k: nat, marker: Seq<char>) -> Seq<char> {
    node_text(unmarked_descent(n, k, marker)->Some_0->Element_children@[0])
}

/// However many unmarked wrapper elements stand above it, each with the next
/// as its first child, the marked element reached gives the text of its
/// first child.
pub proof fn lemma_word_under_wrappers(n: HtmlNode, k: nat, marker: Seq<char>)
    requires
        marked_word_at(n, k, marker),
    ensures
        word_below(n, marker) == Ok::<Seq<char>, ExtractError>(word_at(n, k, marker)),
    decreases k,
{
    if k > 0 {
        let children = n->Element_children;
        lemma_word_under_wrappers(children@[0], (k - 1) as nat, marker);
    }
}

/// The same of a question: where its block parses to nodes whose first is
/// an element with the marked element `k` unmarked steps down, the question's
/// word is the text of that element's first child, whatever `k` is.
pub proof fn lemma_question_word_under_wrappers(q: Seq<char>, k: nat, marker: Seq<char>)
    requires
        question_fragment(q) is Ok,
        parsed_fragment(question_fragment(q)->Ok_0) is Some,
        parsed_fragment(question_fragment(q)->Ok_0)->Some_0.len() > 0,
        parsed_fragment(question_fragment(q)->Ok_0)->Some_0[0] is Element,
        marked_word_at(parsed_fragment(question_fragment(q)->Ok_0)->Some_0[0], k, marker),
    ensures
        question_word(q, marker) == Ok::<Seq<char>, ExtractError>(
            word_at(parsed_fragment(question_fragment(q)->Ok_0)->Some_0[0], k, marker),
        ),
{
    lemma_word_under_wrappers(parsed_fragment(question_fragment(q)->Ok_0)->Some_0[0], k, marker);
}

/// A question without `<div`, or without `</div>`, gives no word.
pub proof fn lemma_no_div_no_word(q: Seq<char>, marker: Seq<char>)
    requires
        !occurs(q, OPEN_DIV@) || !occurs(q, CLOSE_DIV@),
    ensures
        question_word(q, marker) is Err,
{
}

/// The characters of `s` in order.
fn chars_of(s: &str) -> (r: Vec<char>)
    ensures
        r@ == s@,
{
    let n = s.unicode_len();
    let mut r: Vec<char> = Vec::new();
    let mut i: usize = 0;
    while i < n
        invariant
            n == s@.len(),
            i <= n,
            r@ == s@.subrange(0, i as int),
        decreases n - i,
    {
        r.push(s.get_char(i));
        assert(s@.subrange(0, i + 1) == s@.subrange(0, i as int).push(s@[i as int]));
        i += 1;
    }
    assert(s@.subrange(0, n as int) == s@);
    r
}

/// Whether `pat` occurs in `s` from index `i` on.
fn matches_at(s: &Vec<char>, pat: &Vec<char>, i: usize) -> (r: bool)
    ensures
        r == occurs_at(s@, pat@, i as int),
{
    if i > s.len() || pat.len() > s.len() - i {
        return false;
    }
    let mut k: usize = 0;
    while k < pat.len()
        invariant
            i + pat@.len() <= s@.len(),
            s@.len() <= usize::MAX,
            k <= pat@.len(),
            forall|j: int| 0 <= j < k ==> s@[i + j] == pat@[j],
        decreases pat.len() - k,
    {
        if s[i + k] != pat[k] {
            assert(s@.subrange(i as int, i + pat@.len())[k as int] != pat@[k as int]);
            return false;
        }
        k += 1;
    }
    assert(s@.subrange(i as int, i + pat@.len()) =~= pat@);
    true
}

proof fn lemma_first_unique(s: Seq<char>, pat: Seq<char>, a: int, b: int)
    requires
        first_at(s, pat, a),
        first_at(s, pat, b),
    ensures
        a == b,
{
}

proof fn lemma_last_unique(s: Seq<char>, pat: Seq<char>, a: int, b: int)
    requires
        last_at(s, pat, a),
        last_at(s, pat, b),
    ensures
        a == b,
{
}

/// Index of the first occurrence of `pat` in `s`, if any.
fn find_first(s: &Vec<char>, pat: &Vec<char>) -> (r: Option<usize>)
    ensures
        r matches Some(i) ==> first_at(s@, pat@, i as int),
        r is None ==> !occurs(s@, pat@),
{
    let mut i: usize = 0;
    loop
        invariant
            i <= s@.len(),
            forall|j: int| 0 <= j < i ==> !occurs_at(s@, pat@, j),
        decreases s@.len() - i,
    {
        if matches_at(s, pat, i) {
            return Some(i);
        }
        if i == s.len() {
            assert forall|j: int| occurs_at(s@, pat@, j) implies false by {
                assert(j <= s@.len());
            }
            return None;
        }
        i += 1;
    }
}

/// Index of the last occurrence of `pat` in `s`, if any.
fn find_last(s: &Vec<char>, pat: &Vec<char>) -> (r: Option<usize>)
    ensures
        r matches Some(i) ==> last_at(s@, pat@, i as int),
        r is None ==> !occurs(s@, pat@),
{
    let mut i: usize = s.len();
    loop
        invariant
            i <= s@.len(),
            forall|j: int| i < j <= s@.len() ==> !occurs_at(s@, pat@, j),
        decreases i,
    {
        if matches_at(s, pat, i) {
            return Some(i);
        }
        if i == 0 {
            return None;
        }
        i -= 1;
    }
}

/// The block of `question` that is parsed, as `question_fragment` states it.
pub fn div_fragment(question: &str) -> (r: Result<&str, ExtractError>)
    ensures
        match r {
            Ok(f) => question_fragment(question@) == Ok::<Seq<char>, ExtractError>(f@),
            Err(e) => question_fragment(question@) == Err::<Seq<char>, ExtractError>(e),
        },
{
    let q = chars_of(question);
    let open = chars_of(OPEN_DIV);
    let close = chars_of(CLOSE_DIV);
    match find_first(&q, &open) {
        None => Err(ExtractError::NoOpeningDiv),
        Some(a) => match find_last(&q, &close) {
            None => Err(ExtractError::NoClosingDiv),
            Some(b) => {
                proof {
                    let ca = choose|a: int| first_at(question@, OPEN_DIV@, a);
                    let cb = choose|b: int| last_at(question@, CLOSE_DIV@, b);
                    lemma_first_unique(question@, OPEN_DIV@, a as int, ca);
                    lemma_last_unique(question@, CLOSE_DIV@, b as int, cb);
                }
                if b < a {
                    Err(ExtractError::DivsOutOfOrder)
                } else {
                    Ok(question.substring_char(a, b))
                }
            },
        },
    }
}

/// The word found from `n` down through first children, as `word_below`
/// states it.
pub fn word_below_node(n: &HtmlNode, marker: &str) -> (r: Result<String, ExtractError>)
    ensures
        match r {
            Ok(w) => word_below(*n, marker@) == Ok::<Seq<char>, ExtractError>(w@),
            Err(e) => word_below(*n, marker@) == Err::<Seq<char>, ExtractError>(e),
        },
    decreases n,
{
    match n {
        HtmlNode::Element { classes, children, .. } => {
            if children.len() == 0 {
                if contains_class(classes, marker) {
                    Err(ExtractError::NoWordText)
                } else {
                    Err(ExtractError::MarkerNotFound)
                }
            } else if contains_class(classes, marker) {
                match &children[0] {
                    HtmlNode::Comment(_) => Err(ExtractError::NoWordText),
                    c => {
                        let t = text_content(c);
                        if t.unicode_len() == 0 {
                            Err(ExtractError::NoWordText)
                        } else {
                            Ok(t)
                        }
                    },
                }
            } else {
                proof {
                    assert(decreases_to!(*n => children[0]));
                }
                word_below_node(&children[0], marker)
            }
        },
        _ => Err(ExtractError::MarkerNotFound),
    }
}

/// The word of a parsed block, as `word_in_nodes` states it.
pub fn word_in_fragment(nodes: &Vec<HtmlNode>, marker: &str) -> (r: Result<String, ExtractError>)
    ensures
        match r {
            Ok(w) => word_in_nodes(nodes@, marker@) == Ok::<Seq<char>, ExtractError>(w@),
            Err(e) => word_in_nodes(nodes@, marker@) == Err::<Seq<char>, ExtractError>(e),
        },
{
    if nodes.len() == 0 {
        return Err(ExtractError::NotAnElement);
    }
    match &nodes[0] {
        HtmlNode::Element { .. } => word_below_node(&nodes[0], marker),
        _ => Err(ExtractError::NotAnElement),
    }
}

/// The word of a card's question HTML, under the element marked with
/// `marker`.
pub fn extract_word(question: &str, marker: &str) -> (r: Result<String, ExtractError>)
    ensures
        match r {
            Ok(w) => question_word(question@, marker@) == Ok::<Seq<char>, ExtractError>(w@),
            Err(e) => question_word(question@, marker@) == Err::<Seq<char>, ExtractError>(e),
        },
{
    let fragment = match div_fragment(question) {
        Ok(f) => f,
        Err(e) => return Err(e),
    };
    match parse_fragment(fragment) {
        None => Err(ExtractError::ParseFailed),
        Some(nodes) => word_in_fragment(&nodes, marker),
    }
}

/// The target words of the cards, in the cards' order; the first card that
/// gives no word fails the whole batch.
pub fn parse_deck_words(deck_contents: Vec<AnkiCardInfoResult>) -> (r: Result<
    Vec<String>,
    ExtractError,
>)
    ensures
        match r {
            Ok(words) => {
                &&& words.len() == deck_contents.len()
                &&& forall|i: int|
                    0 <= i < words.len() ==> question_word(
                        #[trigger] deck_contents@[i].question@,
                        TARGET_WORD_CLASS@,
                    ) == Ok::<Seq<char>, ExtractError>(words@[i]@)
            },
            Err(e) => exists|i: int|
                0 <= i < deck_contents.len() && question_word(
                    #[trigger] deck_contents@[i].question@,
                    TARGET_WORD_CLASS@,
                ) == Err::<Seq<char>, ExtractError>(e) && forall|j: int|
                    0 <= j < i ==> question_word(deck_contents@[j].question@, TARGET_WORD_CLASS@) is Ok,
        },
{
    let mut words: Vec<String> = Vec::new();
    let mut i: usize = 0;
    while i < deck_contents.len()
        invariant
            i <= deck_contents.len(),
            words.len() == i,
            forall|j: int|
                0 <= j < i ==> question_word(
                    #[trigger] deck_contents@[j].question@,
                    TARGET_WORD_CLASS@,
                ) == Ok::<Seq<char>, ExtractError>(words@[j]@),
        decreases deck_contents.len() - i,
    {
        match extract_word(deck_contents[i].question.as_str(), TARGET_WORD_CLASS) {
            Ok(w) => words.push(w),
            Err(e) => {
                assert(question_word(deck_contents@[i as int].question@, TARGET_WORD_CLASS@) is Err);
                return Err(e);
            },
        }
        i += 1;
    }
    Ok(words)
}

} // verus!
