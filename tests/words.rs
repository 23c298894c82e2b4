use anki_story::anki::AnkiCardInfoResult;
use anki_story::html::{text_content, HtmlNode};
use anki_story::words::{
    div_fragment, extract_word, parse_deck_words, word_below_node, word_in_fragment, ExtractError,
    TARGET_WORD_CLASS,
};

fn card(id: i64, question: &str) -> AnkiCardInfoResult {
    AnkiCardInfoResult {
        answer: String::new(),
        question: question.to_string(),
        deck_name: "X".to_string(),
        model_name: "Basic".to_string(),
        field_order: 0,
        css: String::new(),
        card_id: id,
        interval: 1,
        note: id,
        ord: 0,
        type_field: 2,
        queue: 2,
        due: 10,
        reps: 3,
        lapses: 0,
        left: 0,
        mod_field: None,
    }
}

fn element(classes: &[&str], children: Vec<HtmlNode>) -> HtmlNode {
    HtmlNode::Element {
        name: "div".to_string(),
        classes: classes.iter().map(|c| c.to_string()).collect(),
        children,
    }
}

fn text(t: &str) -> HtmlNode {
    HtmlNode::Text(t.to_string())
}

#[test]
fn word_under_one_wrapper() {
    let q = "<div class=\"card\"><div class=\"targetWordFront\">猫</div></div><div class=\"back\"></div>";
    assert_eq!(extract_word(q, TARGET_WORD_CLASS), Ok("猫".to_string()));
}

#[test]
fn word_without_wrapper() {
    let q = "<div class=\"targetWordFront\">犬</div><div></div>";
    assert_eq!(extract_word(q, TARGET_WORD_CLASS), Ok("犬".to_string()));
}

#[test]
fn word_under_three_wrappers() {
    let q = "<p>x</p><div class=\"a\"><div class=\"b\"><div class=\"c\"><div class=\"targetWordFront\">鳥</div></div></div></div><div></div>";
    assert_eq!(extract_word(q, TARGET_WORD_CLASS), Ok("鳥".to_string()));
}

#[test]
fn word_is_text_of_nested_first_child() {
    let q = "<div class=\"card\"><div class=\"targetWordFront\"><div>猫</div></div></div><div class=\"back\"></div>";
    assert_eq!(extract_word(q, TARGET_WORD_CLASS), Ok("猫".to_string()));
}

#[test]
fn marker_class_among_others() {
    let q = "<div class=\"card\"><div class=\"big targetWordFront\">魚</div></div><div></div>";
    assert_eq!(extract_word(q, TARGET_WORD_CLASS), Ok("魚".to_string()));
}

#[test]
fn no_opening_div() {
    assert_eq!(extract_word("<span>猫</span></div>", TARGET_WORD_CLASS), Err(ExtractError::NoOpeningDiv));
    assert_eq!(extract_word("", TARGET_WORD_CLASS), Err(ExtractError::NoOpeningDiv));
}

#[test]
fn no_closing_div() {
    assert_eq!(extract_word("<div class=\"targetWordFront\">猫", TARGET_WORD_CLASS), Err(ExtractError::NoClosingDiv));
}

#[test]
fn closing_before_opening() {
    assert_eq!(extract_word("</div><div>", TARGET_WORD_CLASS), Err(ExtractError::DivsOutOfOrder));
}

#[test]
fn parser_refuses_block() {
    assert_eq!(extract_word("<div><!x</div>", TARGET_WORD_CLASS), Err(ExtractError::ParseFailed));
}

#[test]
fn first_node_not_element() {
    assert_eq!(extract_word("hello<div></div>", TARGET_WORD_CLASS), Err(ExtractError::NotAnElement));
}

#[test]
fn descent_without_marker() {
    let q = "<div class=\"a\"><span>x</span></div><div></div>";
    assert_eq!(extract_word(q, TARGET_WORD_CLASS), Err(ExtractError::MarkerNotFound));
}

#[test]
fn marker_without_text() {
    let q = "<div class=\"targetWordFront\"></div><div></div>";
    assert_eq!(extract_word(q, TARGET_WORD_CLASS), Err(ExtractError::NoWordText));
    let q = "<div class=\"targetWordFront\"><!-- note --></div><div></div>";
    assert_eq!(extract_word(q, TARGET_WORD_CLASS), Err(ExtractError::NoWordText));
}

#[test]
fn fragment_spans_first_open_to_last_close() {
    assert_eq!(div_fragment("ab<div>x</div>y</div>z"), Ok("<div>x</div>y"));
    assert_eq!(div_fragment("猫<div></div>"), Ok("<div>"));
}

#[test]
fn descent_through_built_tree() {
    let tree = element(&["a"], vec![element(&["b"], vec![element(&["targetWordFront"], vec![text("猫"), text("x")])])]);
    assert_eq!(word_below_node(&tree, "targetWordFront"), Ok("猫".to_string()));
    assert_eq!(word_below_node(&tree, "other"), Err(ExtractError::MarkerNotFound));
    assert_eq!(word_in_fragment(&vec![tree], "targetWordFront"), Ok("猫".to_string()));
}

#[test]
fn descent_follows_first_child_only() {
    let tree = element(&["a"], vec![element(&["b"], vec![]), element(&["targetWordFront"], vec![text("猫")])]);
    assert_eq!(word_below_node(&tree, "targetWordFront"), Err(ExtractError::MarkerNotFound));
}

#[test]
fn fragment_starting_with_text() {
    assert_eq!(word_in_fragment(&vec![text("a")], "targetWordFront"), Err(ExtractError::NotAnElement));
    assert_eq!(word_in_fragment(&vec![], "targetWordFront"), Err(ExtractError::NotAnElement));
}

#[test]
fn text_content_joins_children() {
    let tree = element(&[], vec![text("ab"), HtmlNode::Comment("z".to_string()), element(&[], vec![text("c")]), text("d")]);
    assert_eq!(text_content(&tree), "abcd");
}

#[test]
fn deck_words_in_card_order() {
    let cards = vec![
        card(101, "<div class=\"card\"><div class=\"targetWordFront\">猫</div></div><div></div>"),
        card(102, "<div class=\"card\"><div class=\"targetWordFront\">犬</div></div><div></div>"),
    ];
    assert_eq!(parse_deck_words(cards), Ok(vec!["猫".to_string(), "犬".to_string()]));
}

#[test]
fn deck_words_fail_on_first_bad_card() {
    let cards = vec![
        card(101, "<div class=\"card\"><div class=\"targetWordFront\">猫</div></div><div></div>"),
        card(102, "no markup"),
        card(103, "</div><div>"),
    ];
    assert_eq!(parse_deck_words(cards), Err(ExtractError::NoOpeningDiv));
}

#[test]
fn deck_words_of_no_cards() {
    assert_eq!(parse_deck_words(vec![]), Ok(vec![]));
}

#[test]
fn marker_child_without_text() {
    let q = "<div class=\"card\"><div class=\"targetWordFront\"><span></span></div></div><div></div>";
    assert_eq!(extract_word(q, TARGET_WORD_CLASS), Err(ExtractError::NoWordText));
    let q = "<div class=\"card\"><div class=\"targetWordFront\"><img src=\"a.png\"></div></div><div></div>";
    assert_eq!(extract_word(q, TARGET_WORD_CLASS), Err(ExtractError::NoWordText));
    let cards = vec![card(101, q)];
    assert_eq!(parse_deck_words(cards), Err(ExtractError::NoWordText));
}
