//! Chat messages and the story prompt built from a list of words.

use vstd::prelude::*;

verus! {

/// Who a chat message speaks as.
#[derive(Clone, Copy, Debug, PartialEq, Eq, Structural)]
pub enum Role {
    System,
    User,
}

/// One role-tagged entry of a chat conversation.
#[derive(Clone, Debug)]
pub struct ChatMessage {
    pub role: Role,
    pub content: String,
}

/// What a chat message holds, as plain values.
pub struct MessageView {
    pub role: Role,
    pub content: Seq<char>,
}

impl View for ChatMessage {
    type V = MessageView;

    open spec fn view(&self) -> MessageView {
        MessageView { role: self.role, content: self.content@ }
    }
}

/// The plain values of a list of messages.
pub open spec fn messages_view(ms: Seq<ChatMessage>) -> Seq<MessageView> {
    ms.map_values(|m: ChatMessage| m@)
}

/// The characters of each string of a list.
pub open spec fn strings_view(ws: Seq<String>) -> Seq<Seq<char>> {
    ws.map_values(|w: String| w@)
}

/// The language the story is written in.
pub const TARGET_LANGUAGE: &'static str = "JAPANESE";

/// The instruction that opens every conversation.
pub const SYSTEM_PROMPT: &'static str = "You are an expert in language learning. You are helping a student learn a new language through reading comprehension.

The student is going to pass you a list of words they have learned, you are to use these words to create a short to medium length story.

You are allowed to use other words when necessary, like particles and other connecting words or phrases.

The goal is for the text to largely consist of the given words in order to maximize comprehension.

Please only respond with text in the given target language.";

/// Opens the user message, before the language's name.
pub const LANGUAGE_LABEL: &'static str = "Target Language: ";

/// Stands between the language's name and the word list.
pub const WORDS_LABEL: &'static str = "\nWords: ";

/// The text of `s` as std's `Debug` shows a string: in double quotes, with
/// quotes, backslashes and control characters escaped.
pub uninterp spec fn debug_quoted(s: Seq<char>) -> Seq<char>;

/// Relies on `<str as Debug>::fmt`, whose output depends on the text alone:
/// two quotes around at least one character for each of the text's.
#[verifier::external_body]
pub(crate) fn quote_debug(s: &str) -> (r: String)
    ensures
        r@ == debug_quoted(s@),
        r@.len() >= s@.len() + 2,
{
    format!("{:?}", s)
}

/// A role as its derived `Debug` shows it.
pub open spec fn role_debug(role: Role) -> Seq<char> {
    match role {
        Role::System => "System"@,
        Role::User => "User"@,
    }
}

/// A message as its derived `Debug` shows it.
pub open spec fn message_debug(m: MessageView) -> Seq<char> {
    "ChatMessage { role: "@ + role_debug(m.role) + ", content: "@ + debug_quoted(m.content) + " }"@
}

/// A message, rendered as `message_debug` states it.
pub fn debug_message(m: &ChatMessage) -> (r: String)
    ensures
        r@ == message_debug(m@),
        r@.len() > m.content@.len(),
{
    let mut out = String::from_str("ChatMessage { role: ");
    match m.role {
        Role::System => out.append("System"),
        Role::User => out.append("User"),
    }
    out.append(", content: ");
    let q = quote_debug(m.content.as_str());
    out.append(q.as_str());
    out.append(" }");
    out
}

/// The quoted words, separated by a comma and a space.
pub open spec fn quoted_items(ws: Seq<Seq<char>>) -> Seq<char>
    decreases ws.len(),
{
    if ws.len() == 0 {
        Seq::empty()
    } else if ws.len() == 1 {
        debug_quoted(ws[0])
    } else {
        quoted_items(ws.drop_last()) + ", "@ + debug_quoted(ws.last())
    }
}

/// A list of words as std's `Debug` shows a list of strings.
pub open spec fn word_list_literal(ws: Seq<Seq<char>>) -> Seq<char> {
    "["@ + quoted_items(ws) + "]"@
}

/// The user message for a language and a list of words.
pub open spec fn user_prompt_text(language: Seq<char>, ws: Seq<Seq<char>>) -> Seq<char> {
    LANGUAGE_LABEL@ + language + WORDS_LABEL@ + word_list_literal(ws)
}

/// A list of words, rendered as `word_list_literal` states it.
pub fn render_word_list(words: &Vec<String>) -> (r: String)
    ensures
        r@ == word_list_literal(strings_view(words@)),
{
    let ghost ws = strings_view(words@);
    let mut out = String::from_str("[");
    let mut i: usize = 0;
    while i < words.len()
        invariant
            i <= words.len(),
            ws == strings_view(words@),
            out@ == "["@ + quoted_items(ws.subrange(0, i as int)),
        decreases words.len() - i,
    {
        if i > 0 {
            out.append(", ");
        }
        let q = quote_debug(words[i].as_str());
        out.append(q.as_str());
        proof {
            let s = ws.subrange(0, i + 1);
            assert(s.drop_last() =~= ws.subrange(0, i as int));
            assert(s.last() == words@[i as int]@);
        }
        i += 1;
    }
    out.append("]");
    proof {
        assert(ws.subrange(0, words@.len() as int) =~= ws);
    }
    out
}

/// The two messages that ask for a story in `TARGET_LANGUAGE` built from
/// `words`: the fixed instruction, then the language and the word list.
pub fn gen_prompt(words: Vec<String>) -> (r: Vec<ChatMessage>)
    ensures
        r.len() == 2,
        r@[0]@ == (MessageView { role: Role::System, content: SYSTEM_PROMPT@ }),
        r@[1]@ == (MessageView {
            role: Role::User,
            content: user_prompt_text(TARGET_LANGUAGE@, strings_view(words@)),
        }),
{
    let mut user = String::from_str(LANGUAGE_LABEL);
    user.append(TARGET_LANGUAGE);
    user.append(WORDS_LABEL);
    let list = render_word_list(&words);
    user.append(list.as_str());
    let system = ChatMessage { role: Role::System, content: String::from_str(SYSTEM_PROMPT) };
    let user = ChatMessage { role: Role::User, content: user };
    let r = vec![system, user];
    r
}

} // verus!
