//! The review server's card records, the requests this library sends it and
//! the handling of its answers.

use vstd::prelude::*;

verus! {

/// One card as the review server describes it.
#[derive(Clone, Debug)]
pub struct AnkiCardInfoResult {
    pub answer: String,
    pub question: String,
    pub deck_name: String,
    pub model_name: String,
    pub field_order: i64,
    pub css: String,
    pub card_id: i64,
    pub interval: i64,
    pub note: i64,
    pub ord: i64,
    pub type_field: i64,
    pub queue: i64,
    pub due: i64,
    pub reps: i64,
    pub lapses: i64,
    pub left: i64,
    pub mod_field: Option<i64>,
}

#[verifier::external_type_specification]
#[verifier::external_body]
pub struct ExJsonError(serde_json::Error);

/// The server's answer to `findCards`.
#[derive(Clone, Debug)]
pub struct AnkiFindCardsRes {
    pub result: Vec<i64>,
    /// The server's error message, `None` where it reported none.
    pub error: Option<String>,
}

/// The server's answer to `cardsInfo`.
#[derive(Clone, Debug)]
pub struct AnkiCardInfoRes {
    pub result: Vec<AnkiCardInfoResult>,
    /// The server's error message, `None` where it reported none.
    pub error: Option<String>,
}

/// What went wrong between this library and the review server.
#[derive(Clone, Debug)]
pub enum AnkiError {
    /// The server reported this error.
    Api(String),
}

/// Opens a query for the reviewed cards of a deck, before the deck's name.
pub const DECK_QUERY_HEAD: &'static str = "deck:\"";

/// Closes a query for the reviewed cards of a deck.
pub const DECK_QUERY_TAIL: &'static str = "\" is:review";

/// Opens a `findCards` request, before the JSON string of the query.
pub const FIND_CARDS_HEAD: &'static str = "{\"action\":\"findCards\",\"version\":6,\"params\":{\"query\":";

/// Opens a `cardsInfo` request, before the JSON array of card ids.
pub const CARDS_INFO_HEAD: &'static str = "{\"action\":\"cardsInfo\",\"version\":6,\"params\":{\"cards\":";

/// Closes both requests.
pub const REQUEST_TAIL: &'static str = "}}";

/// The lower-case hexadecimal digit of `n`, for `n` below 16.
pub open spec fn hex_digit(n: int) -> char {
    seq!['0', '1', '2', '3', '4', '5', '6', '7', '8', '9', 'a', 'b', 'c', 'd', 'e', 'f'][n]
}

/// How one character stands inside a JSON string: quote and backslash
/// behind a backslash, the control characters with a short escape where
/// JSON has one and as `\u00xx` otherwise, every other character as itself.
pub open spec fn json_char(c: char) -> Seq<char> {
    if c == '"' {
        seq!['\\', '"']
    } else if c == '\\' {
        seq!['\\', '\\']
    } else if c == '\x08' {
        seq!['\\', 'b']
    } else if c == '\t' {
        seq!['\\', 't']
    } else if c == '\n' {
        seq!['\\', 'n']
    } else if c == '\x0C' {
        seq!['\\', 'f']
    } else if c == '\r' {
        seq!['\\', 'r']
    } else if (c as u32) < 0x20 {
        seq!['\\', 'u', '0', '0', hex_digit((c as u32) as int / 16), hex_digit((c as u32) as int % 16)]
    } else {
        seq![c]
    }
}

/// The characters of a text, each as it stands inside a JSON string.
pub open spec fn json_chars(s: Seq<char>) -> Seq<char>
    decreases s.len(),
{
    if s.len() == 0 {
        Seq::empty()
    } else {
        json_chars(s.drop_last()) + json_char(s.last())
    }
}

/// The JSON string literal of a text.
pub open spec fn json_string_text(s: Seq<char>) -> Seq<char> {
    seq!['"'] + json_chars(s) + seq!['"']
}

/// The decimal digits of a natural number.
pub open spec fn nat_decimal(n: nat) -> Seq<char>
    decreases n,
{
    if n < 10 {
        seq![hex_digit(n as int)]
    } else {
        nat_decimal(n / 10) + seq![hex_digit((n % 10) as int)]
    }
}

/// The decimal text of an integer, with a minus sign where it is negative.
pub open spec fn int_decimal(n: int) -> Seq<char> {
    if n < 0 {
        seq!['-'] + nat_decimal((-n) as nat)
    } else {
        nat_decimal(n as nat)
    }
}

/// The integers in decimal, separated by commas.
pub open spec fn json_int_items(ids: Seq<i64>) -> Seq<char>
    decreases ids.len(),
{
    if ids.len() == 0 {
        Seq::empty()
    } else if ids.len() == 1 {
        int_decimal(ids[0] as int)
    } else {
        json_int_items(ids.drop_last()) + seq![','] + int_decimal(ids.last() as int)
    }
}

/// The JSON array of a list of integers.
pub open spec fn json_ids_text(ids: Seq<i64>) -> Seq<char> {
    seq!['['] + json_int_items(ids) + seq![']']
}

/// Relies on `serde_json::to_string` on a `str`: it writes into a `Vec`,
/// which never fails, the string literal with the escapes of its table.
#[verifier::external_body]
fn encode_json_string(s: &str) -> (r: Result<String, serde_json::Error>)
    ensures
        r is Ok,
        r matches Ok(j) ==> j@ == json_string_text(s@),
{
    serde_json::to_string(s)
}

/// Relies on `serde_json::to_string` on a `[i64]`: it writes into a `Vec`,
/// which never fails, the integers in decimal between brackets, with commas.
#[verifier::external_body]
fn encode_json_ids(ids: &[i64]) -> (r: Result<String, serde_json::Error>)
    ensures
        r is Ok,
        r matches Ok(j) ==> j@ == json_ids_text(ids@),
{
    serde_json::to_string(ids)
}

/// The query that finds the reviewed cards of a deck.
pub open spec fn review_query_text(deck: Seq<char>) -> Seq<char> {
    DECK_QUERY_HEAD@ + deck + DECK_QUERY_TAIL@
}

/// The query that finds the reviewed cards of `deck`: `deck:"<deck>" is:review`.
pub fn review_query(deck: &str) -> (r: String)
    ensures
        r@ == review_query_text(deck@),
{
    let mut q = String::from_str(DECK_QUERY_HEAD);
    q.append(deck);
    q.append(DECK_QUERY_TAIL);
    q
}

/// The body of the `findCards` request for the reviewed cards of `deck`.
pub fn find_cards_request(deck: &str) -> (r: String)
    ensures
        r@ == FIND_CARDS_HEAD@ + json_string_text(review_query_text(deck@)) + REQUEST_TAIL@,
{
    let query = review_query(deck);
    let j = encode_json_string(query.as_str()).unwrap();
    let mut body = String::from_str(FIND_CARDS_HEAD);
    body.append(j.as_str());
    body.append(REQUEST_TAIL);
    body
}

/// The body of the `cardsInfo` request for the cards `ids`.
pub fn cards_info_request(ids: &Vec<i64>) -> (r: String)
    ensures
        r@ == CARDS_INFO_HEAD@ + json_ids_text(ids@) + REQUEST_TAIL@,
{
    let j = encode_json_ids(ids.as_slice()).unwrap();
    let mut body = String::from_str(CARDS_INFO_HEAD);
    body.append(j.as_str());
    body.append(REQUEST_TAIL);
    body
}

impl AnkiFindCardsRes {
    /// The card ids, unless the server reported an error.
    pub fn into_result(self) -> (r: Result<Vec<i64>, AnkiError>)
        ensures
            self.error is None <==> r is Ok,
            r matches Ok(ids) ==> ids@ == self.result@,
            r matches Err(e) ==> e->Api_0@ == self.error->Some_0@,
    {
        match self.error {
            Some(m) => Err(AnkiError::Api(m)),
            None => Ok(self.result),
        }
    }
}

impl AnkiCardInfoRes {
    /// The card records, unless the server reported an error.
    pub fn into_result(self) -> (r: Result<Vec<AnkiCardInfoResult>, AnkiError>)
        ensures
            self.error is None <==> r is Ok,
            r matches Ok(cards) ==> cards@ == self.result@,
            r matches Err(e) ==> e->Api_0@ == self.error->Some_0@,
    {
        match self.error {
            Some(m) => Err(AnkiError::Api(m)),
            None => Ok(self.result),
        }
    }
}

} // verus!
