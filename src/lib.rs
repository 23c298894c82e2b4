//! Reading-practice story generation from reviewed flashcards: the word
//! scrape of card HTML, the prompt, the chat retry policy and the review
//! server's request and response handling.

pub mod html;
pub mod anki;
pub mod words;
pub mod prompt;
pub mod chat;
