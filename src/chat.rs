//! The retry policy of a chat completion: each attempt's reply decides
//! whether to stop with the text, try again, or give up.

use vstd::prelude::*;
use crate::prompt::{debug_message, message_debug, messages_view, ChatMessage, MessageView, Role};

verus! {

/// How many attempts a chat completion gets in all.
pub const MAX_ATTEMPTS: usize = 5;

/// Opens the system message that replaces the first one after the first
/// failure; the rendering of the replaced message follows it.
pub const RETRY_PREAMBLE: &'static str = "You are being invoked as a result of a previous inference failure. Please review the system prompt carefully and response accurately.

";

/// Why a chat completion gave up.
#[derive(Clone, Copy, Debug, PartialEq, Eq, Structural)]
pub enum ChatError {
    /// Every attempt failed; the number of attempts made.
    ExhaustedRetries(usize),
    /// The first attempt failed and there was no first message to rewrite.
    MissingSystemMessage,
}

/// Where a chat completion stands between two attempts.
pub struct RetryState {
    /// How many attempts have failed so far.
    pub attempt: usize,
    /// The messages that the next attempt sends.
    pub messages: Vec<ChatMessage>,
}

/// What follows one attempt.
pub enum ChatStep {
    /// Send `messages` of the state again.
    Retry(RetryState),
    /// The attempt succeeded with this text.
    Done(String),
    /// No attempt is left.
    Failed(ChatError),
}

/// What follows one attempt, as plain values.
pub enum StepView {
    Retry(nat, Seq<MessageView>),
    Done(Seq<char>),
    Failed(ChatError),
}

/// The system message that stands first after the first failure.
pub open spec fn retry_system_message(replaced: MessageView) -> MessageView {
    MessageView { role: Role::System, content: RETRY_PREAMBLE@ + message_debug(replaced) }
}

/// An attempt succeeds when it brings back text that is not empty.
pub open spec fn reply_succeeded(reply: Option<Seq<char>>) -> bool {
    reply matches Some(t) && t.len() > 0
}

/// What follows an attempt that came back with `reply`, after `attempt`
/// failed attempts, with `msgs` sent.
pub open spec fn next_step(attempt: nat, msgs: Seq<MessageView>, reply: Option<Seq<char>>) -> StepView {
    if reply_succeeded(reply) {
        StepView::Done(reply->Some_0)
    } else if attempt == 0 && msgs.len() == 0 {
        StepView::Failed(ChatError::MissingSystemMessage)
    } else if attempt + 1 >= MAX_ATTEMPTS {
        StepView::Failed(ChatError::ExhaustedRetries((attempt + 1) as usize))
    } else if attempt == 0 {
        StepView::Retry(1, msgs.update(0, retry_system_message(msgs[0])))
    } else {
        StepView::Retry(attempt + 1, msgs)
    }
}

/// Where a run of attempts that came back with `replies` ends.
pub open spec fn run_attempts(
    attempt: nat,
    msgs: Seq<MessageView>,
    replies: Seq<Option<Seq<char>>>,
) -> StepView
    decreases replies.len(),
{
    if replies.len() == 0 {
        StepView::Retry(attempt, msgs)
    } else {
        match next_step(attempt, msgs, replies[0]) {
            StepView::Retry(a, m) => run_attempts(a, m, replies.drop_first()),
            other => other,
        }
    }
}

/// The characters of a reply, if there is one.
pub open spec fn reply_chars(reply: Option<String>) -> Option<Seq<char>> {
    match reply {
        Some(t) => Some(t@),
        None => None,
    }
}

/// `n` failed replies.
pub open spec fn failures(n: nat) -> Seq<Option<Seq<char>>> {
    Seq::new(n, |i: int| None)
}

impl ChatStep {
    pub open spec fn view(&self) -> StepView {
        match self {
            ChatStep::Retry(s) => StepView::Retry(s.attempt as nat, messages_view(s.messages@)),
            ChatStep::Done(t) => StepView::Done(t@),
            ChatStep::Failed(e) => StepView::Failed(*e),
        }
    }
}

impl RetryState {
    /// A state with attempts left.
    pub open spec fn wf(&self) -> bool {
        self.attempt < MAX_ATTEMPTS
    }

    /// The state before the first attempt.
    pub fn new(messages: Vec<ChatMessage>) -> (r: RetryState)
        ensures
            r.wf(),
            r.attempt == 0,
            r.messages@ == messages@,
    {
        RetryState { attempt: 0, messages }
    }

    /// What follows an attempt that came back with `reply`.
    pub fn step(self, reply: Option<String>) -> (r: ChatStep)
        requires
            self.wf(),
        ensures
            r.view() == next_step(
                self.attempt as nat,
                messages_view(self.messages@),
                reply_chars(reply),
            ),
            r matches ChatStep::Retry(s) ==> s.wf(),
            self.attempt == 0 && r is Retry ==> r->Retry_0.messages@[0]@ != self.messages@[0]@,
    {
        match reply {
            Some(t) => {
                if t.unicode_len() > 0 {
                    return ChatStep::Done(t);
                }
            },
            None => {},
        }
        assert(!reply_succeeded(reply_chars(reply)));
        let RetryState { attempt, mut messages } = self;
        if attempt == 0 && messages.len() == 0 {
            return ChatStep::Failed(ChatError::MissingSystemMessage);
        }
        if attempt + 1 >= MAX_ATTEMPTS {
            return ChatStep::Failed(ChatError::ExhaustedRetries(attempt + 1));
        }
        if attempt == 0 {
            let mut content = String::from_str(RETRY_PREAMBLE);
            let rendered = debug_message(&messages[0]);
            content.append(rendered.as_str());
            let ghost old_messages = messages@;
            messages.set(0, ChatMessage { role: Role::System, content });
            proof {
                assert(messages_view(messages@) =~= messages_view(old_messages).update(
                    0,
                    retry_system_message(old_messages[0]@),
                ));
            }
        }
        ChatStep::Retry(RetryState { attempt: attempt + 1, messages })
    }
}

proof fn lemma_later_failures(a: nat, msgs: Seq<MessageView>, n: nat)
    requires
        1 <= a < MAX_ATTEMPTS,
    ensures
        run_attempts(a, msgs, failures(n)) == (if a + n < MAX_ATTEMPTS {
            StepView::Retry(a + n, msgs)
        } else {
            StepView::Failed(ChatError::ExhaustedRetries(MAX_ATTEMPTS))
        }),
    decreases n,
{
    if n > 0 {
        assert(failures(n).drop_first() =~= failures((n - 1) as nat));
        if a + 1 < MAX_ATTEMPTS {
            lemma_later_failures(a + 1, msgs, (n - 1) as nat);
        }
    }
}

/// Against replies that all fail, a completion gives up after exactly
/// `MAX_ATTEMPTS` attempts: fewer failures leave it waiting for another
/// attempt, and replies past that many are never asked for.
pub proof fn lemma_gives_up_after_all_attempts(msgs: Seq<MessageView>, n: nat)
    requires
        msgs.len() > 0,
    ensures
        n < MAX_ATTEMPTS ==> run_attempts(0, msgs, failures(n)) is Retry,
        n < MAX_ATTEMPTS ==> run_attempts(0, msgs, failures(n))->Retry_0 == n,
        n >= MAX_ATTEMPTS ==> run_attempts(0, msgs, failures(n)) == StepView::Failed(
            ChatError::ExhaustedRetries(MAX_ATTEMPTS),
        ),
{
    if n > 0 {
        assert(failures(n).drop_first() =~= failures((n - 1) as nat));
        lemma_later_failures(1, msgs.update(0, retry_system_message(msgs[0])), (n - 1) as nat);
    }
}

/// After `k` failed attempts, one that brings back text ends the completion
/// with that text, as long as `k` is below `MAX_ATTEMPTS`; every attempt after
/// the first sends the rewritten system message first and the other messages
/// unchanged.
pub proof fn lemma_success_after_failures(msgs: Seq<MessageView>, k: nat, t: Seq<char>)
    requires
        msgs.len() > 0,
        k < MAX_ATTEMPTS,
        t.len() > 0,
    ensures
        run_attempts(0, msgs, failures(k).push(Some(t))) == StepView::Done(t),
        k >= 1 ==> run_attempts(0, msgs, failures(k)) == StepView::Retry(
            k,
            msgs.update(0, retry_system_message(msgs[0])),
        ),
{
    let rewritten = msgs.update(0, retry_system_message(msgs[0]));
    if k == 0 {
        assert(failures(0).push(Some(t))[0] == Some(t));
    } else {
        assert(failures(k).drop_first() =~= failures((k - 1) as nat));
        lemma_later_failures(1, rewritten, (k - 1) as nat);
        lemma_done_after_failures(1, rewritten, (k - 1) as nat, t);
        assert(failures(k).push(Some(t)).drop_first() =~= failures((k - 1) as nat).push(Some(t)));
    }
}

proof fn lemma_done_after_failures(a: nat, msgs: Seq<MessageView>, n: nat, t: Seq<char>)
    requires
        1 <= a,
        a + n < MAX_ATTEMPTS,
        t.len() > 0,
    ensures
        run_attempts(a, msgs, failures(n).push(Some(t))) == StepView::Done(t),
    decreases n,
{
    if n == 0 {
        assert(failures(0).push(Some(t))[0] == Some(t));
    } else {
        assert(failures(n).push(Some(t)).drop_first() =~= failures((n - 1) as nat).push(Some(t)));
        lemma_done_after_failures(a + 1, msgs, (n - 1) as nat, t);
    }
}

} // verus!
