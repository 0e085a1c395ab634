//! The in-memory conversation: ordered messages, mutated only by the state
//! reducer. A streaming exchange appends one user message and one empty
//! assistant placeholder, then grows the placeholder delta by delta and
//! finally replaces it with the finished text.

use vstd::prelude::*;
use vstd::string::*;
use crate::error::{error_text_spec, TabbyApiError};
use crate::text::{chars_to_string, push_str_chars};

verus! {

/// Who authored a message.
#[derive(Clone, Copy, Debug, PartialEq, Eq, Structural)]
pub enum ChatRole {
    User,
    Assistant,
}

/// Wire spelling of a role, as the completions endpoint expects it.
pub open spec fn role_name_spec(r: ChatRole) -> Seq<char> {
    match r {
        ChatRole::User => "user"@,
        ChatRole::Assistant => "assistant"@,
    }
}

impl ChatRole {
    /// The role's wire name.
    pub fn name(&self) -> (r: String)
        ensures
            r@ == role_name_spec(*self),
    {
        match self {
            ChatRole::User => "user".to_owned(),
            ChatRole::Assistant => "assistant".to_owned(),
        }
    }
}

/// One conversation entry. Immutable once superseded: only the last message
/// of a session is ever changed in place.
#[derive(Clone, Debug)]
pub struct Message {
    pub role: ChatRole,
    pub content: String,
}

/// Spec-level image of a [`Message`].
#[verifier::ext_equal]
pub ghost struct MessageModel {
    pub role: ChatRole,
    pub content: Seq<char>,
}

impl View for Message {
    type V = MessageModel;

    open spec fn view(&self) -> MessageModel {
        MessageModel { role: self.role, content: self.content@ }
    }
}

/// Spec-level image of a [`ChatSession`].
#[verifier::ext_equal]
pub ghost struct SessionModel {
    pub id: Seq<char>,
    pub messages: Seq<MessageModel>,
}

/// Whether a delta may be applied: the last message must be the assistant's
/// (the placeholder of the running exchange, possibly already grown).
pub open spec fn can_apply_delta(msgs: Seq<MessageModel>) -> bool {
    msgs.len() > 0 && msgs.last().role == ChatRole::Assistant
}

/// Appending one delta: the last message grows by `d` when it is the
/// assistant's; otherwise nothing changes.
pub open spec fn apply_delta_model(msgs: Seq<MessageModel>, d: Seq<char>) -> Seq<MessageModel> {
    if can_apply_delta(msgs) {
        msgs.update(
            msgs.len() - 1,
            (MessageModel { role: ChatRole::Assistant, content: msgs.last().content + d }),
        )
    } else {
        msgs
    }
}

/// Applying a sequence of deltas in arrival order.
pub open spec fn apply_deltas_model(msgs: Seq<MessageModel>, ds: Seq<Seq<char>>) -> Seq<
    MessageModel,
>
    decreases ds.len(),
{
    if ds.len() == 0 {
        msgs
    } else {
        apply_deltas_model(apply_delta_model(msgs, ds.first()), ds.drop_first())
    }
}

/// The concatenation of a sequence of text fragments, in order.
pub open spec fn concat_all(ds: Seq<Seq<char>>) -> Seq<char>
    decreases ds.len(),
{
    if ds.len() == 0 {
        Seq::empty()
    } else {
        ds.first() + concat_all(ds.drop_first())
    }
}

/// Concatenation distributes over appending fragment sequences.
pub proof fn lemma_concat_all_append(a: Seq<Seq<char>>, b: Seq<Seq<char>>)
    ensures
        concat_all(a + b) == concat_all(a) + concat_all(b),
    decreases a.len(),
{
    if a.len() == 0 {
        assert(a + b =~= b);
        assert(concat_all(a) + concat_all(b) =~= concat_all(b));
    } else {
        lemma_concat_all_append(a.drop_first(), b);
        assert((a + b).first() == a.first());
        assert((a + b).drop_first() =~= a.drop_first() + b);
        assert(a.first() + (concat_all(a.drop_first()) + concat_all(b)) =~= (a.first()
            + concat_all(a.drop_first())) + concat_all(b));
    }
}

/// Order-preserving accumulation: delivering deltas `d1..dn` to a session
/// whose last message is the assistant's leaves every earlier message as it
/// was and makes the assistant message's content the concatenation
/// `d1 + d2 + ... + dn` appended to what it already held.
pub proof fn lemma_delta_accumulation(msgs: Seq<MessageModel>, ds: Seq<Seq<char>>)
    requires
        can_apply_delta(msgs),
    ensures
        apply_deltas_model(msgs, ds).len() == msgs.len(),
        apply_deltas_model(msgs, ds).last().role == ChatRole::Assistant,
        apply_deltas_model(msgs, ds).last().content == msgs.last().content + concat_all(ds),
        forall|i: int|
            0 <= i < msgs.len() - 1 ==> apply_deltas_model(msgs, ds)[i] == msgs[i],
    decreases ds.len(),
{
    if ds.len() == 0 {
        assert(msgs.last().content + concat_all(ds) =~= msgs.last().content);
    } else {
        let stepped = apply_delta_model(msgs, ds.first());
        lemma_delta_accumulation(stepped, ds.drop_first());
        assert((msgs.last().content + ds.first()) + concat_all(ds.drop_first()) =~= msgs.last().content
            + concat_all(ds));
        assert forall|i: int| 0 <= i < msgs.len() - 1 implies apply_deltas_model(msgs, ds)[i]
            == msgs[i] by {
            assert(stepped[i] == msgs[i]);
            assert(apply_deltas_model(stepped, ds.drop_first())[i] == stepped[i]);
        }
    }
}

/// Replacing the last message's content with its final value; nothing
/// happens to an empty session.
pub open spec fn finalize_last_model(msgs: Seq<MessageModel>, text: Seq<char>) -> Seq<
    MessageModel,
> {
    if msgs.len() > 0 {
        msgs.update(
            msgs.len() - 1,
            (MessageModel { role: msgs.last().role, content: text }),
        )
    } else {
        msgs
    }
}

/// The display line of one message: the role's wire name, a colon, and —
/// when the content is non-empty — a space and the content.
pub open spec fn display_line_spec(m: MessageModel) -> Seq<char> {
    if m.content.len() == 0 {
        role_name_spec(m.role) + ":"@
    } else {
        role_name_spec(m.role) + ": "@ + m.content
    }
}

/// Relies on `uuid::Uuid::new_v4` and its `Display` implementation: a fresh
/// random version-4 UUID formats as 36 hyphenated lower-case hex characters.
#[verifier::external_body]
pub(crate) fn new_session_id() -> (r: String)
    ensures
        r@.len() == 36,
{
    uuid::Uuid::new_v4().to_string()
}

/// What one exchange yields for display: the speaker and the text shown for
/// it.
#[derive(Clone, Debug, PartialEq, Eq)]
pub struct TabbyChatViewData {
    pub role: ChatRole,
    pub text: String,
}

/// Folds the outcome of a completion exchange into its view: the finished
/// text on success, the error's description on failure — the exchange never
/// vanishes silently.
pub fn chat_view_from_result(r: Result<String, TabbyApiError>) -> (v: TabbyChatViewData)
    ensures
        v.role == ChatRole::Assistant,
        v.text@ == (match r {
            Result::Ok(t) => t@,
            Result::Err(e) => error_text_spec(e),
        }),
{
    match r {
        Result::Ok(t) => TabbyChatViewData { role: ChatRole::Assistant, text: t },
        Result::Err(e) => TabbyChatViewData { role: ChatRole::Assistant, text: e.describe() },
    }
}

/// The ordered conversation of one session. Insertion order is preserved;
/// only the last message is ever mutated in place.
#[derive(Clone, Debug)]
pub struct ChatSession {
    pub id: String,
    pub messages: Vec<Message>,
}

impl View for ChatSession {
    type V = SessionModel;

    open spec fn view(&self) -> SessionModel {
        SessionModel { id: self.id@, messages: self.messages@.map_values(|m: Message| m@) }
    }
}

impl ChatSession {
    /// An empty session under the given token.
    pub fn new(id: String) -> (s: Self)
        ensures
            s@.id == id@,
            s@.messages == Seq::<MessageModel>::empty(),
    {
        let s = ChatSession { id, messages: Vec::new() };
        proof {
            assert(s@.messages =~= Seq::<MessageModel>::empty());
        }
        s
    }

    /// Appends a user message. Append-only: everything already present stays.
    pub fn append_user(&mut self, content: String)
        ensures
            final(self)@.id == old(self)@.id,
            final(self)@.messages == old(self)@.messages.push(
                (MessageModel { role: ChatRole::User, content: content@ }),
            ),
    {
        let ghost pushed = content@;
        self.messages.push(Message { role: ChatRole::User, content });
        proof {
            assert(self@.messages =~= old(self)@.messages.push(
                (MessageModel { role: ChatRole::User, content: pushed }),
            ));
        }
    }

    /// Appends the empty assistant placeholder that a new exchange mutates.
    pub fn append_assistant_placeholder(&mut self)
        ensures
            final(self)@.id == old(self)@.id,
            final(self)@.messages == old(self)@.messages.push(
                (MessageModel { role: ChatRole::Assistant, content: Seq::<char>::empty() }),
            ),
    {
        self.messages.push(Message { role: ChatRole::Assistant, content: String::new() });
        proof {
            assert(self@.messages =~= old(self)@.messages.push(
                (MessageModel { role: ChatRole::Assistant, content: Seq::<char>::empty() }),
            ));
        }
    }

    /// Appends `delta` to the content of the last message. A no-op, returning
    /// false, when the last message is not the assistant's (or none exists):
    /// the violation is the caller's to log, never an error.
    pub fn apply_delta(&mut self, delta: &str) -> (applied: bool)
        ensures
            final(self)@.id == old(self)@.id,
            final(self)@.messages == apply_delta_model(old(self)@.messages, delta@),
            applied == can_apply_delta(old(self)@.messages),
    {
        let n = self.messages.len();
        if n == 0 {
            return false;
        }
        let last = self.messages.pop().unwrap();
        match last.role {
            ChatRole::Assistant => {
                let mut grown = last;
                grown.content.append(delta);
                self.messages.push(grown);
                proof {
                    assert(self@.messages =~= apply_delta_model(old(self)@.messages, delta@));
                }
                true
            },
            ChatRole::User => {
                self.messages.push(last);
                proof {
                    assert(self@.messages =~= old(self)@.messages);
                }
                false
            },
        }
    }

    /// The conversation as display lines, one per message, in order.
    pub fn display_lines(&self) -> (r: Vec<String>)
        ensures
            r@.len() == self@.messages.len(),
            forall|i: int|
                0 <= i < r@.len() ==> r@[i]@ == display_line_spec(self@.messages[i]),
    {
        let mut out: Vec<String> = Vec::new();
        let n = self.messages.len();
        let mut i: usize = 0;
        while i < n
            invariant
                i <= n,
                n == self.messages@.len(),
                out@.len() == i,
                forall|j: int| 0 <= j < i ==> out@[j]@ == display_line_spec(self@.messages[j]),
            decreases n - i,
        {
            let m = &self.messages[i];
            let mut line: Vec<char> = Vec::new();
            let name = m.role.name();
            push_str_chars(&mut line, name.as_str());
            if m.content.as_str().is_empty() {
                push_str_chars(&mut line, ":");
            } else {
                push_str_chars(&mut line, ": ");
                push_str_chars(&mut line, m.content.as_str());
            }
            out.push(chars_to_string(&line));
            proof {
                assert(self@.messages[i as int] == self.messages@[i as int]@);
            }
            i += 1;
        }
        out
    }

    /// Replaces the content of the last message with its final value: the
    /// finished assistant text on success, the error text on failure. A no-op
    /// on an empty session.
    pub fn finalize_last(&mut self, text: String)
        ensures
            final(self)@.id == old(self)@.id,
            final(self)@.messages == finalize_last_model(old(self)@.messages, text@),
    {
        let n = self.messages.len();
        if n == 0 {
            return;
        }
        let ghost replaced = text@;
        let last = self.messages.pop().unwrap();
        self.messages.push(Message { role: last.role, content: text });
        proof {
            assert(self@.messages =~= old(self)@.messages.update(
                old(self)@.messages.len() - 1,
                (MessageModel { role: old(self)@.messages.last().role, content: replaced }),
            ));
        }
    }
}

} // verus!
