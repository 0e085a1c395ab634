//! The request payload of a chat-completions exchange: a JSON object holding
//! the session id and the conversation snapshot. Messages with empty content
//! — such as a still-empty assistant placeholder — are never part of the
//! body, wherever they stand in the session.

use vstd::prelude::*;
use vstd::string::*;
use crate::chat::{role_name_spec, Message, MessageModel};
use crate::text::{chars_to_string, push_str_chars};

verus! {

/// The lower-case hex digit for a value below 16.
pub open spec fn hex_digit(n: int) -> char {
    if n == 0 { '0' } else if n == 1 { '1' } else if n == 2 { '2' } else if n == 3 { '3' }
    else if n == 4 { '4' } else if n == 5 { '5' } else if n == 6 { '6' } else if n == 7 { '7' }
    else if n == 8 { '8' } else if n == 9 { '9' } else if n == 10 { 'a' } else if n == 11 { 'b' }
    else if n == 12 { 'c' } else if n == 13 { 'd' } else if n == 14 { 'e' } else { 'f' }
}

fn hex_digit_exec(n: u32) -> (c: char)
    requires
        n < 16,
    ensures
        c == hex_digit(n as int),
{
    if n == 0 { '0' } else if n == 1 { '1' } else if n == 2 { '2' } else if n == 3 { '3' }
    else if n == 4 { '4' } else if n == 5 { '5' } else if n == 6 { '6' } else if n == 7 { '7' }
    else if n == 8 { '8' } else if n == 9 { '9' } else if n == 10 { 'a' } else if n == 11 { 'b' }
    else if n == 12 { 'c' } else if n == 13 { 'd' } else if n == 14 { 'e' } else { 'f' }
}

/// How one character appears inside a JSON string literal: quote, backslash
/// and the named control characters get a two-character escape, any other
/// control character a `\u00XX` escape, everything else stands as itself.
pub open spec fn escape_char(c: char) -> Seq<char> {
    if c == '"' {
        seq!['\\', '"']
    } else if c == '\\' {
        seq!['\\', '\\']
    } else if c == '\n' {
        seq!['\\', 'n']
    } else if c == '\r' {
        seq!['\\', 'r']
    } else if c == '\t' {
        seq!['\\', 't']
    } else if c == '\u{8}' {
        seq!['\\', 'b']
    } else if c == '\u{c}' {
        seq!['\\', 'f']
    } else if (c as u32) < 0x20 {
        seq!['\\', 'u', '0', '0', hex_digit(c as u32 as int / 16), hex_digit(c as u32 as int % 16)]
    } else {
        seq![c]
    }
}

/// A text with every character escaped for a JSON string literal.
pub open spec fn escape_string(s: Seq<char>) -> Seq<char>
    decreases s.len(),
{
    if s.len() == 0 {
        Seq::empty()
    } else {
        escape_string(s.drop_last()) + escape_char(s.last())
    }
}

/// A JSON string literal: the escaped text between quotes.
pub open spec fn json_string(s: Seq<char>) -> Seq<char> {
    seq!['"'] + escape_string(s) + seq!['"']
}

fn push_escape_char(out: &mut Vec<char>, c: char)
    ensures
        final(out)@ == old(out)@ + escape_char(c),
{
    if c == '"' {
        out.push('\\');
        out.push('"');
    } else if c == '\\' {
        out.push('\\');
        out.push('\\');
    } else if c == '\n' {
        out.push('\\');
        out.push('n');
    } else if c == '\r' {
        out.push('\\');
        out.push('r');
    } else if c == '\t' {
        out.push('\\');
        out.push('t');
    } else if c == '\u{8}' {
        out.push('\\');
        out.push('b');
    } else if c == '\u{c}' {
        out.push('\\');
        out.push('f');
    } else if (c as u32) < 0x20 {
        let code = c as u32;
        out.push('\\');
        out.push('u');
        out.push('0');
        out.push('0');
        out.push(hex_digit_exec(code / 16));
        out.push(hex_digit_exec(code % 16));
    } else {
        out.push(c);
    }
    proof {
        assert(out@ =~= old(out)@ + escape_char(c));
    }
}

/// Appends the JSON string literal for `s`.
fn push_json_string(out: &mut Vec<char>, s: &str)
    ensures
        final(out)@ == old(out)@ + json_string(s@),
{
    out.push('"');
    let n = s.unicode_len();
    let mut i: usize = 0;
    while i < n
        invariant
            i <= n,
            n == s@.len(),
            out@ == old(out)@ + seq!['"'] + escape_string(s@.take(i as int)),
        decreases n - i,
    {
        push_escape_char(out, s.get_char(i));
        proof {
            assert(s@.take(i + 1).drop_last() =~= s@.take(i as int));
            assert(s@.take(i + 1).last() == s@[i as int]);
        }
        i += 1;
    }
    out.push('"');
    proof {
        assert(s@.take(n as int) =~= s@);
        assert(out@ =~= old(out)@ + json_string(s@));
    }
}

/// The JSON object for one message: its role's wire name and its content.
pub open spec fn message_json(m: MessageModel) -> Seq<char> {
    "{\"role\":"@ + json_string(role_name_spec(m.role)) + ",\"content\":"@ + json_string(m.content)
        + "}"@
}

fn push_message_json(out: &mut Vec<char>, m: &Message)
    ensures
        final(out)@ == old(out)@ + message_json(m@),
{
    push_str_chars(out, "{\"role\":");
    let role = m.role.name();
    push_json_string(out, role.as_str());
    push_str_chars(out, ",\"content\":");
    push_json_string(out, m.content.as_str());
    push_str_chars(out, "}");
    proof {
        assert(out@ =~= old(out)@ + message_json(m@));
    }
}

/// The JSON array body for a sequence of messages: their objects joined by
/// commas.
pub open spec fn messages_json(msgs: Seq<MessageModel>) -> Seq<char>
    decreases msgs.len(),
{
    if msgs.len() == 0 {
        Seq::empty()
    } else if msgs.len() == 1 {
        message_json(msgs.first())
    } else {
        messages_json(msgs.drop_last()) + ","@ + message_json(msgs.last())
    }
}

/// The messages that are sent: those with at least one character of content,
/// in their session order.
pub open spec fn nonempty_messages(msgs: Seq<MessageModel>) -> Seq<MessageModel>
    decreases msgs.len(),
{
    if msgs.len() == 0 {
        Seq::empty()
    } else if msgs.last().content.len() > 0 {
        nonempty_messages(msgs.drop_last()).push(msgs.last())
    } else {
        nonempty_messages(msgs.drop_last())
    }
}

/// The serialized request body: the session id and the non-empty messages of
/// the snapshot.
pub open spec fn request_body_spec(id: Seq<char>, msgs: Seq<MessageModel>) -> Seq<char> {
    "{\"id\":"@ + json_string(id) + ",\"messages\":["@ + messages_json(nonempty_messages(msgs))
        + "]}"@
}

/// Serializes the request body for one exchange from the session id and the
/// message snapshot. Messages with empty content are skipped.
pub fn serialize_request_body(id: &str, messages: &Vec<Message>) -> (r: String)
    ensures
        r@ == request_body_spec(id@, messages@.map_values(|m: Message| m@)),
{
    let ghost mapped = messages@.map_values(|m: Message| m@);
    let mut out: Vec<char> = Vec::new();
    push_str_chars(&mut out, "{\"id\":");
    push_json_string(&mut out, id);
    push_str_chars(&mut out, ",\"messages\":[");
    let ghost prefix = out@;
    let n = messages.len();
    let mut i: usize = 0;
    let mut first_done = false;
    while i < n
        invariant
            i <= n,
            n == messages@.len(),
            mapped == messages@.map_values(|m: Message| m@),
            first_done == (nonempty_messages(mapped.take(i as int)).len() > 0),
            out@ == prefix + messages_json(nonempty_messages(mapped.take(i as int))),
        decreases n - i,
    {
        let ghost kept = nonempty_messages(mapped.take(i as int));
        proof {
            assert(mapped.take(i + 1).drop_last() =~= mapped.take(i as int));
            assert(mapped.take(i + 1).last() == mapped[i as int]);
            assert(mapped[i as int] == messages@[i as int]@);
        }
        if !messages[i].content.as_str().is_empty() {
            if first_done {
                push_str_chars(&mut out, ",");
            }
            push_message_json(&mut out, &messages[i]);
            proof {
                let kept2 = nonempty_messages(mapped.take(i + 1));
                assert(kept2 == kept.push(mapped[i as int]));
                assert(kept2.drop_last() =~= kept);
                assert(kept2.last() == mapped[i as int]);
                if kept.len() == 0 {
                    assert(messages_json(kept2) == message_json(mapped[i as int]));
                    assert(out@ =~= prefix + messages_json(kept2));
                } else {
                    assert(messages_json(kept2) == messages_json(kept) + ","@ + message_json(
                        mapped[i as int],
                    ));
                    assert(out@ =~= prefix + messages_json(kept2));
                }
            }
            first_done = true;
        } else {
            proof {
                assert(nonempty_messages(mapped.take(i + 1)) == kept);
            }
        }
        i += 1;
    }
    push_str_chars(&mut out, "]}");
    proof {
        assert(mapped.take(n as int) =~= mapped);
        assert(out@ =~= request_body_spec(id@, mapped));
    }
    chars_to_string(&out)
}

/// Every message the body serializer keeps has non-empty content.
pub proof fn lemma_nonempty_messages_all_nonempty(msgs: Seq<MessageModel>)
    ensures
        forall|i: int|
            0 <= i < nonempty_messages(msgs).len() ==> nonempty_messages(msgs)[i].content.len()
                > 0,
    decreases msgs.len(),
{
    if msgs.len() > 0 {
        lemma_nonempty_messages_all_nonempty(msgs.drop_last());
    }
}

/// Dropping the empty-content messages is idempotent.
pub proof fn lemma_nonempty_messages_idempotent(msgs: Seq<MessageModel>)
    ensures
        nonempty_messages(nonempty_messages(msgs)) == nonempty_messages(msgs),
    decreases msgs.len(),
{
    if msgs.len() == 0 {
    } else {
        lemma_nonempty_messages_idempotent(msgs.drop_last());
        if msgs.last().content.len() > 0 {
            let kept = nonempty_messages(msgs.drop_last());
            assert(kept.push(msgs.last()).drop_last() =~= kept);
        }
    }
}

/// A message with empty content is never part of the serialized request
/// body: the body of a snapshot is the body of the snapshot with its
/// empty-content messages removed, and everything that is serialized has
/// non-empty content.
pub proof fn lemma_empty_messages_excluded(id: Seq<char>, msgs: Seq<MessageModel>)
    ensures
        request_body_spec(id, msgs) == request_body_spec(id, nonempty_messages(msgs)),
        forall|i: int|
            0 <= i < nonempty_messages(msgs).len() ==> nonempty_messages(msgs)[i].content.len()
                > 0,
{
    lemma_nonempty_messages_idempotent(msgs);
    lemma_nonempty_messages_all_nonempty(msgs);
}

} // verus!
