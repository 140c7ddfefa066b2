//! The hook command: it hands an event to the bridge and prints the answer. On
//! any trouble it prints nothing, so that the session is never held up.

use vstd::prelude::*;
use vstd::utf8::encode_utf8;
use crate::lines::{line_content, strip_line};
use crate::proto::hook::text_of;
use crate::text::join2;

verus! {

/// The largest event that is handed on, in bytes.
pub const STDIN_MAX_BYTES: u64 = 1_048_576;

/// How long to wait for the event, in milliseconds.
pub const STDIN_TIMEOUT_DEFAULT_MS: u64 = 5_000;

/// The line that is sent for an input: nothing for one that is too large or
/// blank.
pub open spec fn event_line(input: Seq<char>, max_bytes: int) -> Option<Seq<char>> {
    if encode_utf8(input).len() > max_bytes || line_content(input).len() == 0 {
        None
    } else {
        Some(line_content(input).push('\n'))
    }
}

/// The line that is sent for what was read, if anything was read in time.
pub fn outgoing_line(input: Option<&str>, max_bytes: u64) -> (r: Option<String>)
    ensures
        text_of(r) == match input {
            Some(text) => event_line(text@, max_bytes as int),
            None => None,
        },
{
    let text = match input {
        Some(text) => text,
        None => {
            return None;
        },
    };
    if text.as_bytes().len() as u64 > max_bytes {
        return None;
    }
    let content = strip_line(text);
    if content.is_empty() {
        return None;
    }
    proof {
        reveal_strlit("\n");
        assert(content@ + "\n"@ =~= content@.push('\n'));
    }
    Some(join2(content, "\n"))
}

/// What is printed for the bridge's reply: the same line, or nothing.
pub fn printed_reply(reply: Option<&str>) -> (r: Option<String>)
    ensures
        text_of(r) == match reply {
            Some(text) => if line_content(text@).len() == 0 {
                None
            } else {
                Some(line_content(text@).push('\n'))
            },
            None => None,
        },
{
    let text = match reply {
        Some(text) => text,
        None => {
            return None;
        },
    };
    let content = strip_line(text);
    if content.is_empty() {
        return None;
    }
    proof {
        reveal_strlit("\n");
        assert(content@ + "\n"@ =~= content@.push('\n'));
    }
    Some(join2(content, "\n"))
}

/// How long to wait for the event: what is configured, where that is a number.
pub fn stdin_timeout_ms(configured: Option<u64>) -> (r: u64)
    ensures
        r == match configured {
            Some(ms) => ms,
            None => STDIN_TIMEOUT_DEFAULT_MS,
        },
{
    match configured {
        Some(ms) => ms,
        None => STDIN_TIMEOUT_DEFAULT_MS,
    }
}

/// An event is sent as one line, whatever line end it came with; one that is too
/// large, and one that is empty, is not sent.
pub proof fn law_event_is_sent_as_a_line(text: Seq<char>, max_bytes: int)
    requires
        text.len() > 0,
        text.last() != '\n' && text.last() != '\r',
    ensures
        encode_utf8(text).len() <= max_bytes ==> event_line(text, max_bytes) == Some(text.push('\n')),
        encode_utf8(text.push('\n')).len() <= max_bytes ==> event_line(text.push('\n'), max_bytes)
            == Some(text.push('\n')),
        encode_utf8(text).len() > max_bytes ==> event_line(text, max_bytes) is None,
        event_line(Seq::empty(), max_bytes) is None,
        event_line(seq!['\n'], max_bytes) is None,
{
    crate::proto::laws::law_line_without_its_end(text);
    crate::proto::laws::law_line_without_its_end(Seq::empty());
    assert(Seq::<char>::empty().push('\n') =~= seq!['\n']);
}

} // verus!
