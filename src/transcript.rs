//! The conversation transcript: one JSON record per line. Finds the last
//! prompt the user typed and the last text the assistant wrote.

use vstd::prelude::*;
use crate::json::{
    json_parse, lookup, member, opt_bool_member, parse_json, string_member, string_member_of, take_member,
    JsonValue,
};
use crate::terminal::{trim, trim_bounds};
use crate::text::{chars_of, contains, contains_seq, same_text, starts_with, truncate_string, truncated_chars};

verus! {

/// The `message` of a transcript record: who wrote it and what.
pub struct MessageContent {
    pub role: String,
    pub content: JsonValue,
}

/// One transcript record: its `type`, its `message`, and its `isMeta` flag.
pub struct TranscriptMessage {
    pub msg_type: String,
    pub message: Option<MessageContent>,
    pub is_meta: Option<bool>,
}

/// A `message` object: a string `role` and a `content` of any type.
pub open spec fn message_content_of(v: JsonValue) -> Option<MessageContent> {
    match v {
        JsonValue::Object(m) => match (string_member(lookup(m@, "role"@)), lookup(m@, "content"@)) {
            (Some(role), Some(content)) => Some(MessageContent { role, content }),
            _ => None,
        },
        _ => None,
    }
}

/// A transcript record: an object with a string `type`, an optional
/// `message` object and an optional boolean `isMeta`; `None` where any is
/// missing or of the wrong type.
pub open spec fn transcript_message_of(v: JsonValue) -> Option<TranscriptMessage> {
    match v {
        JsonValue::Object(m) => {
            let message = match lookup(m@, "message"@) {
                None => Some(None),
                Some(JsonValue::Null) => Some(None),
                Some(x) => match message_content_of(x) {
                    Some(c) => Some(Some(c)),
                    None => None,
                },
            };
            match (string_member(lookup(m@, "type"@)), message, opt_bool_member(lookup(m@, "isMeta"@))) {
                (Some(msg_type), Some(message), Some(is_meta)) => Some(TranscriptMessage { msg_type, message, is_meta }),
                _ => None,
            }
        },
        _ => None,
    }
}

impl MessageContent {
    /// Reads a `message` object.
    pub fn from_json(v: JsonValue) -> (r: Option<MessageContent>)
        ensures
            r == message_content_of(v),
    {
        match v {
            JsonValue::Object(mut m) => {
                let content = take_member(&mut m, "content");
                proof {
                    reveal_strlit("content");
                    reveal_strlit("role");
                    assert("role"@.len() != "content"@.len());
                }
                match (string_member_of(&m, "role"), content) {
                    (Some(role), Some(content)) => Some(MessageContent { role, content }),
                    _ => None,
                }
            },
            _ => None,
        }
    }
}

impl TranscriptMessage {
    /// Reads one transcript record.
    pub fn from_json(v: JsonValue) -> (r: Option<TranscriptMessage>)
        ensures
            r == transcript_message_of(v),
    {
        match v {
            JsonValue::Object(mut m) => {
                let raw = take_member(&mut m, "message");
                proof {
                    reveal_strlit("message");
                    reveal_strlit("type");
                    reveal_strlit("isMeta");
                    assert("type"@.len() != "message"@.len());
                    assert("isMeta"@.len() != "message"@.len());
                }
                let message = match raw {
                    None => Some(None),
                    Some(JsonValue::Null) => Some(None),
                    Some(x) => match MessageContent::from_json(x) {
                        Some(c) => Some(Some(c)),
                        None => None,
                    },
                };
                let msg_type = string_member_of(&m, "type");
                let is_meta = bool_member_of(&m, "isMeta");
                match (msg_type, message, is_meta) {
                    (Some(msg_type), Some(message), Some(is_meta)) => Some(TranscriptMessage { msg_type, message, is_meta }),
                    _ => None,
                }
            },
            _ => None,
        }
    }
}

/// The `text` of the first item of type `text` whose text is a string.
pub open spec fn first_text_item(items: Seq<JsonValue>) -> Seq<char>
    decreases items.len(),
{
    if items.len() == 0 {
        Seq::empty()
    } else if items[0].str_field("type"@) == Some("text"@) && items[0].str_field("text"@) is Some {
        items[0].str_field("text"@)->0
    } else {
        first_text_item(items.drop_first())
    }
}

/// The text of a message content: a string as it is; for an array of
/// blocks, the first text block; nothing otherwise.
pub open spec fn text_content(content: JsonValue) -> Seq<char> {
    match content {
        JsonValue::Str(s) => s@,
        JsonValue::Array(items) => first_text_item(items@),
        _ => Seq::empty(),
    }
}

/// The text of a message content.
pub fn extract_text_content(content: &JsonValue) -> (r: String)
    ensures
        r@ == text_content(*content),
{
    match content {
        JsonValue::Str(s) => s.clone(),
        JsonValue::Array(items) => {
            let mut i: usize = 0;
            assert(items@.subrange(0, items.len() as int) =~= items@);
            while i < items.len()
                invariant
                    i <= items.len(),
                    text_content(*content) == first_text_item(items@.subrange(i as int, items.len() as int)),
                decreases items.len() - i,
            {
                let ghost rest = items@.subrange(i as int, items.len() as int);
                assert(rest.drop_first() =~= items@.subrange(i + 1, items.len() as int));
                assert(rest[0] == items@[i as int]);
                let is_text = match items[i].get_str("type") {
                    Some(t) => same_text(t.as_str(), "text"),
                    None => false,
                };
                if is_text {
                    if let Some(t) = items[i].get_str("text") {
                        return t.clone();
                    }
                }
                i = i + 1;
            }
            String::new()
        },
        _ => String::new(),
    }
}

/// The prompt a record holds: a user record, not meta, whose message is by
/// the user and whose text is non-empty, names no command and is not a
/// caveat or an interruption notice.
pub open spec fn user_prompt_of(m: TranscriptMessage) -> Option<Seq<char>> {
    if m.msg_type@ == "user"@ && m.is_meta != Some(true) {
        match m.message {
            Some(c) => {
                let t = text_content(c.content);
                if c.role@ == "user"@ && t.len() > 0 && !contains_seq(t, "<command-name>"@)
                    && !"Caveat:"@.is_prefix_of(t)
                    && !"[Request interrupted by user for tool use]"@.is_prefix_of(t) {
                    Some(t)
                } else {
                    None
                }
            },
            None => None,
        }
    } else {
        None
    }
}

/// The reply a record holds: an assistant record whose message is by the
/// assistant and whose text is non-empty.
pub open spec fn assistant_text_of(m: TranscriptMessage) -> Option<Seq<char>> {
    if m.msg_type@ == "assistant"@ {
        match m.message {
            Some(c) => {
                let t = text_content(c.content);
                if c.role@ == "assistant"@ && t.len() > 0 {
                    Some(t)
                } else {
                    None
                }
            },
            None => None,
        }
    } else {
        None
    }
}

/// The prompt held by a record, if any.
pub fn user_prompt(m: &TranscriptMessage) -> (r: Option<String>)
    ensures
        match r {
            Some(t) => user_prompt_of(*m) == Some(t@),
            None => user_prompt_of(*m) is None,
        },
{
    if !same_text(m.msg_type.as_str(), "user") {
        return None;
    }
    if let Some(true) = m.is_meta {
        return None;
    }
    match &m.message {
        Some(c) => {
            if !same_text(c.role.as_str(), "user") {
                return None;
            }
            let t = extract_text_content(&c.content);
            if t.unicode_len() > 0 && !contains(t.as_str(), "<command-name>") && !starts_with(t.as_str(), "Caveat:")
                && !starts_with(t.as_str(), "[Request interrupted by user for tool use]") {
                Some(t)
            } else {
                None
            }
        },
        None => None,
    }
}

/// The reply held by a record, if any.
pub fn assistant_text(m: &TranscriptMessage) -> (r: Option<String>)
    ensures
        match r {
            Some(t) => assistant_text_of(*m) == Some(t@),
            None => assistant_text_of(*m) is None,
        },
{
    if !same_text(m.msg_type.as_str(), "assistant") {
        return None;
    }
    match &m.message {
        Some(c) => {
            if !same_text(c.role.as_str(), "assistant") {
                return None;
            }
            let t = extract_text_content(&c.content);
            if t.unicode_len() > 0 {
                Some(t)
            } else {
                None
            }
        },
        None => None,
    }
}

/// The record a transcript line holds: nothing for a blank line or one that
/// is not a record.
pub open spec fn line_record(line: Seq<char>) -> Option<TranscriptMessage> {
    if trim(line).len() == 0 {
        None
    } else {
        match json_parse(line) {
            Some(v) => transcript_message_of(v),
            None => None,
        }
    }
}

/// The prompt on a transcript line, if any.
pub open spec fn line_prompt(line: Seq<char>) -> Option<Seq<char>> {
    match line_record(line) {
        Some(m) => user_prompt_of(m),
        None => None,
    }
}

/// The reply on a transcript line, if any.
pub open spec fn line_reply(line: Seq<char>) -> Option<Seq<char>> {
    match line_record(line) {
        Some(m) => assistant_text_of(m),
        None => None,
    }
}

/// The last prompt among the first `n` lines.
pub open spec fn last_prompt(lines: Seq<String>, n: nat) -> Option<Seq<char>>
    decreases n,
{
    if n == 0 {
        None
    } else {
        match line_prompt(lines[n - 1]@) {
            Some(t) => Some(t),
            None => last_prompt(lines, (n - 1) as nat),
        }
    }
}

/// The last reply among the first `n` lines.
pub open spec fn last_reply(lines: Seq<String>, n: nat) -> Option<Seq<char>>
    decreases n,
{
    if n == 0 {
        None
    } else {
        match line_reply(lines[n - 1]@) {
            Some(t) => Some(t),
            None => last_reply(lines, (n - 1) as nat),
        }
    }
}

/// Blank lines and lines that are not JSON leave the last prompt and the last
/// reply of a transcript as they were.
pub proof fn lemma_unreadable_lines_ignored(lines: Seq<String>, line: String)
    requires
        trim(line@).len() == 0 || json_parse(line@) is None,
    ensures
        last_prompt(lines.push(line), lines.len() + 1) == last_prompt(lines, lines.len()),
        last_reply(lines.push(line), lines.len() + 1) == last_reply(lines, lines.len()),
{
    lemma_last_prefix(lines, line, lines.len());
    assert(lines.push(line)[lines.len() as int] == line);
}

/// Appending a line leaves the scan of the lines before it unchanged.
proof fn lemma_last_prefix(lines: Seq<String>, line: String, n: nat)
    requires
        n <= lines.len(),
    ensures
        last_prompt(lines.push(line), n) == last_prompt(lines, n),
        last_reply(lines.push(line), n) == last_reply(lines, n),
    decreases n,
{
    if n > 0 {
        lemma_last_prefix(lines, line, (n - 1) as nat);
        assert(lines.push(line)[n - 1] == lines[n - 1]);
    }
}

/// The record on one transcript line.
pub fn read_line_record(line: &str) -> (r: Option<TranscriptMessage>)
    ensures
        r == line_record(line@),
{
    let c = chars_of(line);
    let (a, b) = trim_bounds(&c, 0, c.len());
    assert(c@.subrange(0, c.len() as int) =~= line@);
    if a == b {
        return None;
    }
    match parse_json(line) {
        Some(v) => TranscriptMessage::from_json(v),
        None => None,
    }
}

/// The last prompt the user typed in the transcript `lines`, cut to 100
/// characters; a stock word where there is none.
pub fn extract_user_prompt(lines: &Vec<String>) -> (r: String)
    ensures
        r@ == truncated_chars(
            match last_prompt(lines@, lines@.len()) {
                Some(t) => t,
                None => "リクエスト"@,
            },
            100,
        ),
{
    let mut found: Option<String> = None;
    let mut i: usize = 0;
    while i < lines.len()
        invariant
            i <= lines.len(),
            match found {
                Some(t) => last_prompt(lines@, i as nat) == Some(t@),
                None => last_prompt(lines@, i as nat) is None,
            },
        decreases lines.len() - i,
    {
        let p = match read_line_record(lines[i].as_str()) {
            Some(m) => user_prompt(&m),
            None => None,
        };
        if p.is_some() {
            found = p;
        }
        i = i + 1;
    }
    match found {
        Some(t) => truncate_string(t.as_str(), 100),
        None => truncate_string("リクエスト", 100),
    }
}

/// The last text the assistant wrote in the transcript `lines`, cut to 150
/// characters; a stock sentence where there is none.
pub fn extract_assistant_message(lines: &Vec<String>) -> (r: String)
    ensures
        r@ == truncated_chars(
            match last_reply(lines@, lines@.len()) {
                Some(t) => t,
                None => "タスクが完了しました"@,
            },
            150,
        ),
{
    let mut found: Option<String> = None;
    let mut i: usize = 0;
    while i < lines.len()
        invariant
            i <= lines.len(),
            match found {
                Some(t) => last_reply(lines@, i as nat) == Some(t@),
                None => last_reply(lines@, i as nat) is None,
            },
        decreases lines.len() - i,
    {
        let p = match read_line_record(lines[i].as_str()) {
            Some(m) => assistant_text(&m),
            None => None,
        };
        if p.is_some() {
            found = p;
        }
        i = i + 1;
    }
    match found {
        Some(t) => truncate_string(t.as_str(), 150),
        None => truncate_string("タスクが完了しました", 150),
    }
}

/// The prompt and reply a finished task is reported with: those found in the
/// transcript lines, or the stock texts where there is no readable transcript.
pub fn transcript_summary(lines: Option<&Vec<String>>) -> (r: (String, String))
    ensures
        match lines {
            Some(l) => r.0@ == truncated_chars(
                match last_prompt(l@, l@.len()) {
                    Some(t) => t,
                    None => "リクエスト"@,
                },
                100,
            ) && r.1@ == truncated_chars(
                match last_reply(l@, l@.len()) {
                    Some(t) => t,
                    None => "タスクが完了しました"@,
                },
                150,
            ),
            None => r.0@ == "リクエスト"@ && r.1@ == "タスクが完了しました"@,
        },
{
    match lines {
        Some(l) => (extract_user_prompt(l), extract_assistant_message(l)),
        None => ("リクエスト".to_owned(), "タスクが完了しました".to_owned()),
    }
}

/// The member `key` as an optional boolean; `None` where it has another type.
fn bool_member_of(members: &Vec<(String, JsonValue)>, key: &str) -> (r: Option<Option<bool>>)
    ensures
        r == opt_bool_member(lookup(members@, key@)),
{
    match member(members, key) {
        Some(JsonValue::Null) => Some(None),
        Some(JsonValue::Bool(b)) => Some(Some(*b)),
        Some(_) => None,
        None => Some(None),
    }
}

} // verus!
