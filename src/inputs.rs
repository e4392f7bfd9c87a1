//! The JSON records the hook programs read: hook payloads on standard input
//! and the IDE lock file.

use vstd::prelude::*;
use crate::json::{
    json_parse, lookup, member, opt_string_member, opt_string_member_of, opt_value_member,
    parse_json, string_member, string_member_of, take_member, JsonValue,
};

verus! {

/// The payload of a tool notification hook.
pub struct HookInput {
    pub session_id: String,
    pub cwd: String,
    pub tool_name: Option<String>,
    pub tool_input: Option<JsonValue>,
    pub notification_type: Option<String>,
    pub message: Option<String>,
}

/// The payload of the hook run when a task finishes.
pub struct StopHookInput {
    pub session_id: String,
    pub transcript_path: Option<String>,
    pub cwd: String,
}

/// The payload of a hook run around one tool call; a missing `tool_input`
/// or `tool_response` reads as null.
pub struct PostToolUseInput {
    pub session_id: String,
    pub cwd: String,
    pub tool_name: Option<String>,
    pub tool_input: JsonValue,
    pub tool_response: JsonValue,
}

/// The payload of the hook run when the user submits a prompt.
pub struct UserPromptSubmitInput {
    pub session_id: String,
    pub cwd: String,
    pub permission_mode: String,
    pub prompt: String,
}

/// The payload read by the status-line formatter.
pub struct ToolInput {
    pub tool_name: Option<String>,
    pub tool_input: Option<JsonValue>,
}

/// The IDE lock file: the IDE's process id, its workspace folders and its name.
pub struct LockFileData {
    pub pid: u32,
    pub workspace_folders: Vec<String>,
    pub ide_name: String,
}

/// The value of a string of decimal digits.
pub open spec fn digits_value(s: Seq<char>) -> nat
    decreases s.len(),
{
    if s.len() == 0 {
        0
    } else {
        digits_value(s.drop_last()) * 10 + ((s.last() as u32 - '0' as u32) as nat)
    }
}

/// A non-empty string of decimal digits.
pub open spec fn all_digits(s: Seq<char>) -> bool {
    s.len() > 0 && forall|i: int| 0 <= i < s.len() ==> '0' <= #[trigger] s[i] <= '9'
}

/// A member holding a non-negative integer that fits in 32 bits.
pub open spec fn u32_member(v: Option<JsonValue>) -> Option<u32> {
    match v {
        Some(JsonValue::Number(t)) => if all_digits(t@) && digits_value(t@) <= u32::MAX {
            Some(digits_value(t@) as u32)
        } else {
            None
        },
        _ => None,
    }
}

/// A member holding an array of strings.
pub open spec fn strings_member(v: Option<JsonValue>) -> Option<Seq<String>> {
    match v {
        Some(JsonValue::Array(items)) => if forall|i: int| 0 <= i < items@.len() ==> (#[trigger] items@[i]) is Str {
            Some(items@.map_values(|x: JsonValue| x->Str_0))
        } else {
            None
        },
        _ => None,
    }
}

/// The lock file fields: a 32-bit `pid`, a string array `workspaceFolders`
/// and a string `ideName`.
pub open spec fn lock_fields_of(v: JsonValue) -> Option<(u32, Seq<String>, String)> {
    match v {
        JsonValue::Object(m) => match (
            u32_member(lookup(m@, "pid"@)),
            strings_member(lookup(m@, "workspaceFolders"@)),
            string_member(lookup(m@, "ideName"@)),
        ) {
            (Some(pid), Some(folders), Some(name)) => Some((pid, folders, name)),
            _ => None,
        },
        _ => None,
    }
}

/// The member `key` as a 32-bit unsigned integer.
fn u32_member_of(m: &Vec<(String, JsonValue)>, key: &str) -> (r: Option<u32>)
    ensures
        r == u32_member(lookup(m@, key@)),
{
    match member(m, key) {
        Some(JsonValue::Number(t)) => {
            let c = crate::text::chars_of(t.as_str());
            if c.len() == 0 {
                return None;
            }
            let mut value: u64 = 0;
            let mut i: usize = 0;
            while i < c.len()
                invariant
                    c@ == t@,
                    lookup(m@, key@) == Some(JsonValue::Number(*t)),
                    i <= c.len(),
                    forall|k: int| 0 <= k < i ==> '0' <= #[trigger] c@[k] <= '9',
                    value as nat == digits_value(c@.subrange(0, i as int)),
                    value <= u32::MAX,
                decreases c.len() - i,
            {
                assert(c@.subrange(0, i + 1).drop_last() =~= c@.subrange(0, i as int));
                let ch = c[i];
                if ch < '0' || ch > '9' {
                    assert(!all_digits(t@));
                    return None;
                }
                value = value * 10 + ((ch as u32 - '0' as u32) as u64);
                if value > u32::MAX as u64 {
                    proof {
                        lemma_digits_grow(c@, i as int + 1);
                        assert(c@.subrange(0, i + 1).last() == ch);
                    }
                    return None;
                }
                i = i + 1;
            }
            assert(c@.subrange(0, c.len() as int) =~= c@);
            Some(value as u32)
        },
        _ => None,
    }
}

/// Adding digits never makes the value smaller.
proof fn lemma_digits_grow(s: Seq<char>, n: int)
    requires
        0 <= n <= s.len(),
    ensures
        digits_value(s) >= digits_value(s.subrange(0, n)),
    decreases s.len() - n,
{
    if n < s.len() {
        lemma_digits_grow(s, n + 1);
        assert(s.subrange(0, n + 1).drop_last() =~= s.subrange(0, n));
    } else {
        assert(s.subrange(0, n) =~= s);
    }
}

/// The member `key` as a list of strings.
fn strings_member_of(m: &Vec<(String, JsonValue)>, key: &str) -> (r: Option<Vec<String>>)
    ensures
        match r {
            Some(list) => strings_member(lookup(m@, key@)) == Some(list@),
            None => strings_member(lookup(m@, key@)) is None,
        },
{
    match member(m, key) {
        Some(JsonValue::Array(items)) => {
            let mut out: Vec<String> = Vec::new();
            let mut i: usize = 0;
            while i < items.len()
                invariant
                    i <= items.len(),
                    lookup(m@, key@) == Some(JsonValue::Array(*items)),
                    out.len() == i,
                    forall|k: int| 0 <= k < i ==> (#[trigger] items@[k]) is Str && out@[k] == items@[k]->Str_0,
                decreases items.len() - i,
            {
                match &items[i] {
                    JsonValue::Str(s) => out.push(s.clone()),
                    _ => {
                        assert(!(items@[i as int] is Str));
                        return None;
                    },
                }
                i = i + 1;
            }
            assert(out@ =~= items@.map_values(|x: JsonValue| x->Str_0));
            Some(out)
        },
        _ => None,
    }
}

impl LockFileData {
    /// Reads the lock file fields from a JSON tree.
    pub fn from_json(v: &JsonValue) -> (r: Option<LockFileData>)
        ensures
            match r {
                Some(d) => lock_fields_of(*v) == Some((d.pid, d.workspace_folders@, d.ide_name)),
                None => lock_fields_of(*v) is None,
            },
    {
        match v {
            JsonValue::Object(m) => match (
                u32_member_of(m, "pid"),
                strings_member_of(m, "workspaceFolders"),
                string_member_of(m, "ideName"),
            ) {
                (Some(pid), Some(workspace_folders), Some(ide_name)) => Some(
                    LockFileData { pid, workspace_folders, ide_name },
                ),
                _ => None,
            },
            _ => None,
        }
    }

    /// Reads the lock file from its JSON text.
    pub fn parse(text: &str) -> (r: Option<LockFileData>)
        ensures
            match r {
                Some(d) => parsed(text@, |v: JsonValue| lock_fields_of(v)) == Some(
                    (d.pid, d.workspace_folders@, d.ide_name),
                ),
                None => parsed(text@, |v: JsonValue| lock_fields_of(v)) is None,
            },
    {
        match parse_json(text) {
            Some(v) => LockFileData::from_json(&v),
            None => None,
        }
    }
}

/// A hook payload: an object with string `session_id` and `cwd`, optional
/// strings `tool_name`, `notification_type`, `message`, and an optional
/// `tool_input` of any type.
pub open spec fn hook_input_of(v: JsonValue) -> Option<HookInput> {
    match v {
        JsonValue::Object(m) => match (
            string_member(lookup(m@, "session_id"@)),
            string_member(lookup(m@, "cwd"@)),
            opt_string_member(lookup(m@, "tool_name"@)),
            opt_string_member(lookup(m@, "notification_type"@)),
            opt_string_member(lookup(m@, "message"@)),
        ) {
            (Some(session_id), Some(cwd), Some(tool_name), Some(notification_type), Some(message)) => Some(
                HookInput {
                    session_id,
                    cwd,
                    tool_name,
                    tool_input: opt_value_member(lookup(m@, "tool_input"@)),
                    notification_type,
                    message,
                },
            ),
            _ => None,
        },
        _ => None,
    }
}

/// A stop payload: string `session_id` and `cwd`, optional string `transcript_path`.
pub open spec fn stop_hook_input_of(v: JsonValue) -> Option<StopHookInput> {
    match v {
        JsonValue::Object(m) => match (
            string_member(lookup(m@, "session_id"@)),
            opt_string_member(lookup(m@, "transcript_path"@)),
            string_member(lookup(m@, "cwd"@)),
        ) {
            (Some(session_id), Some(transcript_path), Some(cwd)) => Some(
                StopHookInput { session_id, transcript_path, cwd },
            ),
            _ => None,
        },
        _ => None,
    }
}

/// A present member, or null where it is missing.
pub open spec fn or_null(v: Option<JsonValue>) -> JsonValue {
    match v {
        Some(x) => x,
        None => JsonValue::Null,
    }
}

/// A tool-call payload: string `session_id` and `cwd`, optional string
/// `tool_name`, and `tool_input` and `tool_response` of any type.
pub open spec fn post_tool_use_input_of(v: JsonValue) -> Option<PostToolUseInput> {
    match v {
        JsonValue::Object(m) => match (
            string_member(lookup(m@, "session_id"@)),
            string_member(lookup(m@, "cwd"@)),
            opt_string_member(lookup(m@, "tool_name"@)),
        ) {
            (Some(session_id), Some(cwd), Some(tool_name)) => Some(
                PostToolUseInput {
                    session_id,
                    cwd,
                    tool_name,
                    tool_input: or_null(lookup(m@, "tool_input"@)),
                    tool_response: or_null(lookup(m@, "tool_response"@)),
                },
            ),
            _ => None,
        },
        _ => None,
    }
}

/// A prompt payload: string `session_id`, `cwd`, `permission_mode` and `prompt`.
pub open spec fn user_prompt_submit_input_of(v: JsonValue) -> Option<UserPromptSubmitInput> {
    match v {
        JsonValue::Object(m) => match (
            string_member(lookup(m@, "session_id"@)),
            string_member(lookup(m@, "cwd"@)),
            string_member(lookup(m@, "permission_mode"@)),
            string_member(lookup(m@, "prompt"@)),
        ) {
            (Some(session_id), Some(cwd), Some(permission_mode), Some(prompt)) => Some(
                UserPromptSubmitInput { session_id, cwd, permission_mode, prompt },
            ),
            _ => None,
        },
        _ => None,
    }
}

/// A status-line payload: optional string `tool_name`, optional `tool_input`.
pub open spec fn tool_input_of(v: JsonValue) -> Option<ToolInput> {
    match v {
        JsonValue::Object(m) => match opt_string_member(lookup(m@, "tool_name"@)) {
            Some(tool_name) => Some(
                ToolInput { tool_name, tool_input: opt_value_member(lookup(m@, "tool_input"@)) },
            ),
            None => None,
        },
        _ => None,
    }
}

/// The record parsed from `text` by `of`, where the text is JSON.
pub open spec fn parsed<T>(text: Seq<char>, of: spec_fn(JsonValue) -> Option<T>) -> Option<T> {
    match json_parse(text) {
        Some(v) => of(v),
        None => None,
    }
}

/// Drops a null, keeping any other value.
fn non_null(v: Option<JsonValue>) -> (r: Option<JsonValue>)
    ensures
        r == opt_value_member(v),
{
    match v {
        Some(JsonValue::Null) => None,
        other => other,
    }
}

/// A missing value reads as null.
fn null_if_missing(v: Option<JsonValue>) -> (r: JsonValue)
    ensures
        r == or_null(v),
{
    match v {
        Some(x) => x,
        None => JsonValue::Null,
    }
}

impl HookInput {
    /// Reads a hook payload from its JSON tree.
    pub fn from_json(v: JsonValue) -> (r: Option<HookInput>)
        ensures
            r == hook_input_of(v),
    {
        match v {
            JsonValue::Object(mut m) => {
                let tool_input = take_member(&mut m, "tool_input");
                proof {
                    reveal_strlit("tool_input");
                    reveal_strlit("session_id");
                    reveal_strlit("cwd");
                    reveal_strlit("tool_name");
                    reveal_strlit("notification_type");
                    reveal_strlit("message");
                    assert("session_id"@[0] != "tool_input"@[0]);
                    assert("cwd"@.len() != "tool_input"@.len());
                    assert("tool_name"@.len() != "tool_input"@.len());
                    assert("notification_type"@.len() != "tool_input"@.len());
                    assert("message"@.len() != "tool_input"@.len());
                }
                let session_id = string_member_of(&m, "session_id");
                let cwd = string_member_of(&m, "cwd");
                let tool_name = opt_string_member_of(&m, "tool_name");
                let notification_type = opt_string_member_of(&m, "notification_type");
                let message = opt_string_member_of(&m, "message");
                match (session_id, cwd, tool_name, notification_type, message) {
                    (Some(session_id), Some(cwd), Some(tool_name), Some(notification_type), Some(message)) => Some(
                        HookInput {
                            session_id,
                            cwd,
                            tool_name,
                            tool_input: non_null(tool_input),
                            notification_type,
                            message,
                        },
                    ),
                    _ => None,
                }
            },
            _ => None,
        }
    }

    /// Reads a hook payload from JSON text.
    pub fn parse(text: &str) -> (r: Option<HookInput>)
        ensures
            r == parsed(text@, |v: JsonValue| hook_input_of(v)),
    {
        match parse_json(text) {
            Some(v) => HookInput::from_json(v),
            None => None,
        }
    }
}

impl StopHookInput {
    /// Reads a stop payload from its JSON tree.
    pub fn from_json(v: JsonValue) -> (r: Option<StopHookInput>)
        ensures
            r == stop_hook_input_of(v),
    {
        match v {
            JsonValue::Object(m) => {
                match (
                    string_member_of(&m, "session_id"),
                    opt_string_member_of(&m, "transcript_path"),
                    string_member_of(&m, "cwd"),
                ) {
                    (Some(session_id), Some(transcript_path), Some(cwd)) => Some(
                        StopHookInput { session_id, transcript_path, cwd },
                    ),
                    _ => None,
                }
            },
            _ => None,
        }
    }

    /// Reads a stop payload from JSON text.
    pub fn parse(text: &str) -> (r: Option<StopHookInput>)
        ensures
            r == parsed(text@, |v: JsonValue| stop_hook_input_of(v)),
    {
        match parse_json(text) {
            Some(v) => StopHookInput::from_json(v),
            None => None,
        }
    }
}

impl PostToolUseInput {
    /// Reads a tool-call payload from its JSON tree.
    pub fn from_json(v: JsonValue) -> (r: Option<PostToolUseInput>)
        ensures
            r == post_tool_use_input_of(v),
    {
        match v {
            JsonValue::Object(mut m) => {
                let tool_input = take_member(&mut m, "tool_input");
                let tool_response = take_member(&mut m, "tool_response");
                proof {
                    reveal_strlit("tool_input");
                    reveal_strlit("tool_response");
                    reveal_strlit("session_id");
                    reveal_strlit("cwd");
                    reveal_strlit("tool_name");
                    assert("tool_response"@.len() != "tool_input"@.len());
                    assert("session_id"@[0] != "tool_input"@[0]);
                    assert("session_id"@[0] != "tool_response"@[0]);
                    assert("cwd"@.len() != "tool_input"@.len());
                    assert("cwd"@.len() != "tool_response"@.len());
                    assert("tool_name"@.len() != "tool_input"@.len());
                    assert("tool_name"@.len() != "tool_response"@.len());
                }
                let session_id = string_member_of(&m, "session_id");
                let cwd = string_member_of(&m, "cwd");
                let tool_name = opt_string_member_of(&m, "tool_name");
                match (session_id, cwd, tool_name) {
                    (Some(session_id), Some(cwd), Some(tool_name)) => Some(
                        PostToolUseInput {
                            session_id,
                            cwd,
                            tool_name,
                            tool_input: null_if_missing(tool_input),
                            tool_response: null_if_missing(tool_response),
                        },
                    ),
                    _ => None,
                }
            },
            _ => None,
        }
    }

    /// Reads a tool-call payload from JSON text.
    pub fn parse(text: &str) -> (r: Option<PostToolUseInput>)
        ensures
            r == parsed(text@, |v: JsonValue| post_tool_use_input_of(v)),
    {
        match parse_json(text) {
            Some(v) => PostToolUseInput::from_json(v),
            None => None,
        }
    }
}

impl UserPromptSubmitInput {
    /// Reads a prompt payload from its JSON tree.
    pub fn from_json(v: JsonValue) -> (r: Option<UserPromptSubmitInput>)
        ensures
            r == user_prompt_submit_input_of(v),
    {
        match v {
            JsonValue::Object(m) => {
                match (
                    string_member_of(&m, "session_id"),
                    string_member_of(&m, "cwd"),
                    string_member_of(&m, "permission_mode"),
                    string_member_of(&m, "prompt"),
                ) {
                    (Some(session_id), Some(cwd), Some(permission_mode), Some(prompt)) => Some(
                        UserPromptSubmitInput { session_id, cwd, permission_mode, prompt },
                    ),
                    _ => None,
                }
            },
            _ => None,
        }
    }

    /// Reads a prompt payload from JSON text.
    pub fn parse(text: &str) -> (r: Option<UserPromptSubmitInput>)
        ensures
            r == parsed(text@, |v: JsonValue| user_prompt_submit_input_of(v)),
    {
        match parse_json(text) {
            Some(v) => UserPromptSubmitInput::from_json(v),
            None => None,
        }
    }
}

impl ToolInput {
    /// Reads a status-line payload from its JSON tree.
    pub fn from_json(v: JsonValue) -> (r: Option<ToolInput>)
        ensures
            r == tool_input_of(v),
    {
        match v {
            JsonValue::Object(mut m) => {
                let tool_input = take_member(&mut m, "tool_input");
                proof {
                    reveal_strlit("tool_input");
                    reveal_strlit("tool_name");
                    assert("tool_name"@.len() != "tool_input"@.len());
                }
                match opt_string_member_of(&m, "tool_name") {
                    Some(tool_name) => Some(ToolInput { tool_name, tool_input: non_null(tool_input) }),
                    None => None,
                }
            },
            _ => None,
        }
    }

    /// Reads a status-line payload from JSON text.
    pub fn parse(text: &str) -> (r: Option<ToolInput>)
        ensures
            r == parsed(text@, |v: JsonValue| tool_input_of(v)),
    {
        match parse_json(text) {
            Some(v) => ToolInput::from_json(v),
            None => None,
        }
    }
}

} // verus!
