//! What each hook sends: a desktop notification, or a chat message with a
//! title and named fields, built from the hook's payload.

use vstd::prelude::*;
use vstd::utf8::*;
use crate::files::{plan_text, truncate_content};
use crate::inputs::{HookInput, PostToolUseInput, StopHookInput, UserPromptSubmitInput};
use crate::json::{quote_json, quoted, JsonValue};
use crate::paths::{file_name_of, get_dir_name};
use crate::questions::{
    answer_text, extract_answer_from_response, extract_question_texts, extract_questions_with_options,
    questions_summary, questions_text,
};
use crate::text::{truncate_string, truncated_chars};
use crate::tools::{build_tool_message, permission_message};

verus! {

/// A desktop notification.
pub struct Notification {
    pub title: String,
    pub subtitle: String,
    pub message: String,
    pub sound: String,
}

/// A chat message: a title and named fields, in order.
pub struct ChatMessage {
    pub title: String,
    pub fields: Vec<(String, String)>,
}

impl ChatMessage {
    /// The fields as name and value characters.
    pub open spec fn field_views(self) -> Seq<(Seq<char>, Seq<char>)> {
        self.fields@.map_values(|f: (String, String)| (f.0@, f.1@))
    }
}

/// The directory name shown for a working directory.
pub open spec fn dir_name(cwd: Seq<char>) -> Seq<char> {
    match file_name_of(cwd) {
        Some(n) => n,
        None => "unknown"@,
    }
}

fn field(name: &str, value: String) -> (r: (String, String))
    ensures
        r.0@ == name@,
        r.1@ == value@,
{
    (name.to_owned(), value)
}

/// The message sent when the user submits a prompt to the assistant named
/// `assistant`; the prompt is cut to 4000 characters.
pub fn user_prompt_message(input: &UserPromptSubmitInput, assistant: &str) -> (r: ChatMessage)
    ensures
        r.title@ == "🤔 New "@ + assistant@ + " Prompt"@,
        r.field_views() == seq![
            ("Session ID"@, input.session_id@),
            ("Directory"@, dir_name(input.cwd@)),
            ("Permission Mode"@, input.permission_mode@),
            ("Prompt"@, truncated_chars(input.prompt@, 4000)),
        ],
{
    let mut fields: Vec<(String, String)> = Vec::new();
    fields.push(field("Session ID", input.session_id.clone()));
    fields.push(field("Directory", get_dir_name(input.cwd.as_str())));
    fields.push(field("Permission Mode", input.permission_mode.clone()));
    fields.push(field("Prompt", truncate_string(input.prompt.as_str(), 4000)));
    let title = "🤔 New ".to_owned().concat(assistant).concat(" Prompt");
    let r = ChatMessage { title, fields };
    assert(r.field_views() =~= seq![
        ("Session ID"@, input.session_id@),
        ("Directory"@, dir_name(input.cwd@)),
        ("Permission Mode"@, input.permission_mode@),
        ("Prompt"@, truncated_chars(input.prompt@, 4000)),
    ]);
    r
}

/// The message sent when a tool asks the user questions.
pub fn question_message(input: &PostToolUseInput) -> (r: ChatMessage)
    ensures
        r.title@ == "❓ AskUserQuestion"@,
        r.field_views() == seq![
            ("Session ID"@, input.session_id@),
            ("Directory"@, dir_name(input.cwd@)),
            ("Questions"@, questions_text(input.tool_input)),
        ],
{
    let mut fields: Vec<(String, String)> = Vec::new();
    fields.push(field("Session ID", input.session_id.clone()));
    fields.push(field("Directory", get_dir_name(input.cwd.as_str())));
    fields.push(field("Questions", extract_questions_with_options(&input.tool_input)));
    let r = ChatMessage { title: "❓ AskUserQuestion".to_owned(), fields };
    assert(r.field_views() =~= seq![
        ("Session ID"@, input.session_id@),
        ("Directory"@, dir_name(input.cwd@)),
        ("Questions"@, questions_text(input.tool_input)),
    ]);
    r
}

/// The message sent when the user has answered; questions are cut to 500
/// characters and answers to 1000.
pub fn answer_message(input: &PostToolUseInput) -> (r: ChatMessage)
    ensures
        r.title@ == "💬 AskUserQuestion Response"@,
        r.field_views() == seq![
            ("Session ID"@, input.session_id@),
            ("Directory"@, dir_name(input.cwd@)),
            ("Question"@, truncated_chars(questions_summary(input.tool_input), 500)),
            ("Answer"@, truncated_chars(answer_text(input.tool_response), 1000)),
        ],
{
    let questions = extract_question_texts(&input.tool_input);
    let answer = extract_answer_from_response(&input.tool_response);
    let mut fields: Vec<(String, String)> = Vec::new();
    fields.push(field("Session ID", input.session_id.clone()));
    fields.push(field("Directory", get_dir_name(input.cwd.as_str())));
    fields.push(field("Question", truncate_string(questions.as_str(), 500)));
    fields.push(field("Answer", truncate_string(answer.as_str(), 1000)));
    let r = ChatMessage { title: "💬 AskUserQuestion Response".to_owned(), fields };
    assert(r.field_views() =~= seq![
        ("Session ID"@, input.session_id@),
        ("Directory"@, dir_name(input.cwd@)),
        ("Question"@, truncated_chars(questions_summary(input.tool_input), 500)),
        ("Answer"@, truncated_chars(answer_text(input.tool_response), 1000)),
    ]);
    r
}

/// The message sent when a plan is ready: the newest plan's text, cut to its
/// byte limit, or a notice that no plan file was found.
pub fn plan_message(input: &PostToolUseInput, plan: Option<&str>) -> (r: ChatMessage)
    requires
        plan matches Some(p) ==> (encode_utf8(p@).len() > 2800 ==> is_char_boundary(encode_utf8(p@), 2800)),
    ensures
        r.title@ == "📋 Plan Ready for Review"@,
        r.field_views() == seq![
            ("Session ID"@, input.session_id@),
            ("Directory"@, dir_name(input.cwd@)),
            ("Plan Content"@, match plan {
                Some(p) => plan_text(p@),
                None => "Plan file not found"@,
            }),
        ],
{
    let content = match plan {
        Some(p) => truncate_content(p),
        None => "Plan file not found".to_owned(),
    };
    let mut fields: Vec<(String, String)> = Vec::new();
    fields.push(field("Session ID", input.session_id.clone()));
    fields.push(field("Directory", get_dir_name(input.cwd.as_str())));
    fields.push(field("Plan Content", content));
    let r = ChatMessage { title: "📋 Plan Ready for Review".to_owned(), fields };
    assert(r.field_views() =~= seq![
        ("Session ID"@, input.session_id@),
        ("Directory"@, dir_name(input.cwd@)),
        ("Plan Content"@, match plan {
            Some(p) => plan_text(p@),
            None => "Plan file not found"@,
        }),
    ]);
    r
}

/// The notification asking to allow a tool call, titled with the
/// assistant's name `assistant`.
pub fn permission_notification(input: &HookInput, assistant: &str) -> (r: Notification)
    ensures
        r.title@ == assistant@ + " - 確認待ち ("@ + dir_name(input.cwd@) + ")"@,
        (r.subtitle@, r.message@) == permission_message(
            match input.tool_name {
                Some(n) => n@,
                None => Seq::empty(),
            },
            match input.tool_input {
                Some(v) => v,
                None => JsonValue::Null,
            },
            input.cwd@,
        ),
        r.sound@ == "Glass"@,
{
    let null = JsonValue::Null;
    let tool_input = match &input.tool_input {
        Some(v) => v,
        None => &null,
    };
    let tool_name: &str = match &input.tool_name {
        Some(n) => n.as_str(),
        None => "",
    };
    proof {
        reveal_strlit("");
        assert(""@ =~= Seq::<char>::empty());
    }
    let (subtitle, message) = build_tool_message(tool_name, tool_input, input.cwd.as_str());
    let title = assistant.to_owned().concat(" - 確認待ち (").concat(get_dir_name(input.cwd.as_str()).as_str()).concat(")");
    Notification { title, subtitle, message, sound: "Glass".to_owned() }
}

/// The notification that a task is complete, given the last prompt and the
/// last reply found in the transcript, titled with the assistant's name.
pub fn task_complete_notification(input: &StopHookInput, assistant: &str, prompt: &str, reply: &str) -> (r: Notification)
    ensures
        r.title@ == assistant@ + " - タスク完了 ("@ + dir_name(input.cwd@) + ")"@,
        r.subtitle@ == "📝 "@ + prompt@,
        r.message@ == reply@,
        r.sound@ == "Funk"@,
{
    let title = assistant.to_owned().concat(" - タスク完了 (").concat(get_dir_name(input.cwd.as_str()).as_str()).concat(")");
    let subtitle = "📝 ".to_owned().concat(prompt);
    Notification { title, subtitle, message: reply.to_owned(), sound: "Funk".to_owned() }
}

/// The entry appended to the task log for one finished task.
pub fn log_entry(timestamp: &str, prompt: &str, reply: &str) -> (r: String)
    ensures
        r@ == "["@ + timestamp@ + "]\n  User Prompt: "@ + prompt@ + "\n  Assistant: "@ + reply@ + "\n\n"@,
{
    "[".to_owned().concat(timestamp).concat("]\n  User Prompt: ").concat(prompt).concat("\n  Assistant: ").concat(
        reply,
    ).concat("\n\n")
}

/// The fields of a chat message as Slack `mrkdwn` section blocks, separated by commas.
pub open spec fn field_blocks(fields: Seq<(Seq<char>, Seq<char>)>) -> Seq<char>
    decreases fields.len(),
{
    if fields.len() == 0 {
        Seq::empty()
    } else {
        let f = fields.last();
        let block = "{\"type\":\"section\",\"text\":{\"type\":\"mrkdwn\",\"text\":"@ + quoted(
            "*"@ + f.0 + "*\n"@ + f.1,
        ) + "}}"@;
        if fields.len() == 1 {
            block
        } else {
            field_blocks(fields.drop_last()) + ","@ + block
        }
    }
}

/// The JSON body posted to a Slack webhook: the title as fallback text and
/// as a header block, then one section block per field.
pub open spec fn slack_payload_text(title: Seq<char>, fields: Seq<(Seq<char>, Seq<char>)>) -> Seq<char> {
    "{\"text\":"@ + quoted(title) + ",\"blocks\":[{\"type\":\"header\",\"text\":{\"type\":\"plain_text\",\"text\":"@
        + quoted(title) + "}}"@ + (if fields.len() == 0 { Seq::empty() } else { ","@ + field_blocks(fields) })
        + "]}"@
}

/// The JSON body that posts `msg` to a Slack webhook.
pub fn slack_payload(msg: &ChatMessage) -> (r: String)
    ensures
        r@ == slack_payload_text(msg.title@, msg.field_views()),
{
    let mut blocks = String::new();
    let mut i: usize = 0;
    while i < msg.fields.len()
        invariant
            i <= msg.fields.len(),
            blocks@ == field_blocks(msg.field_views().subrange(0, i as int)),
        decreases msg.fields.len() - i,
    {
        let ghost pre = msg.field_views().subrange(0, i + 1);
        assert(pre.drop_last() =~= msg.field_views().subrange(0, i as int));
        let text = "*".to_owned().concat(msg.fields[i].0.as_str()).concat("*\n").concat(msg.fields[i].1.as_str());
        let block = "{\"type\":\"section\",\"text\":{\"type\":\"mrkdwn\",\"text\":".to_owned().concat(
            quote_json(text.as_str()).as_str(),
        ).concat("}}");
        if i > 0 {
            blocks = blocks.concat(",");
        }
        blocks = blocks.concat(block.as_str());
        i = i + 1;
    }
    assert(msg.field_views().subrange(0, msg.fields.len() as int) =~= msg.field_views());
    let title = quote_json(msg.title.as_str());
    let mut out = "{\"text\":".to_owned().concat(title.as_str()).concat(
        ",\"blocks\":[{\"type\":\"header\",\"text\":{\"type\":\"plain_text\",\"text\":",
    ).concat(title.as_str()).concat("}}");
    if msg.fields.len() > 0 {
        out = out.concat(",").concat(blocks.as_str());
    }
    out.concat("]}")
}

} // verus!
