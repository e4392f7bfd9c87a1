//! Helpers for coding-assistant hook programs: JSON field extraction,
//! transcript scanning, message formatting and notification routing.

pub mod files;
pub mod hooks;
pub mod inputs;
pub mod json;
pub mod paths;
pub mod questions;
pub mod terminal;
pub mod text;
pub mod tools;
pub mod transcript;

pub use files::{can_truncate_content, extension_is, latest_entry, truncate_content, FileEntry};
pub use hooks::{
    answer_message, log_entry, permission_notification, plan_message, question_message, slack_payload,
    task_complete_notification, user_prompt_message, ChatMessage, Notification,
};
pub use inputs::{HookInput, LockFileData, PostToolUseInput, StopHookInput, ToolInput, UserPromptSubmitInput};
pub use json::JsonValue;
pub use paths::{file_name, get_dir_name, get_relative_path};
pub use questions::{decimal_string, extract_answer_from_response, extract_question_texts, extract_questions_with_options};
pub use terminal::{
    app_path_from_comm, bundle_id_from_mdls, detect_terminal_bundle_id, get_activation_bundle_id, TerminalEnv,
};
pub use text::truncate_string;
pub use tools::{build_tool_message, clip_bytes, format_tool_message, host_of};
pub use transcript::{
    extract_assistant_message, extract_text_content, extract_user_prompt, transcript_summary, MessageContent,
    TranscriptMessage,
};
