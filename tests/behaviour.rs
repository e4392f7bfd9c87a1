use claude_hooks::{
    answer_message, app_path_from_comm, build_tool_message, bundle_id_from_mdls, detect_terminal_bundle_id,
    extract_answer_from_response, extract_assistant_message, extract_question_texts, extract_text_content,
    extract_user_prompt, format_tool_message, get_activation_bundle_id, get_dir_name, get_relative_path,
    latest_entry, log_entry, permission_notification, plan_message, question_message, slack_payload,
    task_complete_notification, truncate_string, user_prompt_message, ChatMessage, FileEntry, HookInput,
    JsonValue, LockFileData, PostToolUseInput, StopHookInput, TerminalEnv, ToolInput, UserPromptSubmitInput,
};

fn s(x: &str) -> JsonValue {
    JsonValue::Str(x.to_string())
}

fn obj(members: Vec<(&str, JsonValue)>) -> JsonValue {
    JsonValue::Object(members.into_iter().map(|(k, v)| (k.to_string(), v)).collect())
}

fn lines(xs: &[&str]) -> Vec<String> {
    xs.iter().map(|x| x.to_string()).collect()
}

fn no_env() -> TerminalEnv {
    TerminalEnv {
        term_program: None,
        iterm_session_id: false,
        alacritty_socket: false,
        kitty_window_id: false,
        warp_local_shell: false,
        lc_terminal: None,
        term: None,
    }
}

#[test]
fn dir_name_is_last_component() {
    assert_eq!(get_dir_name("/Users/me/project"), "project");
    assert_eq!(get_dir_name("/Users/me/project/"), "project");
    assert_eq!(get_dir_name("./x"), "x");
    assert_eq!(get_dir_name("a/b/."), "b");
    assert_eq!(get_dir_name("/"), "unknown");
    assert_eq!(get_dir_name(""), "unknown");
    assert_eq!(get_dir_name("foo/.."), "unknown");
    assert_eq!(get_dir_name("."), "unknown");
}

#[test]
fn relative_path_strips_working_directory() {
    assert_eq!(get_relative_path("/a/b/src/main.rs", "/a/b"), "src/main.rs");
    assert_eq!(get_relative_path("/a/bc/x.rs", "/a/b"), "/a/bc/x.rs");
    assert_eq!(get_relative_path("/x/y/z.rs", "/a"), "z.rs");
    assert_eq!(get_relative_path("/a/b", "/a/b"), "/a/b");
    assert_eq!(get_relative_path("/", "/a"), "/");
}

#[test]
fn truncate_string_counts_characters() {
    assert_eq!(truncate_string("abcdef", 3), "abc...");
    assert_eq!(truncate_string("abc", 3), "abc");
    assert_eq!(truncate_string("日本語です", 2), "日本...");
    assert_eq!(truncate_string("", 0), "");
}

#[test]
fn tool_message_for_each_kind() {
    let bash = obj(vec![("description", s("List files")), ("command", s("ls -la"))]);
    assert_eq!(format_tool_message("Bash", Some(&bash)).unwrap(), "🔧 コマンド実行: List files");
    let cmd = obj(vec![("command", s(&"x".repeat(60)))]);
    assert_eq!(
        format_tool_message("Bash", Some(&cmd)).unwrap(),
        format!("🔧 コマンド実行: {}...", "x".repeat(47))
    );
    assert_eq!(format_tool_message("Bash", None).unwrap(), "🔧 コマンド実行");
    let write = obj(vec![("file_path", s("/tmp/dir/out.txt"))]);
    assert_eq!(format_tool_message("Write", Some(&write)).unwrap(), "✍️ ファイル作成: out.txt");
    let grep = obj(vec![("pattern", s("short"))]);
    assert_eq!(format_tool_message("Grep", Some(&grep)).unwrap(), "🔍 コード検索: short");
    let fetch = obj(vec![("url", s("https://example.com/path?q=1"))]);
    assert_eq!(format_tool_message("WebFetch", Some(&fetch)).unwrap(), "🌐 Web取得: example.com");
    let odd = obj(vec![("url", s("http://a:b://c/d"))]);
    assert_eq!(format_tool_message("WebFetch", Some(&odd)).unwrap(), "🌐 Web取得: a:b");
    let bare = obj(vec![("url", s("example.com/x"))]);
    assert_eq!(format_tool_message("WebFetch", Some(&bare)).unwrap(), "🌐 Web取得: example.com/x");
    assert_eq!(format_tool_message("TodoWrite", None).unwrap(), "✅ TODO更新");
    assert_eq!(format_tool_message("Mystery", None).unwrap(), "▶️ Mystery");
}

#[test]
fn tool_message_refuses_to_split_a_character() {
    let query = obj(vec![("query", s(&format!("{}{}", "a".repeat(26), "é".repeat(5))))]);
    assert_eq!(format_tool_message("WebSearch", Some(&query)), None);
    let query = obj(vec![("query", s(&format!("{}{}", "a".repeat(25), "é".repeat(5))))]);
    assert_eq!(
        format_tool_message("WebSearch", Some(&query)).unwrap(),
        format!("🔎 Web検索: {}é...", "a".repeat(25))
    );
}

#[test]
fn permission_message_per_tool() {
    let bash = obj(vec![("description", s("")), ("command", s(&"c".repeat(200)))]);
    let (sub, msg) = build_tool_message("Bash", &bash, "/w");
    assert_eq!(sub, "🔧 コマンド実行");
    assert_eq!(msg, "c".repeat(150));
    let read = obj(vec![("file_path", s("/w/src/lib.rs"))]);
    assert_eq!(build_tool_message("Read", &read, "/w"), ("📖 ファイル読み込み".to_string(), "src/lib.rs".to_string()));
    let edit = obj(vec![("file_path", s("/elsewhere/a.rs"))]);
    assert_eq!(build_tool_message("Edit", &edit, "/w"), ("✏️ ファイル編集".to_string(), "a.rs".to_string()));
    let grep = obj(vec![("pattern", s("fn main"))]);
    assert_eq!(build_tool_message("Grep", &grep, "/w").1, "パターン: fn main");
    let task = obj(vec![("subagent_type", s("explorer"))]);
    assert_eq!(build_tool_message("Task", &task, "/w").1, "タイプ: explorer");
    assert_eq!(
        build_tool_message("Other", &JsonValue::Null, "/w"),
        ("🔧 ツール実行".to_string(), "Other".to_string())
    );
}

#[test]
fn text_content_takes_string_or_first_text_block() {
    assert_eq!(extract_text_content(&s("hello")), "hello");
    let blocks = JsonValue::Array(vec![
        obj(vec![("type", s("tool_use")), ("text", s("no"))]),
        obj(vec![("type", s("text")), ("text", JsonValue::Bool(true))]),
        obj(vec![("type", s("text")), ("text", s("yes"))]),
    ]);
    assert_eq!(extract_text_content(&blocks), "yes");
    assert_eq!(extract_text_content(&JsonValue::Null), "");
}

#[test]
fn last_user_prompt_skips_meta_and_commands() {
    let transcript = lines(&[
        r#"{"type":"user","message":{"role":"user","content":"first prompt"}}"#,
        "   ",
        "not json",
        r#"{"type":"user","message":{"role":"user","content":[{"type":"text","text":"second prompt"}]}}"#,
        r#"{"type":"user","isMeta":true,"message":{"role":"user","content":"meta"}}"#,
        r#"{"type":"user","message":{"role":"user","content":"<command-name>/clear</command-name>"}}"#,
        r#"{"type":"user","message":{"role":"user","content":"Caveat: ignore"}}"#,
        r#"{"type":"assistant","message":{"role":"assistant","content":[{"type":"text","text":"done it"}]}}"#,
    ]);
    assert_eq!(extract_user_prompt(&transcript), "second prompt");
    assert_eq!(extract_assistant_message(&transcript), "done it");
}

#[test]
fn transcript_defaults_and_truncation() {
    assert_eq!(extract_user_prompt(&Vec::new()), "リクエスト");
    assert_eq!(extract_assistant_message(&Vec::new()), "タスクが完了しました");
    let long = format!(r#"{{"type":"user","message":{{"role":"user","content":"{}"}}}}"#, "p".repeat(120));
    assert_eq!(extract_user_prompt(&lines(&[&long])), format!("{}...", "p".repeat(100)));
}

#[test]
fn hook_payloads_parse() {
    let input = HookInput::parse(
        r#"{"session_id":"s1","cwd":"/w/proj","tool_name":"Bash","tool_input":{"command":"ls"}}"#,
    )
    .unwrap();
    assert_eq!(input.session_id, "s1");
    assert_eq!(input.tool_name.as_deref(), Some("Bash"));
    assert_eq!(input.tool_input, Some(obj(vec![("command", s("ls"))])));
    assert!(HookInput::parse(r#"{"session_id":"s1"}"#).is_none());
    assert!(HookInput::parse(r#"{"session_id":1,"cwd":"/"}"#).is_none());
    assert!(HookInput::parse("{not json").is_none());
    let nulls = HookInput::parse(r#"{"session_id":"s","cwd":"/","tool_input":null,"message":null}"#).unwrap();
    assert_eq!(nulls.tool_input, None);
    assert_eq!(nulls.message, None);

    let stop = StopHookInput::parse(r#"{"session_id":"s","cwd":"/w","transcript_path":"/t.jsonl"}"#).unwrap();
    assert_eq!(stop.transcript_path.as_deref(), Some("/t.jsonl"));

    let post = PostToolUseInput::parse(r#"{"session_id":"s","cwd":"/w","tool_input":{"a":1}}"#).unwrap();
    assert_eq!(post.tool_response, JsonValue::Null);
    assert_eq!(post.tool_input, obj(vec![("a", JsonValue::Number("1".to_string()))]));

    let prompt = UserPromptSubmitInput::parse(r#"{"session_id":"s","cwd":"/w","permission_mode":"default","prompt":"hi"}"#)
        .unwrap();
    assert_eq!(prompt.prompt, "hi");

    let status = ToolInput::parse(r#"{"tool_name":"Read"}"#).unwrap();
    assert_eq!(status.tool_name.as_deref(), Some("Read"));
    assert!(status.tool_input.is_none());
}

#[test]
fn lock_file_fields() {
    let d = LockFileData::parse(r#"{"pid":4294967295,"workspaceFolders":["/a","/b"],"ideName":"VS Code"}"#).unwrap();
    assert_eq!(d.pid, 4294967295);
    assert_eq!(d.workspace_folders, vec!["/a".to_string(), "/b".to_string()]);
    assert_eq!(d.ide_name, "VS Code");
    assert!(LockFileData::parse(r#"{"pid":4294967296,"workspaceFolders":[],"ideName":"x"}"#).is_none());
    assert!(LockFileData::parse(r#"{"pid":-1,"workspaceFolders":[],"ideName":"x"}"#).is_none());
    assert!(LockFileData::parse(r#"{"pid":1.5,"workspaceFolders":[],"ideName":"x"}"#).is_none());
    assert!(LockFileData::parse(r#"{"pid":7,"workspaceFolders":[1],"ideName":"x"}"#).is_none());
}

#[test]
fn answers_from_response() {
    let answers = obj(vec![("answers", obj(vec![("q1", s("yes")), ("q2", JsonValue::Bool(false)), ("q3", s("no"))]))]);
    assert_eq!(extract_answer_from_response(&answers), "yes, no");
    assert_eq!(extract_answer_from_response(&s("plain")), "plain");
    assert_eq!(extract_answer_from_response(&JsonValue::Number("42".to_string())), "42");
    let other = obj(vec![(
        "a",
        JsonValue::Array(vec![JsonValue::Number("1".to_string()), JsonValue::Bool(true), JsonValue::Null, s("x\"y\n")]),
    )]);
    assert_eq!(extract_answer_from_response(&other), r#"{"a":[1,true,null,"x\"y\n"]}"#);
    let parsed = PostToolUseInput::parse(r#"{"session_id":"s","cwd":"/","tool_response":{"b":{},"a":"\u0001"}}"#).unwrap();
    assert_eq!(extract_answer_from_response(&parsed.tool_response), r#"{"a":"\u0001","b":{}}"#);
}

#[test]
fn question_texts_one_per_line() {
    let input = obj(vec![("questions", JsonValue::Array(vec![obj(vec![("question", s("A?"))]), obj(vec![]), obj(vec![("question", s("B?"))])]))]);
    assert_eq!(extract_question_texts(&input), "A?\nB?");
    assert_eq!(extract_question_texts(&JsonValue::Null), "N/A");
}

#[test]
fn terminal_detection_order() {
    assert_eq!(detect_terminal_bundle_id(&no_env()), "com.apple.Terminal");
    let mut env = no_env();
    env.term_program = Some("WarpTerminal".to_string());
    env.kitty_window_id = true;
    assert_eq!(detect_terminal_bundle_id(&env), "dev.warp.Warp-Stable");
    env.term_program = Some("vscode".to_string());
    assert_eq!(detect_terminal_bundle_id(&env), "net.kovidgoyal.kitty");
    let mut env = no_env();
    env.lc_terminal = Some("iTerm2".to_string());
    env.term = Some("alacritty".to_string());
    assert_eq!(detect_terminal_bundle_id(&env), "com.googlecode.iterm2");
    env.lc_terminal = None;
    assert_eq!(detect_terminal_bundle_id(&env), "io.alacritty.Alacritty");
    assert_eq!(get_activation_bundle_id(Some("com.microsoft.VSCode".to_string()), &env), "com.microsoft.VSCode");
    assert_eq!(get_activation_bundle_id(None, &env), "io.alacritty.Alacritty");
}

#[test]
fn process_output_parsing() {
    assert_eq!(
        app_path_from_comm("  /Applications/Visual Studio Code.app/Contents/MacOS/Electron\n").as_deref(),
        Some("/Applications/Visual Studio Code.app")
    );
    assert_eq!(app_path_from_comm("/usr/bin/vim\r\nsecond").as_deref(), Some("/usr/bin/vim"));
    assert_eq!(app_path_from_comm(""), None);
    assert_eq!(app_path_from_comm("\n"), None);
    assert_eq!(
        bundle_id_from_mdls("kMDItemCFBundleIdentifier = \"com.microsoft.VSCode\"\n").as_deref(),
        Some("com.microsoft.VSCode")
    );
    assert_eq!(bundle_id_from_mdls("kMDItemCFBundleIdentifier = (null)"), None);
    assert_eq!(bundle_id_from_mdls("x \"open").as_deref(), Some("open"));
}

#[test]
fn newest_entry_of_a_kind() {
    let e = |n: &str, t: Option<i128>| FileEntry { name: n.to_string(), modified: t };
    let entries = vec![e("old.md", Some(10)), e("notes.txt", Some(99)), e("new.md", Some(20)), e("same.md", Some(20)), e(".md", Some(30))];
    assert_eq!(latest_entry(&entries, "md"), Some(2));
    let entries = vec![e("a.md", Some(10)), e("b.md", None), e("c.md", None)];
    assert_eq!(latest_entry(&entries, "md"), Some(1));
    assert_eq!(latest_entry(&entries, "lock"), None);
    assert!(claude_hooks::extension_is("x.tar.lock", "lock"));
    assert!(!claude_hooks::extension_is("lock", "lock"));
}

#[test]
fn chat_messages_and_payload() {
    let prompt = UserPromptSubmitInput {
        session_id: "s".to_string(),
        cwd: "/w/proj".to_string(),
        permission_mode: "plan".to_string(),
        prompt: "x".repeat(4001),
    };
    let m = user_prompt_message(&prompt, "Helper");
    assert_eq!(m.title, "🤔 New Helper Prompt");
    assert_eq!(m.fields[1], ("Directory".to_string(), "proj".to_string()));
    assert_eq!(m.fields[3].1, format!("{}...", "x".repeat(4000)));

    let post = PostToolUseInput {
        session_id: "s".to_string(),
        cwd: "/w".to_string(),
        tool_name: None,
        tool_input: obj(vec![("questions", JsonValue::Array(vec![obj(vec![("question", s("Go?"))])]))]),
        tool_response: obj(vec![("answers", obj(vec![("Go?", s("Yes"))]))]),
    };
    assert_eq!(question_message(&post).fields[2].1, "*Q1:* Go?");
    let a = answer_message(&post);
    assert_eq!(a.fields[2].1, "Go?");
    assert_eq!(a.fields[3].1, "Yes");
    assert_eq!(plan_message(&post, None).fields[2].1, "Plan file not found");
    assert_eq!(plan_message(&post, Some("# Plan")).fields[2].1, "# Plan");

    let msg = ChatMessage { title: "T".to_string(), fields: vec![("A".to_string(), "v\"1".to_string())] };
    assert_eq!(
        slack_payload(&msg),
        r#"{"text":"T","blocks":[{"type":"header","text":{"type":"plain_text","text":"T"}},{"type":"section","text":{"type":"mrkdwn","text":"*A*\nv\"1"}}]}"#
    );
}

#[test]
fn notifications() {
    let input = HookInput {
        session_id: "s".to_string(),
        cwd: "/w/proj".to_string(),
        tool_name: Some("Glob".to_string()),
        tool_input: Some(obj(vec![("pattern", s("**/*.rs"))])),
        notification_type: None,
        message: None,
    };
    let n = permission_notification(&input, "Helper");
    assert_eq!(n.title, "Helper - 確認待ち (proj)");
    assert_eq!(n.subtitle, "🔍 ファイル検索");
    assert_eq!(n.message, "パターン: **/*.rs");
    assert_eq!(n.sound, "Glass");

    let stop = StopHookInput { session_id: "s".to_string(), transcript_path: None, cwd: "/w/proj".to_string() };
    let n = task_complete_notification(&stop, "Helper", "fix it", "fixed");
    assert_eq!(n.title, "Helper - タスク完了 (proj)");
    assert_eq!(n.subtitle, "📝 fix it");
    assert_eq!(n.message, "fixed");
    assert_eq!(n.sound, "Funk");

    assert_eq!(log_entry("2024-01-02 03:04:05", "p", "m"), "[2024-01-02 03:04:05]\n  User Prompt: p\n  Assistant: m\n\n");
}

#[test]
fn summary_without_transcript_uses_stock_texts() {
    let (p, r) = claude_hooks::transcript_summary(None);
    assert_eq!(p, "リクエスト");
    assert_eq!(r, "タスクが完了しました");
    let l = lines(&[r#"{"type":"assistant","message":{"role":"assistant","content":"ok"}}"#]);
    let (p, r) = claude_hooks::transcript_summary(Some(&l));
    assert_eq!(p, "リクエスト");
    assert_eq!(r, "ok");
}
