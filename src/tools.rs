//! One-line descriptions of tool invocations, for status lines and notifications.

use vstd::prelude::*;
use vstd::utf8::*;
use vstd::string::StringSliceAdditionalSpecFns;
use crate::json::JsonValue;
use crate::paths::{after_last, after_last_exec, get_relative_path, last_part, lemma_after_last_bound, relative_path_of, string_of_range};
use crate::text::{chars_of, same_text};

verus! {

/// The string member `key` of the tool input, if there is an input and the member is a string.
pub open spec fn input_str(input: Option<JsonValue>, key: Seq<char>) -> Option<Seq<char>> {
    match input {
        Some(v) => v.str_field(key),
        None => None,
    }
}

/// `s` kept whole while its UTF-8 form has at most `limit` bytes; else its first
/// `keep` bytes followed by `suffix`. Nothing where byte `keep` splits a character.
pub open spec fn clip_bytes_of(s: Seq<char>, limit: nat, keep: nat, suffix: Seq<char>) -> Option<Seq<char>> {
    let b = encode_utf8(s);
    if b.len() > limit {
        if is_char_boundary(b, keep as int) {
            Some(decode_utf8(b.subrange(0, keep as int)) + suffix)
        } else {
            None
        }
    } else {
        Some(s)
    }
}

/// Index of the first occurrence of `pat` in `s`.
pub open spec fn first_at(s: Seq<char>, pat: Seq<char>) -> Option<nat>
    decreases s.len(),
{
    if pat.is_prefix_of(s) {
        Some(0)
    } else if s.len() == 0 {
        None
    } else {
        match first_at(s.drop_first(), pat) {
            Some(k) => Some(k + 1),
            None => None,
        }
    }
}

/// The characters of `rest` up to its first `/` or `://`.
pub open spec fn host_part(rest: Seq<char>) -> Seq<char>
    decreases rest.len(),
{
    if rest.len() == 0 || rest[0] == '/' || "://"@.is_prefix_of(rest) {
        Seq::empty()
    } else {
        seq![rest[0]] + host_part(rest.drop_first())
    }
}

/// The host of a URL: what follows the first `://` up to the next `/` or
/// `://`; the whole text where it holds no `://`.
pub open spec fn url_host(url: Seq<char>) -> Seq<char> {
    match first_at(url, "://"@) {
        Some(i) => host_part(url.subrange(i + 3 as int, url.len() as int)),
        None => url,
    }
}

/// The status line shown for a tool call; nothing where a byte limit would
/// cut through a character.
pub open spec fn tool_display(name: Seq<char>, input: Option<JsonValue>) -> Option<Seq<char>> {
    if name == "AskUserQuestion"@ {
        Some("💬 ユーザーに質問中"@)
    } else if name == "ExitPlanMode"@ {
        Some("📋 プラン提示中"@)
    } else if name == "Bash"@ {
        match input_str(input, "description"@) {
            Some(d) => Some("🔧 コマンド実行: "@ + d),
            None => match input_str(input, "command"@) {
                Some(c) => match clip_bytes_of(c, 50, 47, "..."@) {
                    Some(x) => Some("🔧 コマンド実行: "@ + x),
                    None => None,
                },
                None => Some("🔧 コマンド実行"@),
            },
        }
    } else if name == "Write"@ {
        match input_str(input, "file_path"@) {
            Some(p) => Some("✍️ ファイル作成: "@ + last_part(p, '/')),
            None => Some("✍️ ファイル作成"@),
        }
    } else if name == "Edit"@ {
        match input_str(input, "file_path"@) {
            Some(p) => Some("📝 ファイル編集: "@ + last_part(p, '/')),
            None => Some("📝 ファイル編集"@),
        }
    } else if name == "Read"@ {
        match input_str(input, "file_path"@) {
            Some(p) => Some("📖 ファイル読み込み: "@ + last_part(p, '/')),
            None => Some("📖 ファイル読み込み"@),
        }
    } else if name == "Grep"@ {
        match input_str(input, "pattern"@) {
            Some(p) => match clip_bytes_of(p, 30, 27, "..."@) {
                Some(x) => Some("🔍 コード検索: "@ + x),
                None => None,
            },
            None => Some("🔍 コード検索"@),
        }
    } else if name == "Glob"@ {
        match input_str(input, "pattern"@) {
            Some(p) => Some("🔍 ファイル検索: "@ + p),
            None => Some("🔍 ファイル検索"@),
        }
    } else if name == "Task"@ {
        match input_str(input, "description"@) {
            Some(d) => Some("🤖 エージェント実行: "@ + d),
            None => Some("🤖 エージェント実行"@),
        }
    } else if name == "WebFetch"@ {
        match input_str(input, "url"@) {
            Some(u) => Some("🌐 Web取得: "@ + url_host(u)),
            None => Some("🌐 Web取得"@),
        }
    } else if name == "WebSearch"@ {
        match input_str(input, "query"@) {
            Some(q) => match clip_bytes_of(q, 30, 27, "..."@) {
                Some(x) => Some("🔎 Web検索: "@ + x),
                None => None,
            },
            None => Some("🔎 Web検索"@),
        }
    } else if name == "TodoWrite"@ {
        Some("✅ TODO更新"@)
    } else if name == "NotebookEdit"@ {
        Some("📓 ノートブック編集"@)
    } else if name == "Skill"@ {
        Some("⚡ スキル実行"@)
    } else if name == "SlashCommand"@ {
        match input_str(input, "command"@) {
            Some(c) => Some("⚙️ コマンド実行: "@ + c),
            None => Some("⚙️ コマンド実行"@),
        }
    } else if name == "BashOutput"@ {
        Some("📤 出力取得"@)
    } else if name == "KillShell"@ {
        Some("⛔ シェル終了"@)
    } else {
        Some("▶️ "@ + name)
    }
}

/// The string member `key` of the tool input.
fn input_string<'a>(input: Option<&'a JsonValue>, key: &str) -> (r: Option<&'a String>)
    ensures
        match r {
            Some(s) => input_str(match input { Some(v) => Some(*v), None => None }, key@) == Some(s@),
            None => input_str(match input { Some(v) => Some(*v), None => None }, key@) is None,
        },
{
    match input {
        Some(v) => v.get_str(key),
        None => None,
    }
}

/// `s` whole while it has at most `limit` bytes, else its first `keep` bytes and `suffix`.
pub fn clip_bytes(s: &str, limit: usize, keep: usize, suffix: &str) -> (r: Option<String>)
    requires
        keep <= limit,
    ensures
        match r {
            Some(x) => clip_bytes_of(s@, limit as nat, keep as nat, suffix@) == Some(x@),
            None => clip_bytes_of(s@, limit as nat, keep as nat, suffix@) is None,
        },
{
    let bytes = s.as_bytes();
    if bytes.len() > limit {
        if s.is_char_boundary(keep) {
            let (head, _tail) = s.split_at(keep);
            proof {
                encode_utf8_decode_utf8(head@);
                assert(head.spec_bytes() == encode_utf8(head@));
                assert(head@ == decode_utf8(encode_utf8(s@).subrange(0, keep as int)));
            }
            let r = head.to_owned().concat(suffix);
            Some(r)
        } else {
            None
        }
    } else {
        Some(s.to_owned())
    }
}

/// Where `pat` first occurs in `s`.
pub fn find(s: &Vec<char>, pat: &Vec<char>) -> (r: Option<usize>)
    ensures
        match r {
            Some(i) => first_at(s@, pat@) == Some(i as nat) && i + pat.len() <= s.len(),
            None => first_at(s@, pat@) is None,
        },
{
    let mut i: usize = 0;
    assert(s@.subrange(0, s.len() as int) =~= s@);
    loop
        invariant
            i <= s.len(),
            first_at(s@, pat@) == (match first_at(s@.subrange(i as int, s.len() as int), pat@) {
                Some(k) => Some((k + i) as nat),
                None => None,
            }),
        decreases s.len() - i,
    {
        let ghost rest = s@.subrange(i as int, s.len() as int);
        if pat.len() <= s.len() - i {
            let mut j: usize = 0;
            let mut ok = true;
            while j < pat.len()
                invariant
                    i + pat.len() <= s.len(),
                    j <= pat.len(),
                    ok == (forall|k: int| 0 <= k < j ==> s@[i + k] == pat@[k]),
                decreases pat.len() - j,
            {
                if s[i + j] != pat[j] {
                    ok = false;
                }
                j = j + 1;
            }
            if ok {
                assert(pat@.is_prefix_of(rest));
                return Some(i);
            }
            assert(!pat@.is_prefix_of(rest)) by {
                let k = choose|k: int| 0 <= k < pat.len() && s@[i + k] != pat@[k];
                assert(rest[k] == s@[i + k]);
            }
        } else {
            assert(!pat@.is_prefix_of(rest));
        }
        if i == s.len() {
            return None;
        }
        assert(rest.drop_first() =~= s@.subrange(i + 1, s.len() as int));
        i = i + 1;
    }
}

/// The host named by a URL, as `url_host` gives it.
pub fn host_of(url: &str) -> (r: String)
    ensures
        r@ == url_host(url@),
{
    let u = chars_of(url);
    let sep = chars_of("://");
    match find(&u, &sep) {
        None => url.to_owned(),
        Some(i) => {
            proof {
                reveal_strlit("://");
            }
            let start = i + 3;
            let ghost rest = u@.subrange(start as int, u.len() as int);
            let mut j: usize = start;
            assert(u@.subrange(start as int, start as int) =~= Seq::<char>::empty());
            loop
                invariant
                    u@ == url@,
                    sep@ == "://"@,
                    start <= j <= u.len(),
                    rest == u@.subrange(start as int, u.len() as int),
                    host_part(rest) == u@.subrange(start as int, j as int) + host_part(u@.subrange(j as int, u.len() as int)),
                ensures
                    start <= j <= u.len(),
                    host_part(rest) == u@.subrange(start as int, j as int),
                decreases u.len() - j,
            {
                let ghost tail = u@.subrange(j as int, u.len() as int);
                proof {
                    reveal_strlit("://");
                }
                if j == u.len() {
                    assert(tail.len() == 0);
                    assert(u@.subrange(start as int, j as int) + host_part(tail) =~= u@.subrange(start as int, j as int));
                    break;
                }
                if u[j] == '/' {
                    assert(tail[0] == '/');
                    assert(u@.subrange(start as int, j as int) + host_part(tail) =~= u@.subrange(start as int, j as int));
                    break;
                }
                let stop = u.len() - j >= 3 && u[j] == ':' && u[j + 1] == '/' && u[j + 2] == '/';
                if stop {
                    assert("://"@.is_prefix_of(tail)) by {
                        assert(tail[0] == ':' && tail[1] == '/' && tail[2] == '/');
                    }
                    assert(u@.subrange(start as int, j as int) + host_part(tail) =~= u@.subrange(start as int, j as int));
                    break;
                }
                assert(!"://"@.is_prefix_of(tail)) by {
                    if "://"@.is_prefix_of(tail) {
                        assert(tail[0] == "://"@[0] && tail[1] == "://"@[1] && tail[2] == "://"@[2]);
                    }
                }
                assert(tail.drop_first() =~= u@.subrange(j + 1, u.len() as int));
                assert(u@.subrange(start as int, j + 1) =~= u@.subrange(start as int, j as int) + seq![tail[0]]);
                j = j + 1;
            }
            string_of_range(url, start, j)
        },
    }
}

/// The part of `path` after its last `/`.
fn after_last_slash(path: &String) -> (r: String)
    ensures
        r@ == last_part(path@, '/'),
{
    let p = chars_of(path.as_str());
    let n = p.len();
    let start = after_last_exec(&p, n, '/');
    proof {
        assert(p@.subrange(0, n as int) =~= path@);
        lemma_after_last_bound(path@, '/');
    }
    string_of_range(path.as_str(), start, n)
}

/// `prefix` followed by `rest`.
fn joined(prefix: &str, rest: &str) -> (r: String)
    ensures
        r@ == prefix@ + rest@,
{
    prefix.to_owned().concat(rest)
}

/// The status line for a call of the tool `tool_name` with `tool_input`, or
/// nothing where a byte limit would cut through a character.
pub fn format_tool_message(tool_name: &str, tool_input: Option<&JsonValue>) -> (r: Option<String>)
    ensures
        match r {
            Some(m) => tool_display(tool_name@, match tool_input { Some(v) => Some(*v), None => None }) == Some(m@),
            None => tool_display(tool_name@, match tool_input { Some(v) => Some(*v), None => None }) is None,
        },
{
    if same_text(tool_name, "AskUserQuestion") {
        Some("💬 ユーザーに質問中".to_owned())
    } else if same_text(tool_name, "ExitPlanMode") {
        Some("📋 プラン提示中".to_owned())
    } else if same_text(tool_name, "Bash") {
        match input_string(tool_input, "description") {
            Some(d) => Some(joined("🔧 コマンド実行: ", d.as_str())),
            None => match input_string(tool_input, "command") {
                Some(c) => match clip_bytes(c.as_str(), 50, 47, "...") {
                    Some(x) => Some(joined("🔧 コマンド実行: ", x.as_str())),
                    None => None,
                },
                None => Some("🔧 コマンド実行".to_owned()),
            },
        }
    } else if same_text(tool_name, "Write") {
        match input_string(tool_input, "file_path") {
            Some(p) => Some(joined("✍️ ファイル作成: ", after_last_slash(p).as_str())),
            None => Some("✍️ ファイル作成".to_owned()),
        }
    } else if same_text(tool_name, "Edit") {
        match input_string(tool_input, "file_path") {
            Some(p) => Some(joined("📝 ファイル編集: ", after_last_slash(p).as_str())),
            None => Some("📝 ファイル編集".to_owned()),
        }
    } else if same_text(tool_name, "Read") {
        match input_string(tool_input, "file_path") {
            Some(p) => Some(joined("📖 ファイル読み込み: ", after_last_slash(p).as_str())),
            None => Some("📖 ファイル読み込み".to_owned()),
        }
    } else if same_text(tool_name, "Grep") {
        match input_string(tool_input, "pattern") {
            Some(p) => match clip_bytes(p.as_str(), 30, 27, "...") {
                Some(x) => Some(joined("🔍 コード検索: ", x.as_str())),
                None => None,
            },
            None => Some("🔍 コード検索".to_owned()),
        }
    } else if same_text(tool_name, "Glob") {
        match input_string(tool_input, "pattern") {
            Some(p) => Some(joined("🔍 ファイル検索: ", p.as_str())),
            None => Some("🔍 ファイル検索".to_owned()),
        }
    } else if same_text(tool_name, "Task") {
        match input_string(tool_input, "description") {
            Some(d) => Some(joined("🤖 エージェント実行: ", d.as_str())),
            None => Some("🤖 エージェント実行".to_owned()),
        }
    } else if same_text(tool_name, "WebFetch") {
        match input_string(tool_input, "url") {
            Some(u) => Some(joined("🌐 Web取得: ", host_of(u.as_str()).as_str())),
            None => Some("🌐 Web取得".to_owned()),
        }
    } else if same_text(tool_name, "WebSearch") {
        match input_string(tool_input, "query") {
            Some(q) => match clip_bytes(q.as_str(), 30, 27, "...") {
                Some(x) => Some(joined("🔎 Web検索: ", x.as_str())),
                None => None,
            },
            None => Some("🔎 Web検索".to_owned()),
        }
    } else if same_text(tool_name, "TodoWrite") {
        Some("✅ TODO更新".to_owned())
    } else if same_text(tool_name, "NotebookEdit") {
        Some("📓 ノートブック編集".to_owned())
    } else if same_text(tool_name, "Skill") {
        Some("⚡ スキル実行".to_owned())
    } else if same_text(tool_name, "SlashCommand") {
        match input_string(tool_input, "command") {
            Some(c) => Some(joined("⚙️ コマンド実行: ", c.as_str())),
            None => Some("⚙️ コマンド実行".to_owned()),
        }
    } else if same_text(tool_name, "BashOutput") {
        Some("📤 出力取得".to_owned())
    } else if same_text(tool_name, "KillShell") {
        Some("⛔ シェル終了".to_owned())
    } else {
        Some(joined("▶️ ", tool_name))
    }
}

/// The string member `key` of `input`, or nothing at all.
pub open spec fn str_or_empty(input: JsonValue, key: Seq<char>) -> Seq<char> {
    match input.str_field(key) {
        Some(s) => s,
        None => Seq::empty(),
    }
}

/// The first `n` characters of `s`, or all of it.
pub open spec fn take_chars(s: Seq<char>, n: nat) -> Seq<char> {
    if s.len() > n {
        s.subrange(0, n as int)
    } else {
        s
    }
}

/// Subtitle and message of the notification that asks to allow a tool call.
pub open spec fn permission_message(name: Seq<char>, input: JsonValue, cwd: Seq<char>) -> (Seq<char>, Seq<char>) {
    if name == "Bash"@ {
        let d = str_or_empty(input, "description"@);
        let m = if d.len() > 0 { d } else { str_or_empty(input, "command"@) };
        ("🔧 コマンド実行"@, take_chars(m, 150))
    } else if name == "Read"@ {
        ("📖 ファイル読み込み"@, relative_path_of(str_or_empty(input, "file_path"@), cwd))
    } else if name == "Write"@ {
        ("✍️ ファイル作成"@, relative_path_of(str_or_empty(input, "file_path"@), cwd))
    } else if name == "Edit"@ {
        ("✏️ ファイル編集"@, relative_path_of(str_or_empty(input, "file_path"@), cwd))
    } else if name == "Grep"@ {
        ("🔍 コード検索"@, "パターン: "@ + str_or_empty(input, "pattern"@))
    } else if name == "Glob"@ {
        ("🔍 ファイル検索"@, "パターン: "@ + str_or_empty(input, "pattern"@))
    } else if name == "Task"@ {
        ("🤖 エージェント実行"@, "タイプ: "@ + str_or_empty(input, "subagent_type"@))
    } else {
        ("🔧 ツール実行"@, name)
    }
}

/// The string member `key` of `input`, or an empty string.
fn string_or_empty(input: &JsonValue, key: &str) -> (r: String)
    ensures
        r@ == str_or_empty(*input, key@),
{
    match input.get_str(key) {
        Some(s) => s.clone(),
        None => String::new(),
    }
}

/// The first `n` characters of `s`, or all of it.
pub fn take_first_chars(s: &str, n: usize) -> (r: String)
    ensures
        r@ == take_chars(s@, n as nat),
{
    if s.unicode_len() > n {
        s.substring_char(0, n).to_owned()
    } else {
        s.to_owned()
    }
}

/// Subtitle and message for a permission request on `tool_name` with `tool_input`.
pub fn build_tool_message(tool_name: &str, tool_input: &JsonValue, cwd: &str) -> (r: (String, String))
    ensures
        (r.0@, r.1@) == permission_message(tool_name@, *tool_input, cwd@),
{
    if same_text(tool_name, "Bash") {
        let d = string_or_empty(tool_input, "description");
        let m = if d.unicode_len() > 0 { d } else { string_or_empty(tool_input, "command") };
        ("🔧 コマンド実行".to_owned(), take_first_chars(m.as_str(), 150))
    } else if same_text(tool_name, "Read") {
        let p = string_or_empty(tool_input, "file_path");
        ("📖 ファイル読み込み".to_owned(), get_relative_path(p.as_str(), cwd))
    } else if same_text(tool_name, "Write") {
        let p = string_or_empty(tool_input, "file_path");
        ("✍️ ファイル作成".to_owned(), get_relative_path(p.as_str(), cwd))
    } else if same_text(tool_name, "Edit") {
        let p = string_or_empty(tool_input, "file_path");
        ("✏️ ファイル編集".to_owned(), get_relative_path(p.as_str(), cwd))
    } else if same_text(tool_name, "Grep") {
        let p = string_or_empty(tool_input, "pattern");
        ("🔍 コード検索".to_owned(), joined("パターン: ", p.as_str()))
    } else if same_text(tool_name, "Glob") {
        let p = string_or_empty(tool_input, "pattern");
        ("🔍 ファイル検索".to_owned(), joined("パターン: ", p.as_str()))
    } else if same_text(tool_name, "Task") {
        let t = string_or_empty(tool_input, "subagent_type");
        ("🤖 エージェント実行".to_owned(), joined("タイプ: ", t.as_str()))
    } else {
        ("🔧 ツール実行".to_owned(), tool_name.to_owned())
    }
}

} // verus!
