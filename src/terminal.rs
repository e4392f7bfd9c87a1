//! Which application a notification activates: the IDE that runs the
//! session where one is found, else the terminal the environment names.

use vstd::prelude::*;
use crate::paths::string_of_range;
use crate::text::{chars_of, same_text};
use crate::tools::{find, first_at};

verus! {

/// What the environment says about the terminal: the values of `TERM_PROGRAM`,
/// `LC_TERMINAL` and `TERM`, and whether the variables that only one
/// terminal sets are present.
pub struct TerminalEnv {
    pub term_program: Option<String>,
    pub iterm_session_id: bool,
    pub alacritty_socket: bool,
    pub kitty_window_id: bool,
    pub warp_local_shell: bool,
    pub lc_terminal: Option<String>,
    pub term: Option<String>,
}

/// The characters of an optional string.
pub open spec fn opt_view(s: Option<String>) -> Option<Seq<char>> {
    match s {
        Some(x) => Some(x@),
        None => None,
    }
}

/// The bundle identifier a `TERM_PROGRAM` value names.
pub open spec fn term_program_bundle(v: Seq<char>) -> Option<Seq<char>> {
    if v == "iTerm.app"@ {
        Some("com.googlecode.iterm2"@)
    } else if v == "Apple_Terminal"@ {
        Some("com.apple.Terminal"@)
    } else if v == "WarpTerminal"@ {
        Some("dev.warp.Warp-Stable"@)
    } else if v == "Hyper"@ {
        Some("co.zeit.hyper"@)
    } else {
        None
    }
}

/// The bundle identifier an `LC_TERMINAL` value names.
pub open spec fn lc_terminal_bundle(v: Seq<char>) -> Option<Seq<char>> {
    if v == "iTerm2"@ {
        Some("com.googlecode.iterm2"@)
    } else if v == "Terminal"@ {
        Some("com.apple.Terminal"@)
    } else {
        None
    }
}

/// The bundle identifier a `TERM` value names.
pub open spec fn term_bundle(v: Seq<char>) -> Option<Seq<char>> {
    if v == "xterm-kitty"@ {
        Some("net.kovidgoyal.kitty"@)
    } else if v == "alacritty"@ {
        Some("io.alacritty.Alacritty"@)
    } else {
        None
    }
}

/// The terminal's bundle identifier: `TERM_PROGRAM` first, then the
/// terminal-specific variables, then `LC_TERMINAL`, then `TERM`, else Terminal.app.
pub open spec fn terminal_bundle(env: TerminalEnv) -> Seq<char> {
    let by_program = match opt_view(env.term_program) {
        Some(v) => term_program_bundle(v),
        None => None,
    };
    let by_lc = match opt_view(env.lc_terminal) {
        Some(v) => lc_terminal_bundle(v),
        None => None,
    };
    let by_term = match opt_view(env.term) {
        Some(v) => term_bundle(v),
        None => None,
    };
    if by_program is Some {
        by_program->0
    } else if env.iterm_session_id {
        "com.googlecode.iterm2"@
    } else if env.alacritty_socket {
        "io.alacritty.Alacritty"@
    } else if env.kitty_window_id {
        "net.kovidgoyal.kitty"@
    } else if env.warp_local_shell {
        "dev.warp.Warp-Stable"@
    } else if by_lc is Some {
        by_lc->0
    } else if by_term is Some {
        by_term->0
    } else {
        "com.apple.Terminal"@
    }
}

/// The bundle identifier of the terminal described by `env`.
pub fn detect_terminal_bundle_id(env: &TerminalEnv) -> (r: String)
    ensures
        r@ == terminal_bundle(*env),
{
    if let Some(v) = &env.term_program {
        if same_text(v.as_str(), "iTerm.app") {
            return "com.googlecode.iterm2".to_owned();
        } else if same_text(v.as_str(), "Apple_Terminal") {
            return "com.apple.Terminal".to_owned();
        } else if same_text(v.as_str(), "WarpTerminal") {
            return "dev.warp.Warp-Stable".to_owned();
        } else if same_text(v.as_str(), "Hyper") {
            return "co.zeit.hyper".to_owned();
        }
    }
    if env.iterm_session_id {
        return "com.googlecode.iterm2".to_owned();
    }
    if env.alacritty_socket {
        return "io.alacritty.Alacritty".to_owned();
    }
    if env.kitty_window_id {
        return "net.kovidgoyal.kitty".to_owned();
    }
    if env.warp_local_shell {
        return "dev.warp.Warp-Stable".to_owned();
    }
    if let Some(v) = &env.lc_terminal {
        if same_text(v.as_str(), "iTerm2") {
            return "com.googlecode.iterm2".to_owned();
        } else if same_text(v.as_str(), "Terminal") {
            return "com.apple.Terminal".to_owned();
        }
    }
    if let Some(v) = &env.term {
        if same_text(v.as_str(), "xterm-kitty") {
            return "net.kovidgoyal.kitty".to_owned();
        } else if same_text(v.as_str(), "alacritty") {
            return "io.alacritty.Alacritty".to_owned();
        }
    }
    "com.apple.Terminal".to_owned()
}

/// The application to activate: the IDE found for the session, else the terminal.
pub fn get_activation_bundle_id(ide_bundle_id: Option<String>, env: &TerminalEnv) -> (r: String)
    ensures
        r@ == match ide_bundle_id {
            Some(id) => id@,
            None => terminal_bundle(*env),
        },
{
    match ide_bundle_id {
        Some(id) => id,
        None => detect_terminal_bundle_id(env),
    }
}

/// A character with the Unicode `White_Space` property.
pub open spec fn is_white_space(c: char) -> bool {
    let u = c as u32;
    (0x9 <= u <= 0xd) || u == 0x20 || u == 0x85 || u == 0xa0 || u == 0x1680 || (0x2000 <= u
        <= 0x200a) || u == 0x2028 || u == 0x2029 || u == 0x202f || u == 0x205f || u == 0x3000
}

fn white_space(c: char) -> (r: bool)
    ensures
        r == is_white_space(c),
{
    let u = c as u32;
    (0x9 <= u && u <= 0xd) || u == 0x20 || u == 0x85 || u == 0xa0 || u == 0x1680 || (0x2000 <= u
        && u <= 0x200a) || u == 0x2028 || u == 0x2029 || u == 0x202f || u == 0x205f || u == 0x3000
}

/// `s` without leading white space.
pub open spec fn trim_start(s: Seq<char>) -> Seq<char>
    decreases s.len(),
{
    if s.len() > 0 && is_white_space(s[0]) {
        trim_start(s.drop_first())
    } else {
        s
    }
}

/// `s` without trailing white space.
pub open spec fn trim_end(s: Seq<char>) -> Seq<char>
    decreases s.len(),
{
    if s.len() > 0 && is_white_space(s.last()) {
        trim_end(s.drop_last())
    } else {
        s
    }
}

/// `s` without white space at either end.
pub open spec fn trim(s: Seq<char>) -> Seq<char> {
    trim_end(trim_start(s))
}

/// The bounds `(a, b)` of `trim` of the characters `from..to` of `p`.
pub(crate) fn trim_bounds(p: &Vec<char>, from: usize, to: usize) -> (r: (usize, usize))
    requires
        from <= to <= p.len(),
    ensures
        from <= r.0 <= r.1 <= to,
        p@.subrange(r.0 as int, r.1 as int) == trim(p@.subrange(from as int, to as int)),
{
    let mut a: usize = from;
    while a < to && white_space(p[a])
        invariant
            from <= a <= to <= p.len(),
            trim_start(p@.subrange(from as int, to as int)) == trim_start(p@.subrange(a as int, to as int)),
        decreases to - a,
    {
        assert(p@.subrange(a as int, to as int).drop_first() =~= p@.subrange(a + 1, to as int));
        a = a + 1;
    }
    assert(trim_start(p@.subrange(a as int, to as int)) == p@.subrange(a as int, to as int));
    let mut b: usize = to;
    while b > a && white_space(p[b - 1])
        invariant
            from <= a <= b <= to <= p.len(),
            trim_end(p@.subrange(a as int, to as int)) == trim_end(p@.subrange(a as int, b as int)),
        decreases b,
    {
        assert(p@.subrange(a as int, b as int).drop_last() =~= p@.subrange(a as int, b - 1));
        b = b - 1;
    }
    (a, b)
}

/// The first line of `s`: up to its first line feed.
pub open spec fn first_line(s: Seq<char>) -> Seq<char> {
    match first_at(s, seq!['\n']) {
        Some(i) => s.subrange(0, i as int),
        None => s,
    }
}

/// The part of `t` before the first `/Contents/MacOS/`.
pub open spec fn before_bundle_contents(t: Seq<char>) -> Seq<char> {
    match first_at(t, "/Contents/MacOS/"@) {
        Some(i) => t.subrange(0, i as int),
        None => t,
    }
}

/// The application bundle path in `ps -o comm=` output: the trimmed first
/// line up to `/Contents/MacOS/`; nothing for empty output or an empty path.
pub open spec fn app_path_of(comm: Seq<char>) -> Option<Seq<char>> {
    if comm.len() == 0 {
        None
    } else {
        let p = before_bundle_contents(trim(first_line(comm)));
        if p.len() == 0 {
            None
        } else {
            Some(p)
        }
    }
}

/// The application bundle path named by the output of `ps -o comm=`.
pub fn app_path_from_comm(comm: &str) -> (r: Option<String>)
    ensures
        match r {
            Some(p) => app_path_of(comm@) == Some(p@),
            None => app_path_of(comm@) is None,
        },
{
    let c = chars_of(comm);
    if c.len() == 0 {
        return None;
    }
    let nl = chars_of("\n");
    proof {
        reveal_strlit("\n");
        assert(nl@ =~= seq!['\n']);
    }
    let end = match find(&c, &nl) {
        Some(i) => i,
        None => c.len(),
    };
    assert(first_line(comm@) =~= c@.subrange(0, end as int));
    let (a, b) = trim_bounds(&c, 0, end);
    let t = string_of_range(comm, a, b);
    assert(t@ == trim(first_line(comm@)));
    let tc = chars_of(t.as_str());
    let marker = chars_of("/Contents/MacOS/");
    let stop = match find(&tc, &marker) {
        Some(i) => i,
        None => tc.len(),
    };
    assert(before_bundle_contents(t@) =~= t@.subrange(0, stop as int));
    if stop == 0 {
        return None;
    }
    Some(string_of_range(t.as_str(), 0, stop))
}

/// The text between the first two double quotes of `mdls` output (or after
/// the first, where there is only one); nothing where it holds none.
pub open spec fn quoted_field_of(out: Seq<char>) -> Option<Seq<char>> {
    match first_at(out, seq!['"']) {
        Some(i) => {
            let rest = out.subrange(i + 1 as int, out.len() as int);
            Some(match first_at(rest, seq!['"']) {
                Some(j) => rest.subrange(0, j as int),
                None => rest,
            })
        },
        None => None,
    }
}

/// The bundle identifier in the output of `mdls -name kMDItemCFBundleIdentifier`.
pub fn bundle_id_from_mdls(out: &str) -> (r: Option<String>)
    ensures
        match r {
            Some(id) => quoted_field_of(out@) == Some(id@),
            None => quoted_field_of(out@) is None,
        },
{
    let c = chars_of(out);
    let q = chars_of("\"");
    proof {
        reveal_strlit("\"");
        assert(q@ =~= seq!['"']);
    }
    match find(&c, &q) {
        Some(i) => {
            let rest = string_of_range(out, i + 1, c.len());
            let rc = chars_of(rest.as_str());
            match find(&rc, &q) {
                Some(j) => Some(string_of_range(rest.as_str(), 0, j)),
                None => Some(rest),
            }
        },
        None => None,
    }
}

} // verus!
