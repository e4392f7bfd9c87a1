//! Path-name helpers on `/`-separated paths.

use vstd::prelude::*;
use crate::text::{chars_of, starts_with};

verus! {

/// Index just past the last `c` in `s`, or 0 where `s` holds none.
pub open spec fn after_last(s: Seq<char>, c: char) -> nat
    decreases s.len(),
{
    if s.len() == 0 {
        0
    } else if s.last() == c {
        s.len()
    } else {
        after_last(s.drop_last(), c)
    }
}

/// The part of `s` after its last `c`; all of `s` where it holds none.
pub open spec fn last_part(s: Seq<char>, c: char) -> Seq<char> {
    s.subrange(after_last(s, c) as int, s.len() as int)
}

/// The final named component of a path: trailing separators and `.`
/// components are skipped, and a final `..` (or none at all) gives nothing.
pub open spec fn file_name_of(p: Seq<char>) -> Option<Seq<char>>
    decreases p.len(),
{
    if p.len() == 0 {
        None
    } else if p.last() == '/' {
        file_name_of(p.drop_last())
    } else if p == "."@ {
        None
    } else if p.len() >= 2 && p[p.len() - 2] == '/' && p[p.len() - 1] == '.' {
        file_name_of(p.subrange(0, p.len() - 2))
    } else if last_part(p, '/') == ".."@ {
        None
    } else {
        Some(last_part(p, '/'))
    }
}

pub proof fn lemma_after_last_bound(s: Seq<char>, c: char)
    ensures
        after_last(s, c) <= s.len(),
        after_last(s, c) > 0 ==> s[after_last(s, c) - 1] == c,
        forall|k: int| after_last(s, c) <= k < s.len() ==> s[k] != c,
    decreases s.len(),
{
    if s.len() > 0 && s.last() != c {
        lemma_after_last_bound(s.drop_last(), c);
        assert forall|k: int| after_last(s, c) <= k < s.len() implies s[k] != c by {
            if k < s.len() - 1 {
                assert(s.drop_last()[k] == s[k]);
            }
        }
    }
}

/// Index just past the last `c` in the first `end` characters of `s`.
pub fn after_last_exec(s: &Vec<char>, end: usize, c: char) -> (r: usize)
    requires
        end <= s.len(),
    ensures
        r as nat == after_last(s@.subrange(0, end as int), c),
{
    let mut i: usize = end;
    while i > 0
        invariant
            i <= end <= s.len(),
            after_last(s@.subrange(0, end as int), c) == after_last(s@.subrange(0, i as int), c),
        decreases i,
    {
        assert(s@.subrange(0, i as int).drop_last() =~= s@.subrange(0, i - 1));
        if s[i - 1] == c {
            return i;
        }
        i = i - 1;
    }
    0
}

/// `s` and a literal `lit` hold the same characters, on a character vector range.
fn range_is(s: &Vec<char>, from: usize, to: usize, lit: &str) -> (r: bool)
    requires
        from <= to <= s.len(),
    ensures
        r == (s@.subrange(from as int, to as int) == lit@),
{
    let l = chars_of(lit);
    if to - from != l.len() {
        return false;
    }
    let mut k: usize = 0;
    while k < l.len()
        invariant
            l@ == lit@,
            from <= to <= s.len(),
            to - from == l.len(),
            k <= l.len(),
            forall|j: int| 0 <= j < k ==> s@[from + j] == l@[j],
        decreases l.len() - k,
    {
        if s[from + k] != l[k] {
            assert(s@.subrange(from as int, to as int)[k as int] != lit@[k as int]);
            return false;
        }
        k = k + 1;
    }
    assert(s@.subrange(from as int, to as int) =~= lit@);
    true
}

/// The characters `from..to` of a character vector, as a string.
pub fn string_of_range(s: &str, from: usize, to: usize) -> (r: String)
    requires
        from <= to <= s@.len(),
    ensures
        r@ == s@.subrange(from as int, to as int),
{
    s.substring_char(from, to).to_owned()
}

/// The final named component of `path`, as `Path::file_name` gives it.
pub fn file_name(path: &str) -> (r: Option<String>)
    ensures
        match r {
            Some(n) => file_name_of(path@) == Some(n@),
            None => file_name_of(path@) is None,
        },
{
    let p = chars_of(path);
    let mut end: usize = p.len();
    assert(p@.subrange(0, end as int) =~= path@);
    loop
        invariant
            p@ == path@,
            end <= p.len(),
            file_name_of(path@) == file_name_of(p@.subrange(0, end as int)),
        decreases end,
    {
        let ghost q = p@.subrange(0, end as int);
        if end == 0 {
            return None;
        }
        if p[end - 1] == '/' {
            assert(q.drop_last() =~= p@.subrange(0, end - 1));
            end = end - 1;
        } else if range_is(&p, 0, end, ".") {
            assert(q =~= p@.subrange(0, end as int));
            return None;
        } else if end >= 2 && p[end - 2] == '/' && p[end - 1] == '.' {
            assert(q.subrange(0, q.len() - 2) =~= p@.subrange(0, end - 2));
            end = end - 2;
        } else {
            let start = after_last_exec(&p, end, '/');
            proof {
                lemma_after_last_bound(q, '/');
                assert(q.subrange(start as int, q.len() as int) =~= p@.subrange(start as int, end as int));
            }
            if range_is(&p, start, end, "..") {
                return None;
            }
            return Some(string_of_range(path, start, end));
        }
    }
}

/// The last component of the working directory `cwd`, or `unknown`.
pub fn get_dir_name(cwd: &str) -> (r: String)
    ensures
        r@ == match file_name_of(cwd@) {
            Some(n) => n,
            None => "unknown"@,
        },
{
    match file_name(cwd) {
        Some(n) => n,
        None => "unknown".to_owned(),
    }
}

/// How a file path is shown relative to the working directory `cwd`.
pub open spec fn relative_path_of(file_path: Seq<char>, cwd: Seq<char>) -> Seq<char> {
    if cwd.is_prefix_of(file_path) {
        let rest = file_path.subrange(cwd.len() as int, file_path.len() as int);
        if rest.len() > 0 && rest[0] == '/' {
            rest.drop_first()
        } else {
            file_path
        }
    } else {
        match file_name_of(file_path) {
            Some(n) => n,
            None => file_path,
        }
    }
}

/// `file_path` below `cwd` without the `cwd/` prefix; otherwise its file name.
pub fn get_relative_path(file_path: &str, cwd: &str) -> (r: String)
    ensures
        r@ == relative_path_of(file_path@, cwd@),
{
    if starts_with(file_path, cwd) {
        let n = file_path.unicode_len();
        let c = cwd.unicode_len();
        let p = chars_of(file_path);
        if c < n && p[c] == '/' {
            let r = string_of_range(file_path, c + 1, n);
            assert(r@ =~= file_path@.subrange(c as int, n as int).drop_first());
            r
        } else {
            file_path.to_owned()
        }
    } else {
        match file_name(file_path) {
            Some(name) => name,
            None => file_path.to_owned(),
        }
    }
}

} // verus!
