//! Character-level string helpers with specifications over `Seq<char>`.

use vstd::prelude::*;

verus! {

/// The characters of `s`, cut to `max` characters with `...` appended when longer.
pub open spec fn truncated_chars(s: Seq<char>, max: nat) -> Seq<char> {
    if s.len() > max {
        s.subrange(0, max as int) + "..."@
    } else {
        s
    }
}

/// Truncation keeps text up to the limit unchanged; longer text keeps exactly
/// its first `max` characters, followed by `...`.
pub proof fn lemma_truncation_limits(s: Seq<char>, max: nat)
    ensures
        truncated_chars(s, max).len() <= max + 3,
        s.len() <= max ==> truncated_chars(s, max) == s,
        s.len() > max ==> truncated_chars(s, max).len() == max + 3 && truncated_chars(s, max).subrange(
            0,
            max as int,
        ) == s.subrange(0, max as int) && truncated_chars(s, max).subrange(max as int, max + 3 as int) == "..."@,
{
    reveal_strlit("...");
    if s.len() > max {
        let t = truncated_chars(s, max);
        assert(t.subrange(0, max as int) =~= s.subrange(0, max as int));
        assert(t.subrange(max as int, max + 3 as int) =~= "..."@);
    }
}

/// `pat` occurs in `s` at position `i`.
pub open spec fn occurs_at(s: Seq<char>, pat: Seq<char>, i: int) -> bool {
    0 <= i && i + pat.len() <= s.len() && s.subrange(i, i + pat.len()) == pat
}

/// `pat` occurs somewhere in `s`.
pub open spec fn contains_seq(s: Seq<char>, pat: Seq<char>) -> bool {
    exists|i: int| occurs_at(s, pat, i)
}

/// The characters of a string, in order.
pub fn chars_of(s: &str) -> (r: Vec<char>)
    ensures
        r@ == s@,
{
    let mut r: Vec<char> = Vec::new();
    for c in it: s.chars()
        invariant
            it.seq() == s@,
            r@ == it.seq().subrange(0, it.index() as int),
    {
        r.push(c);
    }
    r
}

/// `a` and `b` hold the same characters.
pub fn same_text(a: &str, b: &str) -> (r: bool)
    ensures
        r == (a@ == b@),
{
    let x = chars_of(a);
    let y = chars_of(b);
    if x.len() != y.len() {
        return false;
    }
    let mut i: usize = 0;
    while i < x.len()
        invariant
            x@ == a@,
            y@ == b@,
            x.len() == y.len(),
            i <= x.len(),
            forall|j: int| 0 <= j < i ==> x@[j] == y@[j],
        decreases x.len() - i,
    {
        if x[i] != y[i] {
            return false;
        }
        i = i + 1;
    }
    assert(x@ =~= y@);
    true
}

/// Whether `pat` occurs in `s` at position `i`, on character vectors.
fn occurs_at_exec(s: &Vec<char>, pat: &Vec<char>, i: usize) -> (r: bool)
    ensures
        r == occurs_at(s@, pat@, i as int),
{
    if i > s.len() || pat.len() > s.len() - i {
        return false;
    }
    let mut j: usize = 0;
    while j < pat.len()
        invariant
            i + pat.len() <= s.len(),
            j <= pat.len(),
            forall|k: int| 0 <= k < j ==> s@[i + k] == pat@[k],
        decreases pat.len() - j,
    {
        if s[i + j] != pat[j] {
            assert(s@.subrange(i as int, i + pat.len())[j as int] != pat@[j as int]);
            return false;
        }
        j = j + 1;
    }
    assert(s@.subrange(i as int, i + pat.len()) =~= pat@);
    true
}

/// `s` begins with `pat`.
pub fn starts_with(s: &str, pat: &str) -> (r: bool)
    ensures
        r == pat@.is_prefix_of(s@),
{
    let x = chars_of(s);
    let p = chars_of(pat);
    let r = occurs_at_exec(&x, &p, 0);
    proof {
        if r {
            assert(pat@.is_prefix_of(s@)) by {
                assert forall|k: int| 0 <= k < pat@.len() implies pat@[k] == s@[k] by {
                    assert(s@.subrange(0, pat@.len() as int)[k] == s@[k]);
                }
            }
        } else if pat@.is_prefix_of(s@) {
            assert(s@.subrange(0, pat@.len() as int) =~= pat@);
        }
    }
    r
}

/// `pat` occurs somewhere in `s`.
pub fn contains(s: &str, pat: &str) -> (r: bool)
    ensures
        r == contains_seq(s@, pat@),
{
    let x = chars_of(s);
    let p = chars_of(pat);
    if p.len() > x.len() {
        return false;
    }
    let last = x.len() - p.len();
    let mut i: usize = 0;
    loop
        invariant
            x@ == s@,
            p@ == pat@,
            last == x.len() - p.len(),
            i <= last,
            forall|k: int| 0 <= k < i ==> !occurs_at(s@, pat@, k),
        decreases last - i,
    {
        if occurs_at_exec(&x, &p, i) {
            return true;
        }
        if i == last {
            return false;
        }
        i = i + 1;
    }
}

/// Cuts `s` to `max_len` characters, appending `...` when anything was cut.
pub fn truncate_string(s: &str, max_len: usize) -> (r: String)
    ensures
        r@ == truncated_chars(s@, max_len as nat),
{
    let n = s.unicode_len();
    if n > max_len {
        let head = s.substring_char(0, max_len);
        head.to_owned().concat("...")
    } else {
        s.to_owned()
    }
}

} // verus!
