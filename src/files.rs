//! Choosing the newest file of a kind in a directory listing, plan text
//! limits, and the IDE lock file record.

use vstd::prelude::*;
use vstd::utf8::*;
use crate::json::{json_parse, lookup, member, parse_json, string_member, string_member_of, JsonValue};
use crate::paths::{after_last, after_last_exec, lemma_after_last_bound};
use crate::text::chars_of;
use crate::tools::{clip_bytes, clip_bytes_of};

verus! {

/// A directory entry: its file name and its modification time in
/// nanoseconds from the Unix epoch, where the time could be read.
pub struct FileEntry {
    pub name: String,
    pub modified: Option<i128>,
}

/// `name` has the extension `ext`: the text after its last `.`, where that
/// dot is not the name's first character.
pub open spec fn has_extension(name: Seq<char>, ext: Seq<char>) -> bool {
    let d = after_last(name, '.');
    d > 1 && name.subrange(d as int, name.len() as int) == ext
}

/// Whether `name` has the extension `ext`.
pub fn extension_is(name: &str, ext: &str) -> (r: bool)
    ensures
        r == has_extension(name@, ext@),
{
    let c = chars_of(name);
    let e = chars_of(ext);
    let n = c.len();
    let d = after_last_exec(&c, n, '.');
    assert(c@.subrange(0, n as int) =~= name@);
    proof {
        lemma_after_last_bound(name@, '.');
    }
    if d <= 1 || n - d != e.len() {
        return false;
    }
    let mut k: usize = 0;
    while k < e.len()
        invariant
            d + e.len() == n == c.len(),
            c@ == name@,
            e@ == ext@,
            d as nat == after_last(name@, '.'),
            d > 1,
            k <= e.len(),
            forall|j: int| 0 <= j < k ==> c@[d + j] == e@[j],
        decreases e.len() - k,
    {
        if c[d + k] != e[k] {
            assert(name@.subrange(d as int, n as int)[k as int] == c@[d + k]);
            assert(name@.subrange(d as int, n as int) != ext@);
            return false;
        }
        k = k + 1;
    }
    assert(name@.subrange(d as int, n as int) =~= ext@);
    true
}

/// Entry time `a` sorts before `b` when listing newest first: an unknown
/// time sorts before every known one.
pub open spec fn sorts_before(a: Option<i128>, b: Option<i128>) -> bool {
    match (a, b) {
        (None, Some(_)) => true,
        (Some(x), Some(y)) => x > y,
        _ => false,
    }
}

/// Entry `i` is the first of the entries with extension `ext` once they are
/// sorted newest first, the sort keeping the listing order among equals.
pub open spec fn is_latest(entries: Seq<FileEntry>, ext: Seq<char>, i: int) -> bool {
    &&& 0 <= i < entries.len()
    &&& has_extension(entries[i].name@, ext)
    &&& forall|j: int|
        0 <= j < entries.len() && has_extension(entries[j].name@, ext) ==> !sorts_before(
            entries[j].modified,
            entries[i].modified,
        )
    &&& forall|j: int|
        0 <= j < i && has_extension(entries[j].name@, ext) ==> sorts_before(
            entries[i].modified,
            entries[j].modified,
        )
}

fn sorts_before_exec(a: Option<i128>, b: Option<i128>) -> (r: bool)
    ensures
        r == sorts_before(a, b),
{
    match (a, b) {
        (None, Some(_)) => true,
        (Some(x), Some(y)) => x > y,
        _ => false,
    }
}

/// The index of the newest entry with extension `ext`; nothing where no entry has it.
pub fn latest_entry(entries: &Vec<FileEntry>, ext: &str) -> (r: Option<usize>)
    ensures
        match r {
            Some(i) => is_latest(entries@, ext@, i as int),
            None => forall|j: int| 0 <= j < entries.len() ==> !has_extension(entries@[j].name@, ext@),
        },
{
    let mut best: Option<usize> = None;
    let mut i: usize = 0;
    while i < entries.len()
        invariant
            i <= entries.len(),
            match best {
                Some(b) => b < i && has_extension(entries@[b as int].name@, ext@) && (forall|j: int|
                    0 <= j < i && has_extension(entries@[j].name@, ext@) ==> !sorts_before(
                        entries@[j].modified,
                        entries@[b as int].modified,
                    )) && (forall|j: int|
                    0 <= j < b && has_extension(entries@[j].name@, ext@) ==> sorts_before(
                        entries@[b as int].modified,
                        entries@[j].modified,
                    )),
                None => forall|j: int| 0 <= j < i ==> !has_extension(entries@[j].name@, ext@),
            },
        decreases entries.len() - i,
    {
        if extension_is(entries[i].name.as_str(), ext) {
            match best {
                None => {
                    best = Some(i);
                },
                Some(b) => {
                    if sorts_before_exec(entries[i].modified, entries[b].modified) {
                        best = Some(i);
                    }
                },
            }
        }
        i = i + 1;
    }
    best
}

/// Plan text as sent: whole up to 2800 bytes, else its first 2800 bytes and a
/// truncation note.
pub open spec fn plan_text(content: Seq<char>) -> Seq<char> {
    clip_bytes_of(content, 2800, 2800, "...\n\n(truncated)"@)->0
}

/// UTF-8 encoding maps concatenation to concatenation.
pub proof fn lemma_encode_concat(a: Seq<char>, b: Seq<char>)
    ensures
        encode_utf8(a + b) == encode_utf8(a) + encode_utf8(b),
    decreases a.len(),
{
    if a.len() > 0 {
        assert((a + b).drop_first() =~= a.drop_first() + b);
        lemma_encode_concat(a.drop_first(), b);
        assert((a + b)[0] == a[0]);
    } else {
        assert(a + b =~= b);
    }
}

/// Plan text within the limit is sent unchanged; longer text is sent as its
/// first 2800 bytes, which begin the text as whole characters, followed by
/// the truncation note.
pub proof fn lemma_plan_text_limits(content: Seq<char>)
    requires
        encode_utf8(content).len() > 2800 ==> is_char_boundary(encode_utf8(content), 2800),
    ensures
        encode_utf8(content).len() <= 2800 ==> plan_text(content) == content,
        encode_utf8(content).len() > 2800 ==> {
            let head = decode_utf8(encode_utf8(content).subrange(0, 2800));
            &&& head.is_prefix_of(content)
            &&& encode_utf8(head).len() == 2800
            &&& plan_text(content) == head + "...\n\n(truncated)"@
        },
{
    let b = encode_utf8(content);
    if b.len() > 2800 {
        encode_utf8_valid_utf8(content);
        valid_utf8_split(b, 2800);
        decode_utf8_split(b, 2800);
        encode_utf8_decode_utf8(content);
        decode_utf8_encode_utf8(b.subrange(0, 2800));
        let head = decode_utf8(b.subrange(0, 2800));
        assert(content == head + decode_utf8(b.subrange(2800, b.len() as int)));
        assert(head.is_prefix_of(content)) by {
            assert forall|i: int| 0 <= i < head.len() implies head[i] == content[i] by {
                assert((head + decode_utf8(b.subrange(2800, b.len() as int)))[i] == head[i]);
            }
        }
    }
}

/// Cuts plan text to 2800 bytes, noting the cut. A longer text must have a
/// character boundary at byte 2800.
pub fn truncate_content(content: &str) -> (r: String)
    requires
        encode_utf8(content@).len() > 2800 ==> is_char_boundary(encode_utf8(content@), 2800),
    ensures
        clip_bytes_of(content@, 2800, 2800, "...\n\n(truncated)"@) is Some,
        r@ == plan_text(content@),
{
    match clip_bytes(content, 2800, 2800, "...\n\n(truncated)") {
        Some(r) => r,
        None => String::new(),
    }
}

/// Whether plan text can be cut at its byte limit: it is short enough, or a
/// character ends at byte 2800.
pub fn can_truncate_content(content: &str) -> (r: bool)
    ensures
        r == (encode_utf8(content@).len() > 2800 ==> is_char_boundary(encode_utf8(content@), 2800)),
{
    content.as_bytes().len() <= 2800 || content.is_char_boundary(2800)
}

} // verus!
