//! Text shown for the questions a tool asks the user, and for their answers.

use vstd::prelude::*;
use crate::json::{json_text, JsonValue};

verus! {

/// The decimal digit for `d`.
pub open spec fn digit_char(d: nat) -> char {
    if d == 0 { '0' } else if d == 1 { '1' } else if d == 2 { '2' } else if d == 3 { '3' }
    else if d == 4 { '4' } else if d == 5 { '5' } else if d == 6 { '6' } else if d == 7 { '7' }
    else if d == 8 { '8' } else { '9' }
}

/// `n` written in decimal, without leading zeros.
pub open spec fn decimal(n: nat) -> Seq<char>
    decreases n,
{
    if n < 10 {
        seq![digit_char(n)]
    } else {
        decimal(n / 10) + seq![digit_char(n % 10)]
    }
}

/// The parts joined with `sep` between neighbours.
pub open spec fn join(parts: Seq<Seq<char>>, sep: Seq<char>) -> Seq<char>
    decreases parts.len(),
{
    if parts.len() == 0 {
        Seq::empty()
    } else if parts.len() == 1 {
        parts[0]
    } else {
        join(parts.drop_last(), sep) + sep + parts.last()
    }
}

pub proof fn lemma_join_push(parts: Seq<Seq<char>>, x: Seq<char>, sep: Seq<char>)
    ensures
        join(parts.push(x), sep) == if parts.len() == 0 { x } else { join(parts, sep) + sep + x },
{
    assert(parts.push(x).drop_last() =~= parts);
    if parts.len() == 0 {
        assert(parts.push(x)[0] == x);
    }
}

fn digit_str(d: usize) -> (r: &'static str)
    requires
        d < 10,
    ensures
        r@ == seq![digit_char(d as nat)],
{
    proof {
        reveal_strlit("0"); reveal_strlit("1"); reveal_strlit("2"); reveal_strlit("3"); reveal_strlit("4");
        reveal_strlit("5"); reveal_strlit("6"); reveal_strlit("7"); reveal_strlit("8"); reveal_strlit("9");
    }
    let r = if d == 0 { "0" } else if d == 1 { "1" } else if d == 2 { "2" } else if d == 3 { "3" }
    else if d == 4 { "4" } else if d == 5 { "5" } else if d == 6 { "6" } else if d == 7 { "7" }
    else if d == 8 { "8" } else { "9" };
    assert(r@ =~= seq![digit_char(d as nat)]);
    r
}

/// `n` written in decimal.
pub fn decimal_string(n: usize) -> (r: String)
    ensures
        r@ == decimal(n as nat),
    decreases n,
{
    if n < 10 {
        digit_str(n).to_owned()
    } else {
        let high = decimal_string(n / 10);
        high.concat(digit_str(n % 10))
    }
}

/// `n` written in decimal, then `rest`.
fn number_then(n: usize, rest: &str) -> (r: String)
    ensures
        r@ == decimal(n as nat) + rest@,
{
    decimal_string(n).concat(rest)
}

/// The line for option number `j` (from zero): its label, and its description
/// where it has one; nothing for an option without a string label.
pub open spec fn option_line(j: nat, opt: JsonValue) -> Option<Seq<char>> {
    match opt.str_field("label"@) {
        Some(label) => Some(match opt.str_field("description"@) {
            Some(desc) => "  "@ + decimal(j + 1) + ". "@ + label + " - "@ + desc,
            None => "  "@ + decimal(j + 1) + ". "@ + label,
        }),
        None => None,
    }
}

/// The lines of the first `n` options.
pub open spec fn option_lines(opts: Seq<JsonValue>, n: nat) -> Seq<Seq<char>>
    decreases n,
{
    if n == 0 {
        Seq::empty()
    } else {
        let before = option_lines(opts, (n - 1) as nat);
        match option_line((n - 1) as nat, opts[n - 1]) {
            Some(l) => before.push(l),
            None => before,
        }
    }
}

/// The block for question number `i` (from zero): a heading with the header
/// where it has a non-empty one, then its option lines.
pub open spec fn question_block(i: nat, q: JsonValue) -> Seq<char> {
    let text = match q.str_field("question"@) {
        Some(t) => t,
        None => "N/A"@,
    };
    let head = match q.str_field("header"@) {
        Some(h) if h.len() > 0 => "*Q"@ + decimal(i + 1) + ": ["@ + h + "]* "@ + text,
        _ => "*Q"@ + decimal(i + 1) + ":* "@ + text,
    };
    match q.field("options"@) {
        Some(JsonValue::Array(opts)) => {
            let lines = option_lines(opts@, opts@.len());
            if lines.len() > 0 {
                head + "\n"@ + join(lines, "\n"@)
            } else {
                head
            }
        },
        _ => head,
    }
}

/// The blocks of the first `n` questions.
pub open spec fn question_blocks(qs: Seq<JsonValue>, n: nat) -> Seq<Seq<char>>
    decreases n,
{
    if n == 0 {
        Seq::empty()
    } else {
        question_blocks(qs, (n - 1) as nat).push(question_block((n - 1) as nat, qs[n - 1]))
    }
}

/// The questions of a tool input with their options, blocks separated by a
/// blank line; `N/A` where the input has no `questions` array.
pub open spec fn questions_text(tool_input: JsonValue) -> Seq<char> {
    match tool_input.field("questions"@) {
        Some(JsonValue::Array(qs)) => join(question_blocks(qs@, qs@.len()), "\n\n"@),
        _ => "N/A"@,
    }
}

/// The line for option number `j`.
fn format_option(j: usize, opt: &JsonValue) -> (r: Option<String>)
    requires
        j < usize::MAX,
    ensures
        match r {
            Some(l) => option_line(j as nat, *opt) == Some(l@),
            None => option_line(j as nat, *opt) is None,
        },
{
    match opt.get_str("label") {
        Some(label) => {
            let head = "  ".to_owned().concat(number_then(j + 1, ". ").as_str()).concat(label.as_str());
            match opt.get_str("description") {
                Some(desc) => Some(head.concat(" - ").concat(desc.as_str())),
                None => Some(head),
            }
        },
        None => None,
    }
}

/// The block for question number `i`.
fn format_question(i: usize, q: &JsonValue) -> (r: String)
    requires
        i < usize::MAX,
    ensures
        r@ == question_block(i as nat, *q),
{
    let text: &str = match q.get_str("question") {
        Some(t) => t.as_str(),
        None => "N/A",
    };
    let num = decimal_string(i + 1);
    let mut block = match q.get_str("header") {
        Some(h) if h.unicode_len() > 0 => "*Q".to_owned().concat(num.as_str()).concat(": [").concat(h.as_str()).concat("]* ").concat(text),
        _ => "*Q".to_owned().concat(num.as_str()).concat(":* ").concat(text),
    };
    match q.get("options") {
        Some(JsonValue::Array(opts)) => {
            let mut lines = String::new();
            let mut count: usize = 0;
            let mut j: usize = 0;
            while j < opts.len()
                invariant
                    j <= opts.len(),
                    count as nat == option_lines(opts@, j as nat).len(),
                    count <= j,
                    lines@ == join(option_lines(opts@, j as nat), "\n"@),
                decreases opts.len() - j,
            {
                let ghost prev = option_lines(opts@, j as nat);
                match format_option(j, &opts[j]) {
                    Some(l) => {
                        proof {
                            lemma_join_push(prev, l@, "\n"@);
                        }
                        if count > 0 {
                            lines = lines.concat("\n");
                        }
                        lines = lines.concat(l.as_str());
                        count = count + 1;
                    },
                    None => {},
                }
                j = j + 1;
            }
            if count > 0 {
                block = block.concat("\n").concat(lines.as_str());
            }
            block
        },
        _ => block,
    }
}

/// The questions of `tool_input` with their numbered options, as one text.
pub fn extract_questions_with_options(tool_input: &JsonValue) -> (r: String)
    ensures
        r@ == questions_text(*tool_input),
{
    match tool_input.get("questions") {
        Some(JsonValue::Array(qs)) => {
            let mut out = String::new();
            let mut i: usize = 0;
            while i < qs.len()
                invariant
                    i <= qs.len(),
                    out@ == join(question_blocks(qs@, i as nat), "\n\n"@),
                    question_blocks(qs@, i as nat).len() == i,
                decreases qs.len() - i,
            {
                let b = format_question(i, &qs[i]);
                proof {
                    lemma_join_push(question_blocks(qs@, i as nat), b@, "\n\n"@);
                }
                if i > 0 {
                    out = out.concat("\n\n");
                }
                out = out.concat(b.as_str());
                i = i + 1;
            }
            out
        },
        _ => "N/A".to_owned(),
    }
}

/// The string `question` members of the first `n` questions.
pub open spec fn question_texts(qs: Seq<JsonValue>, n: nat) -> Seq<Seq<char>>
    decreases n,
{
    if n == 0 {
        Seq::empty()
    } else {
        let before = question_texts(qs, (n - 1) as nat);
        match qs[n - 1].str_field("question"@) {
            Some(t) => before.push(t),
            None => before,
        }
    }
}

/// The question texts of a tool input, one per line; `N/A` where it has no
/// `questions` array.
pub open spec fn questions_summary(tool_input: JsonValue) -> Seq<char> {
    match tool_input.field("questions"@) {
        Some(JsonValue::Array(qs)) => join(question_texts(qs@, qs@.len()), "\n"@),
        _ => "N/A"@,
    }
}

/// The string values among the first `n` members.
pub open spec fn string_values(members: Seq<(String, JsonValue)>, n: nat) -> Seq<Seq<char>>
    decreases n,
{
    if n == 0 {
        Seq::empty()
    } else {
        let before = string_values(members, (n - 1) as nat);
        match members[n - 1].1.text() {
            Some(t) => before.push(t),
            None => before,
        }
    }
}

/// The user's answers in a tool response: the string values of its `answers`
/// object joined by `, `; else the response itself where it is a string; else
/// its JSON text.
pub open spec fn answer_text(response: JsonValue) -> Seq<char> {
    match response.field("answers"@) {
        Some(JsonValue::Object(members)) => join(string_values(members@, members@.len()), ", "@),
        _ => match response.text() {
            Some(s) => s,
            None => json_text(response),
        },
    }
}

/// The question texts of `tool_input`, one per line.
pub fn extract_question_texts(tool_input: &JsonValue) -> (r: String)
    ensures
        r@ == questions_summary(*tool_input),
{
    match tool_input.get("questions") {
        Some(JsonValue::Array(qs)) => {
            let mut out = String::new();
            let mut count: usize = 0;
            let mut i: usize = 0;
            while i < qs.len()
                invariant
                    i <= qs.len(),
                    count <= i,
                    count as nat == question_texts(qs@, i as nat).len(),
                    out@ == join(question_texts(qs@, i as nat), "\n"@),
                decreases qs.len() - i,
            {
                match qs[i].get_str("question") {
                    Some(t) => {
                        proof {
                            lemma_join_push(question_texts(qs@, i as nat), t@, "\n"@);
                        }
                        if count > 0 {
                            out = out.concat("\n");
                        }
                        out = out.concat(t.as_str());
                        count = count + 1;
                    },
                    None => {},
                }
                i = i + 1;
            }
            out
        },
        _ => "N/A".to_owned(),
    }
}

/// The user's answers recorded in a tool response.
pub fn extract_answer_from_response(response: &JsonValue) -> (r: String)
    ensures
        r@ == answer_text(*response),
{
    match response.get("answers") {
        Some(JsonValue::Object(members)) => {
            let mut out = String::new();
            let mut count: usize = 0;
            let mut i: usize = 0;
            while i < members.len()
                invariant
                    i <= members.len(),
                    count <= i,
                    count as nat == string_values(members@, i as nat).len(),
                    out@ == join(string_values(members@, i as nat), ", "@),
                decreases members.len() - i,
            {
                match members[i].1.as_str() {
                    Some(t) => {
                        proof {
                            lemma_join_push(string_values(members@, i as nat), t@, ", "@);
                        }
                        if count > 0 {
                            out = out.concat(", ");
                        }
                        out = out.concat(t.as_str());
                        count = count + 1;
                    },
                    None => {},
                }
                i = i + 1;
            }
            out
        },
        _ => match response.as_str() {
            Some(s) => s.clone(),
            None => response.to_json_string(),
        },
    }
}

} // verus!
