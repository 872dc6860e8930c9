//! Documentation text: the lines of a documentation block, each without the
//! whitespace around it.

use crate::text::{join, join_strings, push_char, views};
use vstd::prelude::*;

verus! {

/// Whether a character has the Unicode property White_Space, as std tells.
pub uninterp spec fn is_whitespace(c: char) -> bool;

/// `char::is_whitespace` of std: the result depends on the character alone,
/// and is named [`is_whitespace`].
#[verifier::external_body]
fn char_is_whitespace(c: char) -> (b: bool)
    ensures
        b == is_whitespace(c),
{
    c.is_whitespace()
}

/// How many characters at the start of the line are whitespace.
pub open spec fn leading(line: Seq<char>) -> nat
    decreases line.len(),
{
    if line.len() > 0 && is_whitespace(line[0]) {
        1 + leading(line.drop_first())
    } else {
        0
    }
}

/// How many characters at the end of the line are whitespace.
pub open spec fn trailing(line: Seq<char>) -> nat
    decreases line.len(),
{
    if line.len() > 0 && is_whitespace(line.last()) {
        1 + trailing(line.drop_last())
    } else {
        0
    }
}

/// The line without the whitespace at its start and at its end.
pub open spec fn trimmed(line: Seq<char>) -> Seq<char> {
    let rest = line.skip(leading(line) as int);
    rest.take(rest.len() - trailing(rest))
}

/// The line without a carriage return at its end.
pub open spec fn strip_cr(line: Seq<char>) -> Seq<char> {
    if line.len() > 0 && line.last() == '\r' {
        line.drop_last()
    } else {
        line
    }
}

/// The lines of the text from its `i`-th character on, where `current`
/// holds what was read of the line at hand: a line ends at a line feed, and
/// a carriage return before the line feed belongs to the line ending; what
/// follows the last line feed is a line if it is not empty.
pub open spec fn lines_from(s: Seq<char>, i: int, current: Seq<char>) -> Seq<Seq<char>>
    decreases s.len() - i,
{
    if i < 0 || i >= s.len() {
        if current.len() == 0 {
            Seq::empty()
        } else {
            seq![current]
        }
    } else if s[i] == '\n' {
        seq![strip_cr(current)] + lines_from(s, i + 1, Seq::empty())
    } else {
        lines_from(s, i + 1, current.push(s[i]))
    }
}

/// The lines of the text.
pub open spec fn lines(s: Seq<char>) -> Seq<Seq<char>> {
    lines_from(s, 0, Seq::empty())
}

/// The documentation as it is shown: its lines, each trimmed, joined by
/// line feeds.
pub open spec fn docs_text(docs: Seq<char>) -> Seq<char> {
    join(lines(docs).map_values(|line: Seq<char>| trimmed(line)), "\n"@)
}

proof fn lemma_leading_is(line: Seq<char>, a: int)
    requires
        0 <= a <= line.len(),
        forall|k: int| 0 <= k < a ==> is_whitespace(#[trigger] line[k]),
        a < line.len() ==> !is_whitespace(line[a]),
    ensures
        leading(line) == a,
    decreases line.len(),
{
    if a > 0 {
        assert(is_whitespace(line[0]));
        let rest = line.drop_first();
        assert forall|k: int| 0 <= k < a - 1 implies is_whitespace(#[trigger] rest[k]) by {
            assert(rest[k] == line[k + 1]);
        }
        lemma_leading_is(rest, a - 1);
    }
}

proof fn lemma_trailing_is(line: Seq<char>, b: int)
    requires
        0 <= b <= line.len(),
        forall|k: int| b <= k < line.len() ==> is_whitespace(#[trigger] line[k]),
        b > 0 ==> !is_whitespace(line[b - 1]),
    ensures
        trailing(line) == line.len() - b,
    decreases line.len(),
{
    if b < line.len() {
        assert(is_whitespace(line.last()));
        lemma_trailing_is(line.drop_last(), b);
    }
}

/// The line without the whitespace around it.
pub fn trim_line(line: &Vec<char>) -> (out: String)
    ensures
        out@ == trimmed(line@),
{
    let n = line.len();
    let mut a: usize = 0;
    while a < n && char_is_whitespace(line[a])
        invariant
            a <= n,
            n == line.len(),
            forall|k: int| 0 <= k < a ==> is_whitespace(#[trigger] line[k]),
        decreases n - a,
    {
        a += 1;
    }
    let mut b: usize = n;
    while b > a && char_is_whitespace(line[b - 1])
        invariant
            a <= b <= n,
            n == line.len(),
            forall|k: int| b <= k < n ==> is_whitespace(#[trigger] line[k]),
        decreases b,
    {
        b -= 1;
    }
    proof {
        lemma_leading_is(line@, a as int);
        let rest = line@.skip(a as int);
        assert forall|k: int| b - a <= k < rest.len() implies is_whitespace(#[trigger] rest[k]) by {
            assert(rest[k] == line[k + a]);
        }
        if b > a {
            assert(rest[b - a - 1] == line[b - 1]);
        }
        lemma_trailing_is(rest, b - a);
        assert(rest.take(b - a) == line@.subrange(a as int, b as int));
    }
    let mut out = String::new();
    let mut i: usize = a;
    while i < b
        invariant
            a <= i <= b <= n,
            n == line.len(),
            out@ == line@.subrange(a as int, i as int),
        decreases b - i,
    {
        push_char(&mut out, line[i]);
        assert(line@.subrange(a as int, i + 1) == line@.subrange(a as int, i as int).push(
            line[i as int],
        ));
        i += 1;
    }
    out
}

/// The documentation as it is shown: every line without the whitespace
/// around it.
pub fn print_docs(docs: &str) -> (out: String)
    ensures
        out@ == docs_text(docs@),
{
    let mut parts: Vec<String> = Vec::new();
    let mut current: Vec<char> = Vec::new();
    let ghost mut done: Seq<Seq<char>> = Seq::empty();
    for c in it: docs.chars()
        invariant
            it.seq() == docs@,
            done + lines_from(docs@, it.index() as int, current@) == lines(docs@),
            views(parts@) == done.map_values(|line: Seq<char>| trimmed(line)),
    {
        if c == '\n' {
            let n = current.len();
            if n > 0 && current[n - 1] == '\r' {
                current.pop();
            }
            let ghost line = current@;
            let ghost before = views(parts@);
            parts.push(trim_line(&current));
            current = Vec::new();
            proof {
                assert(views(parts@) == before.push(trimmed(line)));
                assert(done.push(line).map_values(|line: Seq<char>| trimmed(line)) == before.push(
                    trimmed(line),
                ));
                let rest = lines_from(docs@, it.index() + 1, Seq::empty());
                assert(done + (seq![line] + rest) == done.push(line) + rest);
                done = done.push(line);
            }
        } else {
            current.push(c);
        }
    }
    if current.len() > 0 {
        let ghost line = current@;
        let ghost before = views(parts@);
        parts.push(trim_line(&current));
        proof {
            assert(views(parts@) == before.push(trimmed(line)));
            assert(done.push(line).map_values(|line: Seq<char>| trimmed(line)) == before.push(
                trimmed(line),
            ));
            assert(done + seq![line] == done.push(line));
            done = done.push(line);
        }
    } else {
        assert(done + Seq::<Seq<char>>::empty() == done);
    }
    join_strings(&parts, "\n")
}

} // verus!
