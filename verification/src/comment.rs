//! Comments: which lines of a file hold nothing else.
//!
//! The labels `Config` and `Generic` stand for many formats. In those, a line that begins
//! with any mark of a comment is taken for one, and no comment reaches beyond its line.

use crate::rules::{is_java_like, java_like};
use crate::text::{chars_of, same_text, trim_start, white_space};
use vstd::prelude::*;

verus! {

/// The languages with block comments, from `/*` to `*/` and over several lines.
pub open spec fn has_block_comments(language: Seq<char>) -> bool {
    ||| language == "Go"@
    ||| language == "JavaScript"@
    ||| language == "TypeScript"@
    ||| language == "Rust"@
    ||| language == "C"@
    ||| language == "C++"@
    ||| language == "PHP"@
    ||| is_java_like(language)
}

/// The languages in which a block comment can hold others.
pub open spec fn nests_blocks(language: Seq<char>) -> bool {
    ||| language == "Rust"@
    ||| language == "Kotlin"@
    ||| language == "Scala"@
}

/// The labels under which a line that begins with `#` is a comment. In the other languages
/// it is a directive, an attribute or a private name.
pub open spec fn has_hash_comments(language: Seq<char>) -> bool {
    language == "PHP"@ || !has_block_comments(language)
}

/// The labels under which a line that begins with `//` or `/*` is a comment.
pub open spec fn has_slash_comments(language: Seq<char>) -> bool {
    &&& language != "Python"@
    &&& language != "Shell"@
    &&& language != "Ruby"@
}

/// Whether a text begins with the two given characters.
pub open spec fn begins(s: Seq<char>, a: char, b: char) -> bool {
    s.len() >= 2 && s[0] == a && s[1] == b
}

/// Whether a text is a comment up to the end of its line. In PHP `#[` begins an attribute.
/// Where there are no block comments, a `/*` counts for its own line.
pub open spec fn is_line_comment(text: Seq<char>, language: Seq<char>) -> bool {
    ||| has_hash_comments(language) && text.len() > 0 && text[0] == '#' && !(language == "PHP"@
        && begins(text, '#', '['))
    ||| has_slash_comments(language) && begins(text, '/', '/')
    ||| has_slash_comments(language) && !has_block_comments(language) && begins(text, '/', '*')
}

/// What is left of a text without its leading white space and comments, and how many block
/// comments are still open at its end. `depth` tells how many are open at its beginning.
/// A block comment that begins behind code is not followed.
pub open spec fn strip_comments(s: Seq<char>, language: Seq<char>, depth: usize) -> (
    Seq<char>,
    usize,
)
    decreases s.len(),
{
    proof {
        lemma_trim_start_len(s);
    }
    let text = trim_start(s);
    if depth > 0 {
        if s.len() == 0 {
            (s, depth)
        } else if begins(s, '*', '/') {
            strip_comments(s.skip(2), language, (depth - 1) as usize)
        } else if nests_blocks(language) && begins(s, '/', '*') {
            strip_comments(s.skip(2), language, depth.saturating_add(1))
        } else {
            strip_comments(s.drop_first(), language, depth)
        }
    } else if is_line_comment(text, language) {
        (Seq::empty(), 0)
    } else if has_block_comments(language) && begins(text, '/', '*') {
        strip_comments(text.skip(2), language, 1)
    } else {
        (text, 0)
    }
}

/// Whether a line holds nothing but white space and comments.
pub open spec fn is_skipped(line: Seq<char>, language: Seq<char>, depth: usize) -> bool {
    strip_comments(line, language, depth).0.len() == 0
}

/// How many block comments are open behind a line.
pub open spec fn depth_after(line: Seq<char>, language: Seq<char>, depth: usize) -> usize {
    strip_comments(line, language, depth).1
}

/// Whether a line names the interpreter of a script, which it can do as the first line of a
/// file. `#![` begins an attribute instead.
pub open spec fn is_hashbang(line: Seq<char>) -> bool {
    begins(line, '#', '!') && !(line.len() > 2 && line[2] == '[')
}

/// How many block comments are open before the line with index `n`.
pub open spec fn block_depth(lines: Seq<Seq<char>>, language: Seq<char>, n: nat) -> usize
    decreases n,
{
    if n == 0 {
        0
    } else {
        depth_after(lines[n - 1], language, block_depth(lines, language, (n - 1) as nat))
    }
}

/// Whether the line with index `n` is skipped, behind the lines before it.
pub open spec fn skips(lines: Seq<Seq<char>>, language: Seq<char>, n: nat) -> bool {
    ||| n == 0 && is_hashbang(lines[0])
    ||| is_skipped(lines[n as int], language, block_depth(lines, language, n))
}

/// A text does not grow by losing its leading white space.
pub proof fn lemma_trim_start_len(s: Seq<char>)
    ensures
        trim_start(s).len() <= s.len(),
    decreases s.len(),
{
    if s.len() > 0 {
        lemma_trim_start_len(s.drop_first());
    }
}

/// Where `#` begins a comment, `//` too, and there are no block comments, exactly those
/// lines are skipped that are blank or begin with a mark of a comment.
pub proof fn law_marks_decide(line: Seq<char>, language: Seq<char>)
    requires
        has_slash_comments(language),
        !has_block_comments(language),
    ensures
        is_skipped(line, language, 0) == ({
            let text = trim_start(line);
            ||| text.len() == 0
            ||| text[0] == '#'
            ||| begins(text, '/', '/')
            ||| begins(text, '/', '*')
        }),
{
}

/// Without block comments none is ever open.
pub proof fn law_no_blocks_without_block_comments(
    lines: Seq<Seq<char>>,
    language: Seq<char>,
    n: nat,
)
    requires
        !has_block_comments(language),
    ensures
        block_depth(lines, language, n) == 0,
    decreases n,
{
    if n > 0 {
        law_no_blocks_without_block_comments(lines, language, (n - 1) as nat);
    }
}

fn block_comments(language: &str) -> (r: bool)
    ensures
        r == has_block_comments(language@),
{
    same_text(language, "Go") || same_text(language, "JavaScript") || same_text(
        language,
        "TypeScript",
    ) || same_text(language, "Rust") || same_text(language, "C") || same_text(language, "C++")
        || same_text(language, "PHP") || java_like(language)
}

fn nested_blocks(language: &str) -> (r: bool)
    ensures
        r == nests_blocks(language@),
{
    same_text(language, "Rust") || same_text(language, "Kotlin") || same_text(language, "Scala")
}

fn slash_comments(language: &str) -> (r: bool)
    ensures
        r == has_slash_comments(language@),
{
    !(same_text(language, "Python") || same_text(language, "Shell") || same_text(language, "Ruby"))
}

/// Tells whether a line names the interpreter of a script.
pub fn hashbang(line: &str) -> (r: bool)
    ensures
        r == is_hashbang(line@),
{
    let s = chars_of(line);
    s.len() >= 2 && s[0] == '#' && s[1] == '!' && !(s.len() > 2 && s[2] == '[')
}

/// Tells whether a line holds nothing but white space and comments, and how many block
/// comments are open behind it. `depth` tells how many are open before it.
pub fn read_comments(line: &str, language: &str, depth: usize) -> (r: (bool, usize))
    ensures
        r.0 == is_skipped(line@, language@, depth),
        r.1 == depth_after(line@, language@, depth),
{
    let blocks = block_comments(language);
    let nests = nested_blocks(language);
    let slashes = slash_comments(language);
    let php = same_text(language, "PHP");
    let s = chars_of(line);
    let len = s.len();
    let mut open = depth;
    let mut i: usize = 0;
    assert(s@.skip(0) == line@);
    while i < len
        invariant
            i <= len,
            len == s@.len(),
            s@ == line@,
            blocks == has_block_comments(language@),
            nests == nests_blocks(language@),
            slashes == has_slash_comments(language@),
            php == (language@ == "PHP"@),
            strip_comments(s@.skip(i as int), language@, open) == strip_comments(
                line@,
                language@,
                depth,
            ),
        decreases len - i,
    {
        let ghost rest = s@.skip(i as int);
        let c = s[i];
        let next = if len - i > 1 {
            s[i + 1]
        } else {
            ' '
        };
        assert(rest.drop_first() == s@.skip(i + 1));
        assert(rest[0] == c);
        assert(rest.len() > 1 ==> rest[1] == next && rest.skip(2) == s@.skip(i + 2));
        if open > 0 {
            if c == '*' && next == '/' {
                open -= 1;
                i += 2;
            } else if nests && c == '/' && next == '*' {
                open = open.saturating_add(1);
                i += 2;
            } else {
                i += 1;
            }
        } else if white_space(c) {
            i += 1;
        } else {
            assert(trim_start(rest) == rest);
            if (php || !blocks) && c == '#' && !(php && next == '[') {
                return (true, 0);
            }
            if slashes && c == '/' && (next == '/' || (next == '*' && !blocks)) {
                return (true, 0);
            }
            if blocks && c == '/' && next == '*' {
                open = 1;
                i += 2;
            } else {
                return (false, 0);
            }
        }
    }
    assert(s@.skip(i as int) == Seq::<char>::empty());
    (true, open)
}

} // verus!
