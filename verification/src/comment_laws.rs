//! What counts as a comment, by the marks that a line holds.

use crate::comment::{block_depth, depth_after, is_skipped, skips};
use crate::line_laws::law_trim_start_ends_at_the_text;
use crate::text::is_white_space;
use vstd::prelude::*;

verus! {

proof fn lemma_labels()
    ensures
        "PHP"@ != "Python"@,
        "PHP"@ != "Shell"@,
        "PHP"@ != "Ruby"@,
{
    reveal_strlit("PHP");
    reveal_strlit("Python");
    reveal_strlit("Shell");
    reveal_strlit("Ruby");
    assert("PHP"@.len() == 3 && "Python"@.len() == 6 && "Shell"@.len() == 5 && "Ruby"@.len() == 4);
}

/// Outside comments, the first characters of a line decide in every language. A blank line is
/// skipped. A `//` begins a comment but in Python, shell scripts and Ruby. A `#` begins one
/// where there are no block comments, and in PHP unless a bracket follows. A `/*` begins a
/// block comment in the languages that have one, and elsewhere a comment of one line, again
/// but in Python, shell scripts and Ruby. A line that begins with none of these is code and
/// is not skipped. `lead` is the white space before the text.
pub proof fn law_first_characters_decide(lead: Seq<char>, text: Seq<char>, language: Seq<char>)
    requires
        forall|i: int| 0 <= i < lead.len() ==> is_white_space(#[trigger] lead[i]),
        text.len() > 0 ==> !is_white_space(text[0]),
    ensures
        ({
            let line = lead + text;
            let php = language == "PHP"@;
            let blocks = {
                ||| language == "Go"@
                ||| language == "JavaScript"@
                ||| language == "TypeScript"@
                ||| language == "Rust"@
                ||| language == "C"@
                ||| language == "C++"@
                ||| language == "PHP"@
                ||| language == "Java"@
                ||| language == "C#"@
                ||| language == "Kotlin"@
                ||| language == "Scala"@
            };
            let slashes = language != "Python"@ && language != "Shell"@ && language != "Ruby"@;
            let second = |c: char| text.len() > 1 && text[1] == c;
            let hash = text.len() > 0 && text[0] == '#' && (!blocks || (php && !second('[')));
            let double = text.len() > 0 && text[0] == '/' && second('/') && slashes;
            let open = text.len() > 0 && text[0] == '/' && second('*');
            &&& text.len() == 0 ==> is_skipped(line, language, 0) && depth_after(line, language, 0)
                == 0
            &&& hash || double || (open && slashes && !blocks) ==> is_skipped(line, language, 0)
                && depth_after(line, language, 0) == 0
            &&& open && blocks ==> is_skipped(line, language, 0) == is_skipped(
                text.skip(2),
                language,
                1,
            ) && depth_after(line, language, 0) == depth_after(text.skip(2), language, 1)
            &&& text.len() > 0 && !hash && !double && !(open && (slashes || blocks))
                ==> !is_skipped(line, language, 0) && depth_after(line, language, 0) == 0
        }),
{
    law_trim_start_ends_at_the_text(lead, text);
    lemma_labels();
}

/// Inside block comments a line runs on to the next `*/`, which closes the innermost one. In
/// Rust, Kotlin and Scala a `/*` opens one more. What follows is read with the comments that
/// are open there; a line that ends inside a comment is skipped and leaves it open.
pub proof fn law_block_comments_run_to_their_end(
    c: char,
    rest: Seq<char>,
    language: Seq<char>,
    depth: usize,
)
    requires
        0 < depth < usize::MAX,
    ensures
        ({
            let nests = language == "Rust"@ || language == "Kotlin"@ || language == "Scala"@;
            let s = seq![c] + rest;
            let next = |d: char| rest.len() > 0 && rest[0] == d;
            let closes = c == '*' && next('/');
            let opens = nests && c == '/' && next('*');
            &&& is_skipped(Seq::empty(), language, depth)
            &&& depth_after(Seq::empty(), language, depth) == depth
            &&& closes ==> is_skipped(s, language, depth) == is_skipped(
                rest.skip(1),
                language,
                (depth - 1) as usize,
            ) && depth_after(s, language, depth) == depth_after(
                rest.skip(1),
                language,
                (depth - 1) as usize,
            )
            &&& opens ==> is_skipped(s, language, depth) == is_skipped(
                rest.skip(1),
                language,
                (depth + 1) as usize,
            ) && depth_after(s, language, depth) == depth_after(
                rest.skip(1),
                language,
                (depth + 1) as usize,
            )
            &&& !closes && !opens ==> is_skipped(s, language, depth) == is_skipped(
                rest,
                language,
                depth,
            ) && depth_after(s, language, depth) == depth_after(rest, language, depth)
        }),
{
    let s = seq![c] + rest;
    assert(s.drop_first() =~= rest);
    assert(rest.len() > 0 ==> s[1] == rest[0] && s.skip(2) =~= rest.skip(1));
}

/// A line is skipped where it holds nothing but white space and comments behind the lines
/// before it; the first line of a file also where it begins with `#!` and not with `#![`. No
/// comment is open at the beginning of a file, and each line passes on those it leaves open.
pub proof fn law_lines_pass_comments_on(lines: Seq<Seq<char>>, language: Seq<char>, n: nat)
    ensures
        skips(lines, language, n) <==> {
            ||| is_skipped(lines[n as int], language, block_depth(lines, language, n))
            ||| n == 0 && lines[0].len() >= 2 && lines[0][0] == '#' && lines[0][1] == '!' && !(
            lines[0].len() > 2 && lines[0][2] == '[')
        },
        block_depth(lines, language, 0) == 0,
        block_depth(lines, language, n + 1) == depth_after(
            lines[n as int],
            language,
            block_depth(lines, language, n),
        ),
{
}

} // verus!
