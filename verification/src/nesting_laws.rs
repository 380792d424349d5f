//! What a line does to the blocks and loops that are open, language by language.

use crate::line::{
    after_line, close_loops, enter_function, track_braces, track_python, track_shell, MatchView,
    ScanView,
};
use crate::text::{count_char, indent_width, trim};
use vstd::prelude::*;

verus! {

/// The occurrences of a character add up over the pieces of a text, and a text of one
/// character holds it once.
pub proof fn law_count_adds_up(a: Seq<char>, b: Seq<char>, c: char, d: char)
    ensures
        count_char(Seq::empty(), c) == 0,
        count_char(seq![d], c) == if d == c {
            1nat
        } else {
            0nat
        },
        count_char(a + b, c) == count_char(a, c) + count_char(b, c),
    decreases b.len(),
{
    assert(seq![d].drop_last() =~= Seq::empty());
    if b.len() == 0 {
        assert(a + b =~= a);
    } else {
        assert((a + b).drop_last() =~= a + b.drop_last());
        law_count_adds_up(a, b.drop_last(), c, d);
    }
}

/// The loops that stay open are the outermost ones, up to the first that lies inside the
/// level: those behind it reach the level, and it does not.
proof fn lemma_closed_loops(s: ScanView, floor: usize, inclusive: bool) -> (kept: int)
    ensures
        0 <= kept <= s.loop_levels.len(),
        close_loops(s, floor, inclusive).loop_levels == s.loop_levels.take(kept),
        close_loops(s, floor, inclusive).loop_depth == if s.loop_depth >= s.loop_levels.len()
            - kept {
            s.loop_depth - (s.loop_levels.len() - kept)
        } else {
            0
        },
        close_loops(s, floor, inclusive).nesting_depth == s.nesting_depth,
        close_loops(s, floor, inclusive).current_function == s.current_function,
        forall|i: int|
            kept <= i < s.loop_levels.len() ==> (#[trigger] s.loop_levels[i]) > floor || (inclusive
                && s.loop_levels[i] == floor),
        kept > 0 ==> s.loop_levels[kept - 1] < floor || (!inclusive && s.loop_levels[kept - 1]
            == floor),
    decreases s.loop_levels.len(),
{
    let n = s.loop_levels.len() as int;
    if n > 0 && (s.loop_levels.last() > floor || (inclusive && s.loop_levels.last() == floor)) {
        let t = ScanView {
            loop_depth: s.loop_depth.saturating_sub(1),
            loop_levels: s.loop_levels.drop_last(),
            ..s
        };
        let kept = lemma_closed_loops(t, floor, inclusive);
        assert(t.loop_levels.take(kept) =~= s.loop_levels.take(kept));
        assert forall|i: int| kept <= i < n implies (#[trigger] s.loop_levels[i]) > floor || (
        inclusive && s.loop_levels[i] == floor) by {
            if i < n - 1 {
                assert(t.loop_levels[i] == s.loop_levels[i]);
            }
        }
        assert(kept > 0 ==> t.loop_levels[kept - 1] == s.loop_levels[kept - 1]);
        kept
    } else {
        assert(s.loop_levels.take(n) =~= s.loop_levels);
        n
    }
}

/// In a language with braces, a line first leaves the blocks that its closing braces end and
/// then enters those that its opening braces begin. It closes exactly the innermost loops
/// whose level lies above the depth that its closing braces leave; a line without a closing
/// brace closes none. The head of a loop then opens one more, at the depth behind the line.
/// Of the loops before the line, the outermost `kept` stay open.
pub proof fn law_braces_close_what_they_end(s: ScanView, line: Seq<char>, is_loop: bool) -> (kept:
    int)
    requires
        count_char(line, '{') <= usize::MAX,
        count_char(line, '}') <= usize::MAX,
    ensures
        ({
            let r = track_braces(s, line, is_loop);
            let left = if s.nesting_depth >= count_char(line, '}') {
                s.nesting_depth - count_char(line, '}')
            } else {
                0
            };
            let closed = s.loop_levels.len() - kept;
            let rest = if s.loop_depth >= closed {
                s.loop_depth - closed
            } else {
                0
            };
            &&& 0 <= kept <= s.loop_levels.len()
            &&& count_char(line, '}') == 0 ==> kept == s.loop_levels.len()
            &&& forall|i: int|
                kept <= i < s.loop_levels.len() ==> (#[trigger] s.loop_levels[i]) > left
            &&& kept > 0 && count_char(line, '}') > 0 ==> s.loop_levels[kept - 1] <= left
            &&& left + count_char(line, '{') <= usize::MAX ==> r.nesting_depth == left + count_char(
                line,
                '{',
            )
            &&& left + count_char(line, '{') > usize::MAX ==> r.nesting_depth == usize::MAX
            &&& !is_loop ==> r.loop_levels == s.loop_levels.take(kept) && r.loop_depth == rest
            &&& is_loop ==> r.loop_levels == s.loop_levels.take(kept).push(r.nesting_depth)
            &&& is_loop && rest < usize::MAX ==> r.loop_depth == rest + 1
            &&& is_loop && rest == usize::MAX ==> r.loop_depth == usize::MAX
            &&& r.current_function == s.current_function
        }),
{
    let closes = count_char(line, '}') as usize;
    let left = s.nesting_depth.saturating_sub(closes);
    if closes > 0 {
        lemma_closed_loops(s, left, false)
    } else {
        assert(s.loop_levels.take(s.loop_levels.len() as int) =~= s.loop_levels);
        s.loop_levels.len() as int
    }
}

/// In a language with braces, a line without a closing brace keeps every open loop open: the
/// depth grows by one at the head of a loop and is the same behind any other line.
pub proof fn law_no_loop_ends_without_a_closing_brace(s: ScanView, line: Seq<char>, is_loop: bool)
    requires
        count_char(line, '{') <= usize::MAX,
        count_char(line, '}') == 0,
        s.loop_depth < usize::MAX,
    ensures
        s.loop_levels.is_prefix_of(track_braces(s, line, is_loop).loop_levels),
        track_braces(s, line, is_loop).loop_levels.len() == s.loop_levels.len() + if is_loop {
            1int
        } else {
            0int
        },
        track_braces(s, line, is_loop).loop_depth == s.loop_depth + if is_loop {
            1int
        } else {
            0int
        },
{
    let kept = law_braces_close_what_they_end(s, line, is_loop);
    assert(s.loop_levels.take(kept) =~= s.loop_levels);
    let r = track_braces(s, line, is_loop).loop_levels;
    assert(s.loop_levels =~= r.take(s.loop_levels.len() as int));
}

/// In Python a line that is neither blank nor a comment closes exactly the innermost loops
/// whose heads are indented as far as it, or further; any other line closes none. The head of
/// a loop then opens one more, at its own indentation. The block depth is a quarter of the
/// indentation. Of the loops before the line, the outermost `kept` stay open.
pub proof fn law_python_closes_by_indentation(s: ScanView, line: Seq<char>, is_loop: bool) -> (kept:
    int)
    requires
        indent_width(line) <= usize::MAX,
    ensures
        ({
            let r = track_python(s, line, is_loop);
            let code = trim(line).len() > 0 && trim(line)[0] != '#';
            let closed = s.loop_levels.len() - kept;
            let rest = if s.loop_depth >= closed {
                s.loop_depth - closed
            } else {
                0
            };
            &&& 0 <= kept <= s.loop_levels.len()
            &&& !code ==> kept == s.loop_levels.len()
            &&& forall|i: int|
                kept <= i < s.loop_levels.len() ==> (#[trigger] s.loop_levels[i]) >= indent_width(
                    line,
                )
            &&& kept > 0 && code ==> s.loop_levels[kept - 1] < indent_width(line)
            &&& r.nesting_depth == indent_width(line) / 4
            &&& !is_loop ==> r.loop_levels == s.loop_levels.take(kept) && r.loop_depth == rest
            &&& is_loop ==> r.loop_levels == s.loop_levels.take(kept).push(
                indent_width(line) as usize,
            )
            &&& is_loop && rest < usize::MAX ==> r.loop_depth == rest + 1
            &&& is_loop && rest == usize::MAX ==> r.loop_depth == usize::MAX
            &&& r.current_function == s.current_function
        }),
{
    let indent = indent_width(line) as usize;
    let placed = ScanView { nesting_depth: indent / 4, ..s };
    if trim(line).len() > 0 && trim(line)[0] != '#' {
        lemma_closed_loops(placed, indent, true)
    } else {
        assert(s.loop_levels.take(s.loop_levels.len() as int) =~= s.loop_levels);
        s.loop_levels.len() as int
    }
}

/// In a shell script the head of a loop opens one, and a line that is `done`, begins with
/// `done ` or ends with `; done` closes the innermost one, where there is one. No other line
/// changes what is open, and none changes the block depth.
pub proof fn law_shell_closes_by_done(s: ScanView, line: Seq<char>, is_loop: bool)
    requires
        s.loop_depth < usize::MAX,
    ensures
        ({
            let r = track_shell(s, line, is_loop);
            let text = trim(line);
            let done = text == "done"@ || "done "@.is_prefix_of(text) || "; done"@.is_suffix_of(
                text,
            );
            &&& r.nesting_depth == s.nesting_depth
            &&& r.current_function == s.current_function
            &&& is_loop && !done ==> r.loop_levels == s.loop_levels.push(s.nesting_depth)
                && r.loop_depth == s.loop_depth + 1
            &&& !is_loop && !done ==> r == s
            &&& is_loop && done ==> r.loop_levels == s.loop_levels && r.loop_depth == s.loop_depth
            &&& !is_loop && done && s.loop_levels.len() > 0 ==> r.loop_levels
                == s.loop_levels.drop_last()
            &&& !is_loop && done && s.loop_levels.len() == 0 ==> r.loop_levels.len() == 0
            &&& !is_loop && done && s.loop_depth > 0 ==> r.loop_depth == s.loop_depth - 1
            &&& !is_loop && done && s.loop_depth == 0 ==> r.loop_depth == 0
        }),
{
    assert(s.loop_levels.push(s.nesting_depth).drop_last() =~= s.loop_levels);
}

/// A declaration makes the name in its first group the current function, or that in its
/// second where the first took no part, and leaves every loop. Any other line keeps the
/// function and the loops.
pub proof fn law_declarations_name_the_function(
    s: ScanView,
    groups: Option<Seq<Option<Seq<char>>>>,
)
    ensures
        ({
            let r = enter_function(s, groups);
            let first = groups is Some && groups->0.len() > 1 && groups->0[1] is Some;
            let second = groups is Some && groups->0.len() > 2 && groups->0[2] is Some;
            &&& first ==> r.current_function == groups->0[1]->0
            &&& !first && second ==> r.current_function == groups->0[2]->0
            &&& first || second ==> r.loop_depth == 0 && r.loop_levels.len() == 0
                && r.nesting_depth == s.nesting_depth
            &&& !first && !second ==> r == s
        }),
{
}

/// A line is first read as a declaration, and then moves the nesting by the indentation in
/// Python, by `done` in a shell script and by braces in every other language.
pub proof fn law_language_decides_the_nesting(
    s: ScanView,
    line: Seq<char>,
    language: Seq<char>,
    m: MatchView,
)
    ensures
        ({
            let entered = enter_function(s, m.declaration);
            let r = after_line(s, line, language, m);
            &&& language == "Python"@ ==> r == track_python(entered, line, m.is_loop)
            &&& language == "Shell"@ ==> r == track_shell(entered, line, m.is_loop)
            &&& language != "Python"@ && language != "Shell"@ ==> r == track_braces(
                entered,
                line,
                m.is_loop,
            )
        }),
{
    reveal_strlit("Python");
    reveal_strlit("Shell");
    assert("Python"@.len() != "Shell"@.len());
}

} // verus!
