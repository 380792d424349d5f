//! What holds of the analyzer as a whole.

use crate::comment::{
    has_block_comments, is_skipped, law_no_blocks_without_block_comments, skips,
};
use crate::language::{
    extension, is_excluded, is_generated_name, language_of, language_of_extension, looks_binary,
    scannable, BINARY_PROBE_BYTES,
};
use crate::line::{
    after_line, call_text, calls, calls_at, close_loops, declared_name, ends_shell_loop, enter_function,
    entropy, hotspot_of, hotspots_of, open_loop, rule_applies, snippet, track_braces, track_python,
    track_shell, HotspotView, MatchView, ScanView, MAX_ENTROPY, SNIPPET_CHARS,
};
use crate::report::{
    all_ranked, at_least, by_rank, entropy_sum, first_n, full_report,
    hotspot_count, report_of, rounded_mean, scan_prefix, scan_result, total_entropy_sum,
    FileReportView, RankedView,
};
use crate::rules::{RuleView, VulnerabilityType};
use crate::sort::{
    is_descending, is_ordered, law_sort_is_descending, law_sort_is_permutation,
    law_sort_is_stable, law_sort_keeps_order_of_equals, law_sort_keeps_sum,
    law_sort_keeps_threshold, law_sorted_keys_ignore_order, law_sum_ignores_order, ranks_at,
    sum_by,
};
use crate::text::{
    contains_text, count_char, indent_width, is_identifier_char, is_white_space, lower, occurs_at,
    text_lines, trim, trim_end, trim_start,
};
use vstd::prelude::*;

verus! {

/// No single entropy exceeds the maximum.
pub proof fn law_entropy_is_clamped(base: nat, depth: nat)
    ensures
        entropy(base, depth) <= MAX_ENTROPY,
{
}

/// Outside every loop a match contributes its base score.
pub proof fn law_entropy_outside_loops(base: nat)
    requires
        base <= MAX_ENTROPY,
    ensures
        entropy(base, 0) == base,
{
    assert(base * (2 + 0 * 0) == 2 * base) by (nonlinear_arith);
}

/// Below the maximum, the entropy is the base score times `1 + depth^2 / 2`.
pub proof fn law_entropy_multiplier(base: nat, depth: nat)
    requires
        base * (2 + depth * depth) <= 2 * MAX_ENTROPY,
        base % 2 == 0,
    ensures
        2 * entropy(base, depth) == base * (2 + depth * depth),
{
    let half = base / 2;
    let weight = 2 + depth * depth;
    assert(base * weight == 2 * (half * weight)) by (nonlinear_arith)
        requires
            base == 2 * half,
    ;
}

/// A match inside a loop counts for more than its base score.
pub proof fn law_nesting_raises_entropy(base: nat, depth: nat)
    requires
        0 < base < MAX_ENTROPY,
        depth > 0,
    ensures
        entropy(base, depth) > base,
{
    assert(base * (2 + depth * depth) >= 3 * base) by (nonlinear_arith)
        requires
            depth >= 1,
    ;
}

/// Deeper nesting never lowers the entropy.
pub proof fn law_entropy_grows_with_depth(base: nat, shallow: nat, deep: nat)
    requires
        shallow <= deep,
    ensures
        entropy(base, shallow) <= entropy(base, deep),
{
    assert(base * (2 + shallow * shallow) <= base * (2 + deep * deep)) by (nonlinear_arith)
        requires
            shallow <= deep,
    ;
}

/// Each hotspot of a line comes from a rule that matched and applies. It names the
/// current function and the line, quotes at most `SNIPPET_CHARS` characters, and its
/// entropy does not exceed the maximum.
pub proof fn law_hotspots_of_a_line(
    s: ScanView,
    line: Seq<char>,
    line_no: nat,
    rules: Seq<RuleView>,
    m: MatchView,
)
    ensures
        hotspots_of(s, line, line_no, rules, m).len() <= rules.len(),
        forall|i: int|
            0 <= i < hotspots_of(s, line, line_no, rules, m).len() ==> {
                let h = #[trigger] hotspots_of(s, line, line_no, rules, m)[i];
                &&& h.function_name == s.current_function
                &&& h.line_number == line_no
                &&& h.source_snippet == snippet(line)
                &&& h.source_snippet.len() <= SNIPPET_CHARS
                &&& h.entropy_score <= MAX_ENTROPY
                &&& rule_applies(s, line, h.vulnerability_type, m.declares_function)
                &&& exists|k: int|
                    0 <= k < rules.len() && m.rule_hits[k] && (#[trigger] rules[k]).vulnerability
                        == h.vulnerability_type && rules[k].description == h.description
                        && h.entropy_score == entropy(rules[k].base_score, s.loop_depth as nat)
            },
    decreases rules.len(),
{
    if rules.len() > 0 {
        let init = rules.drop_last();
        law_hotspots_of_a_line(s, line, line_no, init, m);
        let before = hotspots_of(s, line, line_no, init, m);
        let all = hotspots_of(s, line, line_no, rules, m);
        assert forall|i: int| 0 <= i < all.len() implies ({
            let h = #[trigger] all[i];
            &&& h.function_name == s.current_function
            &&& h.line_number == line_no
            &&& h.source_snippet == snippet(line)
            &&& h.source_snippet.len() <= SNIPPET_CHARS
            &&& h.entropy_score <= MAX_ENTROPY
            &&& rule_applies(s, line, h.vulnerability_type, m.declares_function)
            &&& exists|k: int|
                0 <= k < rules.len() && m.rule_hits[k] && (#[trigger] rules[k]).vulnerability
                    == h.vulnerability_type && rules[k].description == h.description
                    && h.entropy_score == entropy(rules[k].base_score, s.loop_depth as nat)
        }) by {
            if i < before.len() {
                let h = before[i];
                assert(all[i] == h);
                let k = choose|k: int|
                    0 <= k < init.len() && m.rule_hits[k] && (#[trigger] init[k]).vulnerability
                        == h.vulnerability_type && init[k].description == h.description
                        && h.entropy_score == entropy(init[k].base_score, s.loop_depth as nat);
                assert(rules[k] == init[k]);
            } else {
                assert(rules[rules.len() - 1] == rules.last());
            }
        }
    }
}

/// Every rule that matches a line and applies to it yields its hotspot.
pub proof fn law_matching_rules_are_reported(
    s: ScanView,
    line: Seq<char>,
    line_no: nat,
    rules: Seq<RuleView>,
    m: MatchView,
    k: int,
)
    requires
        0 <= k < rules.len(),
        m.rule_hits[k],
        rule_applies(s, line, rules[k].vulnerability, m.declares_function),
    ensures
        hotspots_of(s, line, line_no, rules, m).contains(
            hotspot_of(s, line, line_no, rules[k]),
        ),
    decreases rules.len(),
{
    let h = hotspot_of(s, line, line_no, rules[k]);
    let all = hotspots_of(s, line, line_no, rules, m);
    let before = hotspots_of(s, line, line_no, rules.drop_last(), m);
    if k < rules.len() - 1 {
        law_matching_rules_are_reported(s, line, line_no, rules.drop_last(), m, k);
        let j = choose|j: int| 0 <= j < before.len() && before[j] == h;
        assert(all[j] == h);
    } else {
        assert(all[all.len() - 1] == h);
    }
}

/// A line that declares a function is never flagged as a recursive call; nor is a line
/// outside every function, nor one that does not call the current function.
pub proof fn law_only_self_calls_are_recursive(
    s: ScanView,
    line: Seq<char>,
    line_no: nat,
    rules: Seq<RuleView>,
    m: MatchView,
)
    requires
        m.declares_function || s.current_function == "<module>"@ || !calls(
            line,
            s.current_function,
        ),
    ensures
        forall|i: int|
            0 <= i < hotspots_of(s, line, line_no, rules, m).len() ==> (#[trigger] hotspots_of(
                s,
                line,
                line_no,
                rules,
                m,
            )[i]).vulnerability_type != VulnerabilityType::RecursiveCall,
{
    law_hotspots_of_a_line(s, line, line_no, rules, m);
}

/// A line on which the name of the current function only ends longer names is never
/// flagged as a recursive call.
pub proof fn law_longer_names_are_other_functions(
    s: ScanView,
    line: Seq<char>,
    line_no: nat,
    rules: Seq<RuleView>,
    m: MatchView,
)
    requires
        forall|i: int| #[trigger]
            occurs_at(line, i, call_text(s.current_function)) ==> i > 0 && is_identifier_char(
                line[i - 1],
            ),
    ensures
        forall|i: int|
            0 <= i < hotspots_of(s, line, line_no, rules, m).len() ==> (#[trigger] hotspots_of(
                s,
                line,
                line_no,
                rules,
                m,
            )[i]).vulnerability_type != VulnerabilityType::RecursiveCall,
{
    assert(!calls(line, s.current_function));
    law_only_self_calls_are_recursive(s, line, line_no, rules, m);
}

/// A call on a receiver is a call of the function, whatever the receiver: it ends with a
/// character that no identifier holds, such as the dot of `self.` and `this.`.
pub proof fn law_receivers_do_not_matter(
    line: Seq<char>,
    receiver: Seq<char>,
    function: Seq<char>,
)
    requires
        receiver == "self."@ || receiver == "this."@ || (receiver.len() > 0
            && !is_identifier_char(receiver.last())),
        contains_text(line, receiver + call_text(function)),
    ensures
        calls(line, function),
{
    reveal_strlit("self.");
    reveal_strlit("this.");
    assert("self."@.last() == '.' && "this."@.last() == '.');
    let call = call_text(function);
    let i = choose|i: int| occurs_at(line, i, receiver + call);
    let at = i + receiver.len();
    let piece = line.subrange(i, at + call.len());
    assert(piece == receiver + call);
    assert(line.subrange(at, at + call.len()) =~= piece.skip(receiver.len() as int));
    assert((receiver + call).skip(receiver.len() as int) =~= call);
    assert(line[at - 1] == piece[receiver.len() - 1]);
    assert(calls_at(line, at, function));
}

/// Whether the loop depth counts the open loops.
pub open spec fn depth_counts_loops(s: ScanView) -> bool {
    s.loop_depth == s.loop_levels.len()
}

/// The loop depth counts the open loops after every line, if it did so before. A line opens
/// at most one loop.
pub proof fn law_depth_counts_loops(
    s: ScanView,
    line: Seq<char>,
    language: Seq<char>,
    m: MatchView,
)
    requires
        depth_counts_loops(s),
        s.loop_levels.len() < usize::MAX,
    ensures
        depth_counts_loops(after_line(s, line, language, m)),
        after_line(s, line, language, m).loop_depth <= s.loop_depth + 1,
{
    let entered = enter_function(s, m.declaration);
    assert(depth_counts_loops(entered));
    let indent = indent_width(line) as usize;
    lemma_close_loops(ScanView { nesting_depth: indent / 4, ..entered }, indent, true);
    let left = entered.nesting_depth.saturating_sub(count_char(line, '}') as usize);
    lemma_close_loops(entered, left, false);
}

proof fn lemma_close_loops(s: ScanView, floor: usize, inclusive: bool)
    ensures
        depth_counts_loops(s) ==> depth_counts_loops(close_loops(s, floor, inclusive)),
        close_loops(s, floor, inclusive).loop_levels.len() <= s.loop_levels.len(),
        close_loops(s, floor, inclusive).loop_levels.is_prefix_of(s.loop_levels),
        close_loops(s, floor, inclusive).loop_depth <= s.loop_depth,
        close_loops(s, floor, inclusive).nesting_depth == s.nesting_depth,
        close_loops(s, floor, inclusive).current_function == s.current_function,
        ({
            let levels = close_loops(s, floor, inclusive).loop_levels;
            levels.len() > 0 ==> levels.last() <= floor && (inclusive ==> levels.last() < floor)
        }),
    decreases s.loop_levels.len(),
{
    if s.loop_levels.len() > 0 && (s.loop_levels.last() > floor || (inclusive
        && s.loop_levels.last() == floor)) {
        let t = ScanView {
            loop_depth: s.loop_depth.saturating_sub(1),
            loop_levels: s.loop_levels.drop_last(),
            ..s
        };
        lemma_close_loops(t, floor, inclusive);
        let levels = close_loops(t, floor, inclusive).loop_levels;
        assert(levels =~= s.loop_levels.take(levels.len() as int)) by {
            assert(levels =~= t.loop_levels.take(levels.len() as int));
        }
    } else {
        assert(s.loop_levels =~= s.loop_levels.take(s.loop_levels.len() as int));
    }
}

/// Whether the open loops are nested in each other and in the open blocks.
pub open spec fn well_nested(s: ScanView) -> bool {
    &&& forall|i: int, j: int|
        0 <= i <= j < s.loop_levels.len() ==> s.loop_levels[i] <= s.loop_levels[j]
    &&& s.loop_levels.len() > 0 ==> s.loop_levels.last() <= s.nesting_depth
}

/// In a language with braces the open loops stay nested.
pub proof fn law_braces_keep_nesting(s: ScanView, line: Seq<char>, is_loop: bool)
    requires
        well_nested(s),
    ensures
        well_nested(track_braces(s, line, is_loop)),
{
    let opens = count_char(line, '{') as usize;
    let closes = count_char(line, '}') as usize;
    let left = s.nesting_depth.saturating_sub(closes);
    lemma_close_loops(s, left, false);
    let closed = if closes > 0 {
        close_loops(s, left, false)
    } else {
        s
    };
    assert(closed.loop_levels.is_prefix_of(s.loop_levels));
    assert forall|i: int, j: int|
        0 <= i <= j < closed.loop_levels.len() implies closed.loop_levels[i]
        <= closed.loop_levels[j] by {
        assert(closed.loop_levels[i] == s.loop_levels[i]);
        assert(closed.loop_levels[j] == s.loop_levels[j]);
    }
    let depth = left.saturating_add(opens);
    let r = open_loop(ScanView { nesting_depth: depth, ..closed }, depth, is_loop);
    assert(closed.loop_levels.len() > 0 ==> closed.loop_levels.last() <= depth);
    assert forall|i: int, j: int| 0 <= i <= j < r.loop_levels.len() implies r.loop_levels[i]
        <= r.loop_levels[j] by {
        let n = closed.loop_levels.len();
        if is_loop && j == n && i < n {
            assert(r.loop_levels[i] == closed.loop_levels[i]);
            assert(closed.loop_levels[i] <= closed.loop_levels[n - 1]);
        }
    }
}

/// The block of a loop undoes its head: after the line that closes it, the nesting is
/// what it was before.
pub proof fn law_loop_block_is_closed(s: ScanView, head: Seq<char>, tail: Seq<char>)
    requires
        well_nested(s),
        s.nesting_depth < usize::MAX,
        s.loop_depth < usize::MAX,
        count_char(head, '{') == 1,
        count_char(head, '}') == 0,
        count_char(tail, '{') == 0,
        count_char(tail, '}') == 1,
    ensures
        track_braces(s, head, true).loop_depth == s.loop_depth + 1,
        track_braces(track_braces(s, head, true), tail, false) == s,
{
    let opened = track_braces(s, head, true);
    let inside = (s.nesting_depth + 1) as usize;
    assert(opened.loop_levels == s.loop_levels.push(inside));
    assert(opened.loop_levels.drop_last() =~= s.loop_levels);
    let popped = ScanView {
        loop_depth: opened.loop_depth.saturating_sub(1),
        loop_levels: opened.loop_levels.drop_last(),
        ..opened
    };
    assert(close_loops(opened, s.nesting_depth, false) == close_loops(
        popped,
        s.nesting_depth,
        false,
    ));
    assert(close_loops(popped, s.nesting_depth, false) == popped);
    assert(track_braces(opened, tail, false) =~= s);
}

/// Loops that follow each other do not add to the depth: the second of two is as deep as
/// the first.
pub proof fn law_sequential_loops_do_not_inflate(
    s: ScanView,
    first: Seq<char>,
    tail: Seq<char>,
    second: Seq<char>,
)
    requires
        well_nested(s),
        s.nesting_depth < usize::MAX,
        s.loop_depth < usize::MAX,
        count_char(first, '{') == 1,
        count_char(first, '}') == 0,
        count_char(tail, '{') == 0,
        count_char(tail, '}') == 1,
        count_char(second, '{') == 1,
        count_char(second, '}') == 0,
    ensures
        track_braces(
            track_braces(track_braces(s, first, true), tail, false),
            second,
            true,
        ) == track_braces(s, first, true),
{
    law_loop_block_is_closed(s, first, tail);
}

/// Nested loops add up, and each closing line takes one level away.
pub proof fn law_nested_loops_add_up(
    s: ScanView,
    outer: Seq<char>,
    inner: Seq<char>,
    tail: Seq<char>,
)
    requires
        well_nested(s),
        s.nesting_depth < usize::MAX - 1,
        s.loop_depth < usize::MAX - 1,
        count_char(outer, '{') == 1,
        count_char(outer, '}') == 0,
        count_char(inner, '{') == 1,
        count_char(inner, '}') == 0,
        count_char(tail, '{') == 0,
        count_char(tail, '}') == 1,
    ensures
        ({
            let one = track_braces(s, outer, true);
            let two = track_braces(one, inner, true);
            &&& one.loop_depth == s.loop_depth + 1
            &&& two.loop_depth == s.loop_depth + 2
            &&& track_braces(two, tail, false) == one
            &&& track_braces(track_braces(two, tail, false), tail, false) == s
        }),
{
    law_loop_block_is_closed(s, outer, tail);
    law_braces_keep_nesting(s, outer, true);
    law_loop_block_is_closed(track_braces(s, outer, true), inner, tail);
}

/// In a language with braces, no loop outlives its block: after a line that closes blocks
/// and is not the head of a loop, every open loop lies within the blocks still open.
pub proof fn law_no_loop_outlives_its_block(s: ScanView, line: Seq<char>)
    requires
        well_nested(s),
        0 < count_char(line, '}') <= usize::MAX,
    ensures
        ({
            let left = s.nesting_depth.saturating_sub(count_char(line, '}') as usize);
            forall|i: int|
                0 <= i < track_braces(s, line, false).loop_levels.len() ==> #[trigger] track_braces(
                    s,
                    line,
                    false,
                ).loop_levels[i] <= left
        }),
{
    let left = s.nesting_depth.saturating_sub(count_char(line, '}') as usize);
    let r = track_braces(s, line, false);
    lemma_close_loops(s, left, false);
    assert(r.loop_levels == close_loops(s, left, false).loop_levels);
    assert forall|i: int| 0 <= i < r.loop_levels.len() implies #[trigger] r.loop_levels[i]
        <= left by {
        let last = r.loop_levels.len() - 1;
        assert(r.loop_levels[i] == s.loop_levels[i] && r.loop_levels[last] == s.loop_levels[last]);
    }
}

/// Whether a line holds Python code: it is neither blank nor a comment.
pub open spec fn is_python_code(line: Seq<char>) -> bool {
    trim(line).len() > 0 && trim(line)[0] != '#'
}

/// In Python a line lies inside the loops that stay open around it: it is indented further
/// than the head of the innermost of them. The head of a loop opens its own inside those.
pub proof fn law_dedent_closes_python_loops(s: ScanView, line: Seq<char>, is_loop: bool)
    requires
        is_python_code(line),
    ensures
        ({
            let levels = track_python(s, line, is_loop).loop_levels;
            let around = if is_loop {
                levels.drop_last()
            } else {
                levels
            };
            &&& around.is_prefix_of(s.loop_levels)
            &&& around.len() > 0 ==> around.last() < indent_width(line) as usize
            &&& is_loop ==> levels.len() > 0 && levels.last() == indent_width(line) as usize
        }),
{
    let indent = indent_width(line) as usize;
    let placed = ScanView { nesting_depth: indent / 4, ..s };
    lemma_close_loops(placed, indent, true);
    let closed = close_loops(placed, indent, true).loop_levels;
    assert(closed.push(indent).drop_last() =~= closed);
}

/// Python loops that follow each other at one indentation do not add to the depth: the
/// second is as deep as the first, also behind a line of the body of the first.
pub proof fn law_sequential_python_loops_do_not_inflate(
    s: ScanView,
    first: Seq<char>,
    body: Seq<char>,
    second: Seq<char>,
)
    requires
        s.loop_depth < usize::MAX,
        is_python_code(first),
        is_python_code(second),
        indent_width(first) as usize == indent_width(second) as usize,
        indent_width(body) as usize > indent_width(first) as usize,
    ensures
        ({
            let one = track_python(s, first, true);
            &&& one.loop_depth <= s.loop_depth + 1
            &&& track_python(one, second, true) == one
            &&& track_python(track_python(one, body, false), second, true) == one
        }),
{
    let indent = indent_width(first) as usize;
    let placed = ScanView { nesting_depth: indent / 4, ..s };
    let closed = close_loops(placed, indent, true);
    lemma_close_loops(placed, indent, true);
    let one = track_python(s, first, true);
    assert(one.loop_levels.drop_last() =~= closed.loop_levels);
    let popped = ScanView {
        loop_depth: one.loop_depth.saturating_sub(1),
        loop_levels: one.loop_levels.drop_last(),
        ..one
    };
    assert(close_loops(one, indent, true) == close_loops(popped, indent, true));
    assert(popped =~= closed);
    assert(close_loops(closed, indent, true) == closed);
    let inner = track_python(one, body, false);
    assert(inner.loop_levels == one.loop_levels && inner.loop_depth == one.loop_depth);
    assert(ScanView { nesting_depth: indent / 4, ..inner } =~= one);
    assert(ScanView { nesting_depth: indent / 4, ..one } =~= one);
}

/// A Python loop inside the body of another adds one to its depth.
pub proof fn law_nested_python_loops_add_up(s: ScanView, outer: Seq<char>, inner: Seq<char>)
    requires
        s.loop_depth < usize::MAX - 1,
        is_python_code(outer),
        is_python_code(inner),
        indent_width(inner) as usize > indent_width(outer) as usize,
    ensures
        ({
            let one = track_python(s, outer, true);
            track_python(one, inner, true).loop_depth == one.loop_depth + 1
        }),
{
    let indent = indent_width(outer) as usize;
    lemma_close_loops(ScanView { nesting_depth: indent / 4, ..s }, indent, true);
}

/// Whether each open loop is indented further than the one around it.
pub open spec fn steps_in(s: ScanView) -> bool {
    forall|i: int, j: int|
        0 <= i < j < s.loop_levels.len() ==> s.loop_levels[i] < s.loop_levels[j]
}

/// In Python each open loop stays indented further than the one around it.
pub proof fn law_python_keeps_nesting(s: ScanView, line: Seq<char>, is_loop: bool)
    requires
        steps_in(s),
        is_python_code(line),
    ensures
        steps_in(track_python(s, line, is_loop)),
{
    let indent = indent_width(line) as usize;
    let placed = ScanView { nesting_depth: indent / 4, ..s };
    lemma_close_loops(placed, indent, true);
    let closed = close_loops(placed, indent, true).loop_levels;
    let r = track_python(s, line, is_loop).loop_levels;
    let n = closed.len();
    assert forall|i: int| 0 <= i < n implies closed[i] == s.loop_levels[i] by {
        assert(closed == s.loop_levels.take(n as int));
    }
    assert forall|i: int, j: int| 0 <= i < j < r.len() implies r[i] < r[j] by {
        if j == n {
            assert(closed[n - 1] < indent);
            assert(closed[i] <= closed[n - 1]);
        }
    }
}

/// In a shell script `done` undoes the head of a loop.
pub proof fn law_done_closes_shell_loop(s: ScanView, head: Seq<char>, tail: Seq<char>)
    requires
        s.loop_depth < usize::MAX,
        !ends_shell_loop(trim(head)),
        ends_shell_loop(trim(tail)),
    ensures
        track_shell(s, head, true).loop_depth == s.loop_depth + 1,
        track_shell(track_shell(s, head, true), tail, false) == s,
{
    let opened = track_shell(s, head, true);
    assert(opened.loop_levels.drop_last() =~= s.loop_levels);
    assert(track_shell(opened, tail, false) =~= s);
}

/// A declaration starts its function outside every loop: only the declaring line itself
/// can open one.
pub proof fn law_declaration_resets_loops(
    s: ScanView,
    line: Seq<char>,
    language: Seq<char>,
    m: MatchView,
)
    requires
        declared_name(m.declaration) is Some,
    ensures
        after_line(s, line, language, m).current_function == declared_name(m.declaration)->0,
        after_line(s, line, language, m).loop_depth <= 1,
        !m.is_loop ==> after_line(s, line, language, m).loop_depth == 0,
        !m.is_loop ==> after_line(s, line, language, m).loop_levels.len() == 0,
{
}

/// Minified assets, lock files and files with an excluded extension have no language.
pub proof fn law_excluded_files_have_no_language(name: Seq<char>)
    requires
        is_generated_name(name) || is_excluded(lower(extension(name))),
    ensures
        language_of(name) is None,
{
}

/// The case of an extension does not matter.
pub proof fn law_extension_case_is_ignored(a: Seq<char>, b: Seq<char>)
    requires
        !is_generated_name(a),
        !is_generated_name(b),
        lower(extension(a)) == lower(extension(b)),
        is_excluded(lower(extension(a))) || language_of_extension(lower(extension(a))) is Some,
    ensures
        language_of(a) == language_of(b),
{
}

/// The first bytes settle whether a file looks binary.
pub proof fn law_head_settles_binary(content: Seq<u8>, n: int)
    requires
        BINARY_PROBE_BYTES <= n <= content.len(),
    ensures
        looks_binary(content.take(n)) == looks_binary(content),
{
    if looks_binary(content) {
        let i = choose|i: int|
            0 <= i < content.len() && i < BINARY_PROBE_BYTES && #[trigger] content[i] == 0;
        assert(content.take(n)[i] == 0);
    }
    if looks_binary(content.take(n)) {
        let i = choose|i: int|
            0 <= i < content.take(n).len() && i < BINARY_PROBE_BYTES && #[trigger] content.take(
                n,
            )[i] == 0;
        assert(content[i] == 0);
    }
}

/// A file has a report exactly where it is worth reading and its lines are UTF-8.
pub proof fn law_reports_of_scannable_files(
    file_path: Seq<char>,
    file_name: Seq<char>,
    content: Seq<u8>,
    min_score: nat,
)
    requires
        content.len() <= u64::MAX,
    ensures
        scan_result(file_path, file_name, content, min_score) is Some == (scannable(
            Some(content.len() as u64),
            Some(content),
            Some(file_name),
        ) && text_lines(content) is Some),
{
}

/// Raising the minimum score only leaves hotspots out.
pub proof fn law_min_score_only_filters(
    lines: Seq<Seq<char>>,
    matches: Seq<MatchView>,
    rules: Seq<RuleView>,
    language: Seq<char>,
    low: nat,
    high: nat,
    n: nat,
)
    requires
        low <= high,
    ensures
        ({
            let p = scan_prefix(lines, matches, rules, language, low, n);
            let q = scan_prefix(lines, matches, rules, language, high, n);
            &&& q.state == p.state
            &&& q.lines_scanned == p.lines_scanned
            &&& q.hotspots == at_least(p.hotspots, high)
        }),
    decreases n,
{
    if n == 0 {
        assert(at_least(Seq::empty(), high) =~= Seq::<HotspotView>::empty()) by {
            reveal(Seq::filter);
        }
    } else {
        law_min_score_only_filters(lines, matches, rules, language, low, high, (n - 1) as nat);
        let p = scan_prefix(lines, matches, rules, language, low, (n - 1) as nat);
        let line = lines[n - 1];
        if !skips(lines, language, (n - 1) as nat) {
            let state = after_line(p.state, line, language, matches[n - 1]);
            let found = hotspots_of(state, line, n, rules, matches[n - 1]);
            lemma_at_least_concat(p.hotspots, at_least(found, low), high);
            lemma_at_least_twice(found, low, high);
        }
    }
}

/// The report with a higher minimum lists the first hotspots of the one with a lower
/// minimum: those that reach it. Nothing else about the file changes.
pub proof fn law_higher_minimum_leaves_a_prefix(
    file_path: Seq<char>,
    lines: Seq<Seq<char>>,
    matches: Seq<MatchView>,
    rules: Seq<RuleView>,
    language: Seq<char>,
    low: nat,
    high: nat,
)
    requires
        low <= high,
    ensures
        ({
            let all = report_of(file_path, lines, matches, rules, language, low);
            let few = report_of(file_path, lines, matches, rules, language, high);
            &&& few.hotspots.is_prefix_of(all.hotspots)
            &&& few.hotspots == at_least(all.hotspots, high)
            &&& few.total_entropy == entropy_sum(few.hotspots)
            &&& few.total_entropy <= all.total_entropy
            &&& few.file_path == all.file_path
            &&& few.language == all.language
            &&& few.lines_scanned == all.lines_scanned
        }),
{
    let n = lines.len();
    let key = |h: HotspotView| h.entropy_score;
    let found = scan_prefix(lines, matches, rules, language, low, n).hotspots;
    law_min_score_only_filters(lines, matches, rules, language, low, high, n);
    law_sort_keeps_threshold(found, key, high);
    assert((|h: HotspotView| key(h) >= high) =~= (|h: HotspotView| h.entropy_score >= high));
    let all = report_of(file_path, lines, matches, rules, language, low);
    let few = report_of(file_path, lines, matches, rules, language, high);
    lemma_prefix_sum(all.hotspots, few.hotspots.len() as int, key);
    assert(all.hotspots.take(few.hotspots.len() as int) == few.hotspots);
}

proof fn lemma_prefix_sum<T>(s: Seq<T>, n: int, f: spec_fn(T) -> nat)
    requires
        0 <= n <= s.len(),
    ensures
        sum_by(s.take(n), f) <= sum_by(s, f),
    decreases s.len(),
{
    if n == s.len() {
        assert(s.take(n) == s);
    } else {
        lemma_prefix_sum(s.drop_last(), n, f);
        assert(s.drop_last().take(n) == s.take(n));
    }
}

proof fn lemma_at_least_concat(a: Seq<HotspotView>, b: Seq<HotspotView>, min: nat)
    ensures
        at_least(a + b, min) == at_least(a, min) + at_least(b, min),
    decreases b.len(),
{
    reveal(Seq::filter);
    if b.len() == 0 {
        assert(a + b == a);
        assert(at_least(a, min) + at_least(b, min) == at_least(a, min));
    } else {
        assert((a + b).drop_last() == a + b.drop_last());
        lemma_at_least_concat(a, b.drop_last(), min);
    }
}

proof fn lemma_at_least_twice(s: Seq<HotspotView>, low: nat, high: nat)
    requires
        low <= high,
    ensures
        at_least(at_least(s, low), high) == at_least(s, high),
    decreases s.len(),
{
    reveal(Seq::filter);
    if s.len() > 0 {
        lemma_at_least_twice(s.drop_last(), low, high);
        let init = at_least(s.drop_last(), low);
        assert(init.push(s.last()).drop_last() == init);
    }
}

/// What holds of every hotspot that a scan has found: it reaches the minimum score, does
/// not exceed the maximum, and its line is one of the lines scanned, counted from 1.
pub open spec fn is_proper(h: HotspotView, min_score: nat, lines: nat) -> bool {
    &&& min_score <= h.entropy_score <= MAX_ENTROPY
    &&& 1 <= h.line_number <= lines
}

/// The indices below `n` of the lines that are not skipped.
pub open spec fn scanned_lines(lines: Seq<Seq<char>>, language: Seq<char>, n: nat) -> Seq<int> {
    Seq::new(n, |i: int| i).filter(|i: int| !skips(lines, language, i as nat))
}

/// A scan counts the lines that are not skipped and finds only proper hotspots.
pub proof fn law_scan_finds_proper_hotspots(
    lines: Seq<Seq<char>>,
    matches: Seq<MatchView>,
    rules: Seq<RuleView>,
    language: Seq<char>,
    min_score: nat,
    n: nat,
)
    requires
        n <= lines.len(),
    ensures
        ({
            let p = scan_prefix(lines, matches, rules, language, min_score, n);
            &&& p.lines_scanned == scanned_lines(lines, language, n).len()
            &&& p.hotspots.len() <= rules.len() * p.lines_scanned
            &&& forall|i: int|
                0 <= i < p.hotspots.len() ==> is_proper(#[trigger] p.hotspots[i], min_score, n)
        }),
    decreases n,
{
    reveal(Seq::filter);
    let p = scan_prefix(lines, matches, rules, language, min_score, n);
    if n > 0 {
        let k = (n - 1) as nat;
        law_scan_finds_proper_hotspots(lines, matches, rules, language, min_score, k);
        let q = scan_prefix(lines, matches, rules, language, min_score, k);
        let line = lines[n - 1];
        let indices = Seq::new(n, |i: int| i);
        assert(indices.drop_last() == Seq::new(k, |i: int| i));
        assert(indices.last() == k);
        if !skips(lines, language, k) {
            let state = after_line(q.state, line, language, matches[n - 1]);
            let found = hotspots_of(state, line, n, rules, matches[n - 1]);
            let kept = at_least(found, min_score);
            law_hotspots_of_a_line(state, line, n, rules, matches[n - 1]);
            lemma_at_least_members(found, min_score);
            assert(rules.len() * (q.lines_scanned + 1) == rules.len() * q.lines_scanned
                + rules.len()) by (nonlinear_arith);
            assert forall|i: int| 0 <= i < p.hotspots.len() implies is_proper(
                #[trigger] p.hotspots[i],
                min_score,
                n,
            ) by {
                if i < q.hotspots.len() {
                    assert(p.hotspots[i] == q.hotspots[i]);
                } else {
                    let j = i - q.hotspots.len();
                    assert(p.hotspots[i] == kept[j]);
                    let o = choose|o: int| 0 <= o < found.len() && found[o] == kept[j];
                    assert(found[o].line_number == n);
                }
            }
        }
    }
}

proof fn lemma_at_least_members(s: Seq<HotspotView>, min: nat)
    ensures
        at_least(s, min).len() <= s.len(),
        forall|i: int|
            #![trigger at_least(s, min)[i]]
            0 <= i < at_least(s, min).len() ==> at_least(s, min)[i].entropy_score >= min
                && s.contains(at_least(s, min)[i]),
    decreases s.len(),
{
    reveal(Seq::filter);
    if s.len() > 0 {
        let init = s.drop_last();
        lemma_at_least_members(init, min);
        let r = at_least(s, min);
        let q = at_least(init, min);
        assert forall|i: int| #![trigger r[i]] 0 <= i < r.len() implies r[i].entropy_score >= min
            && s.contains(r[i]) by {
            if i < q.len() {
                assert(r[i] == q[i]);
                let j = choose|j: int| 0 <= j < init.len() && init[j] == q[i];
                assert(s[j] == r[i]);
            } else {
                assert(r[i] == s[s.len() - 1]);
            }
        }
    }
}

/// A scan finds its hotspots in the order of the lines.
pub proof fn law_scan_goes_in_line_order(
    lines: Seq<Seq<char>>,
    matches: Seq<MatchView>,
    rules: Seq<RuleView>,
    language: Seq<char>,
    min_score: nat,
    n: nat,
)
    requires
        n <= lines.len(),
    ensures
        ({
            let found = scan_prefix(lines, matches, rules, language, min_score, n).hotspots;
            forall|i: int, j: int|
                0 <= i <= j < found.len() ==> found[i].line_number <= found[j].line_number
        }),
    decreases n,
{
    if n > 0 {
        let k = (n - 1) as nat;
        let p = scan_prefix(lines, matches, rules, language, min_score, n);
        let q = scan_prefix(lines, matches, rules, language, min_score, k);
        let line = lines[n - 1];
        law_scan_goes_in_line_order(lines, matches, rules, language, min_score, k);
        law_scan_finds_proper_hotspots(lines, matches, rules, language, min_score, k);
        if !skips(lines, language, k) {
            let state = after_line(q.state, line, language, matches[n - 1]);
            let found = hotspots_of(state, line, n, rules, matches[n - 1]);
            let kept = at_least(found, min_score);
            law_hotspots_of_a_line(state, line, n, rules, matches[n - 1]);
            lemma_at_least_members(found, min_score);
            assert forall|j: int| q.hotspots.len() <= j < p.hotspots.len() implies (
            #[trigger] p.hotspots[j]).line_number == n by {
                let o = choose|o: int|
                    0 <= o < found.len() && found[o] == kept[j - q.hotspots.len()];
                assert(found[o].line_number == n);
            }
            assert forall|i: int, j: int|
                0 <= i <= j < p.hotspots.len() implies p.hotspots[i].line_number
                <= p.hotspots[j].line_number by {
                if i < q.hotspots.len() {
                    assert(p.hotspots[i] == q.hotspots[i]);
                    assert(is_proper(q.hotspots[i], min_score, k));
                }
                if j < q.hotspots.len() {
                    assert(p.hotspots[j] == q.hotspots[j]);
                }
            }
        }
    }
}

/// In every state of a scan the loop depth counts the open loops, and at most one loop has
/// been opened per line.
pub proof fn law_scan_depth_counts_loops(
    lines: Seq<Seq<char>>,
    matches: Seq<MatchView>,
    rules: Seq<RuleView>,
    language: Seq<char>,
    min_score: nat,
    n: nat,
)
    requires
        n <= lines.len() <= usize::MAX,
    ensures
        ({
            let s = scan_prefix(lines, matches, rules, language, min_score, n).state;
            depth_counts_loops(s) && s.loop_depth <= n
        }),
    decreases n,
{
    if n > 0 {
        let k = (n - 1) as nat;
        law_scan_depth_counts_loops(lines, matches, rules, language, min_score, k);
        let s = scan_prefix(lines, matches, rules, language, min_score, k).state;
        let line = lines[n - 1];
        let m = matches[n - 1];
        if !skips(lines, language, k) {
            law_depth_counts_loops(s, line, language, m);
        }
    }
}

/// In every state of a scan of a language with braces, the open loops are nested in each
/// other and in the open blocks.
pub proof fn law_scan_keeps_nesting(
    lines: Seq<Seq<char>>,
    matches: Seq<MatchView>,
    rules: Seq<RuleView>,
    language: Seq<char>,
    min_score: nat,
    n: nat,
)
    requires
        n <= lines.len(),
        language != "Python"@,
        language != "Shell"@,
    ensures
        well_nested(scan_prefix(lines, matches, rules, language, min_score, n).state),
    decreases n,
{
    if n > 0 {
        let k = (n - 1) as nat;
        law_scan_keeps_nesting(lines, matches, rules, language, min_score, k);
        let s = scan_prefix(lines, matches, rules, language, min_score, k).state;
        let m = matches[n - 1];
        if !skips(lines, language, k) {
            let entered = enter_function(s, m.declaration);
            assert(well_nested(entered));
            law_braces_keep_nesting(entered, lines[n - 1], m.is_loop);
        }
    }
}

/// In every state of a scan of Python, each open loop is indented further than the one
/// around it.
pub proof fn law_scan_keeps_python_nesting(
    lines: Seq<Seq<char>>,
    matches: Seq<MatchView>,
    rules: Seq<RuleView>,
    min_score: nat,
    n: nat,
)
    requires
        n <= lines.len(),
    ensures
        steps_in(scan_prefix(lines, matches, rules, "Python"@, min_score, n).state),
    decreases n,
{
    if n > 0 {
        let k = (n - 1) as nat;
        law_scan_keeps_python_nesting(lines, matches, rules, min_score, k);
        let s = scan_prefix(lines, matches, rules, "Python"@, min_score, k).state;
        let line = lines[n - 1];
        let m = matches[n - 1];
        if !skips(lines, "Python"@, k) {
            let entered = enter_function(s, m.declaration);
            assert(steps_in(entered));
            lemma_python_has_no_blocks();
            law_no_blocks_without_block_comments(lines, "Python"@, k);
            lemma_scanned_python_is_code(line);
            law_python_keeps_nesting(entered, line, m.is_loop);
        }
    }
}

proof fn lemma_python_has_no_blocks()
    ensures
        !has_block_comments("Python"@),
{
    reveal_strlit("Python");
    reveal_strlit("Go");
    reveal_strlit("JavaScript");
    reveal_strlit("TypeScript");
    reveal_strlit("Rust");
    reveal_strlit("C");
    reveal_strlit("C++");
    reveal_strlit("PHP");
    reveal_strlit("Java");
    reveal_strlit("C#");
    reveal_strlit("Kotlin");
    reveal_strlit("Scala");
    assert("Python"@.len() == 6);
    assert("Python"@[0] == 'P' && "Kotlin"@[0] == 'K');
}

proof fn lemma_scanned_python_is_code(line: Seq<char>)
    requires
        !is_skipped(line, "Python"@, 0),
    ensures
        is_python_code(line),
{
    lemma_python_has_no_blocks();
    lemma_trim_start_first(line);
    lemma_trim_end_first(trim_start(line));
}

proof fn lemma_trim_start_first(s: Seq<char>)
    ensures
        trim_start(s).len() > 0 ==> !is_white_space(trim_start(s)[0]),
    decreases s.len(),
{
    if s.len() > 0 && is_white_space(s[0]) {
        lemma_trim_start_first(s.drop_first());
    }
}

proof fn lemma_trim_end_first(s: Seq<char>)
    requires
        s.len() > 0,
        !is_white_space(s[0]),
    ensures
        trim_end(s).len() > 0,
        trim_end(s)[0] == s[0],
    decreases s.len(),
{
    if is_white_space(s.last()) {
        lemma_trim_end_first(s.drop_last());
    }
}

/// A skipped line leaves no trace.
pub proof fn law_skipped_lines_leave_no_trace(
    lines: Seq<Seq<char>>,
    matches: Seq<MatchView>,
    rules: Seq<RuleView>,
    language: Seq<char>,
    min_score: nat,
    n: nat,
)
    requires
        n < lines.len(),
        skips(lines, language, n),
    ensures
        scan_prefix(lines, matches, rules, language, min_score, n + 1) == scan_prefix(
            lines,
            matches,
            rules,
            language,
            min_score,
            n,
        ),
{
}

/// The report of a file lists exactly the hotspots found, highest entropy first and, among
/// equals, in the order of the lines. Its total is the sum of their entropy, whatever their
/// order, and its mean does not exceed the maximum.
pub proof fn law_file_report(
    file_path: Seq<char>,
    lines: Seq<Seq<char>>,
    matches: Seq<MatchView>,
    rules: Seq<RuleView>,
    language: Seq<char>,
    min_score: nat,
)
    ensures
        ({
            let found = scan_prefix(
                lines,
                matches,
                rules,
                language,
                min_score,
                lines.len(),
            ).hotspots;
            let r = report_of(file_path, lines, matches, rules, language, min_score);
            &&& r.hotspots.to_multiset() == found.to_multiset()
            &&& is_ordered(
                r.hotspots,
                |h: HotspotView| h.entropy_score,
                |h: HotspotView| h.line_number,
            )
            &&& r.total_entropy == entropy_sum(found)
            &&& r.total_entropy <= MAX_ENTROPY * r.hotspots.len()
            &&& r.mean_hotspot_entropy <= MAX_ENTROPY
            &&& forall|i: int|
                0 <= i < r.hotspots.len() ==> is_proper(
                    #[trigger] r.hotspots[i],
                    min_score,
                    lines.len(),
                )
        }),
{
    let key = |h: HotspotView| h.entropy_score;
    let n = lines.len();
    let found = scan_prefix(lines, matches, rules, language, min_score, n).hotspots;
    let r = report_of(file_path, lines, matches, rules, language, min_score);
    law_scan_finds_proper_hotspots(lines, matches, rules, language, min_score, n);
    law_scan_goes_in_line_order(lines, matches, rules, language, min_score, n);
    law_sort_keeps_order_of_equals(found, key, |h: HotspotView| h.line_number);
    law_sort_is_permutation(found, key);
    law_sort_keeps_sum(found, key, key);
    broadcast use vstd::seq_lib::group_to_multiset_ensures;

    assert forall|i: int| 0 <= i < r.hotspots.len() implies is_proper(
        #[trigger] r.hotspots[i],
        min_score,
        n,
    ) by {
        assert(r.hotspots.to_multiset().count(r.hotspots[i]) > 0) by {
            assert(r.hotspots.contains(r.hotspots[i]));
        }
        assert(found.contains(r.hotspots[i]));
    }
    lemma_sum_bounded(r.hotspots, key, MAX_ENTROPY as nat);
    if r.hotspots.len() > 0 {
        law_mean_is_nearest(r.total_entropy, r.hotspots.len(), MAX_ENTROPY as nat);
    }
}

proof fn lemma_sum_bounded<T>(s: Seq<T>, f: spec_fn(T) -> nat, bound: nat)
    requires
        forall|i: int| 0 <= i < s.len() ==> f(#[trigger] s[i]) <= bound,
    ensures
        sum_by(s, f) <= bound * s.len(),
    decreases s.len(),
{
    if s.len() > 0 {
        let init = s.drop_last();
        assert forall|i: int| 0 <= i < init.len() implies f(#[trigger] init[i]) <= bound by {
            assert(init[i] == s[i]);
        }
        lemma_sum_bounded(init, f, bound);
        assert(f(s.last()) <= bound) by {
            assert(s[s.len() - 1] == s.last());
        }
        assert(bound * s.len() == bound * init.len() + bound) by (nonlinear_arith)
            requires
                s.len() == init.len() + 1,
        ;
    } else {
        assert(bound * s.len() == 0) by (nonlinear_arith)
            requires
                s.len() == 0,
        ;
    }
}

/// The mean differs from the quotient by at most half a hundredth of a point, and does
/// not exceed a bound that holds of every value.
pub proof fn law_mean_is_nearest(total: nat, n: nat, bound: nat)
    requires
        n > 0,
        total <= bound * n,
    ensures
        2 * total - n <= 2 * n * rounded_mean(total, n) <= 2 * total + n,
        rounded_mean(total, n) <= bound,
{
    let a = 2 * total + n;
    let b = 2 * n;
    let q = a / b;
    assert(q * b <= a && a < q * b + b) by (nonlinear_arith)
        requires
            b > 0,
            a >= 0,
            q == a / b,
    ;
    assert(q * b == 2 * n * q) by (nonlinear_arith)
        requires
            b == 2 * n,
    ;
    assert(q <= bound) by (nonlinear_arith)
        requires
            q * b <= a,
            a == 2 * total + n,
            b == 2 * n,
            total <= bound * n,
            n > 0,
    ;
}

/// The files of one total entropy, in their order.
pub open spec fn of_entropy(files: Seq<FileReportView>, k: nat) -> Seq<FileReportView> {
    files.filter(|f: FileReportView| f.total_entropy == k)
}

/// The report of a scan lists exactly the files given, highest entropy first and, among
/// equals, in the order given; its counts are those of the files it lists.
pub proof fn law_full_report(
    files: Seq<FileReportView>,
    directory: Seq<char>,
    version: Seq<char>,
    time: Seq<char>,
)
    ensures
        ({
            let r = full_report(files, directory, version, time);
            &&& r.file_reports.to_multiset() == files.to_multiset()
            &&& is_descending(r.file_reports, |f: FileReportView| f.total_entropy)
            &&& forall|k: nat| #[trigger]
                of_entropy(r.file_reports, k) == of_entropy(files, k)
            &&& r.files_analyzed == r.file_reports.len()
            &&& r.total_hotspots == hotspot_count(r.file_reports)
            &&& r.global_entropy == total_entropy_sum(r.file_reports)
        }),
{
    let key = |f: FileReportView| f.total_entropy;
    law_sort_is_descending(files, key);
    law_sort_is_permutation(files, key);
    law_sort_keeps_sum(files, key, key);
    law_sort_keeps_sum(files, key, |f: FileReportView| f.hotspots.len());
    let r = full_report(files, directory, version, time);
    assert forall|k: nat| #[trigger] of_entropy(r.file_reports, k) == of_entropy(files, k) by {
        law_sort_is_stable(files, key, k);
        assert(ranks_at(key, k) =~= (|f: FileReportView| f.total_entropy == k));
    }
}

/// The order in which the files are given decides only which of two files of equal entropy
/// comes first: the counts, and the entropy along the list, do not depend on it.
pub proof fn law_full_report_ignores_order(
    files: Seq<FileReportView>,
    others: Seq<FileReportView>,
    directory: Seq<char>,
    version: Seq<char>,
    time: Seq<char>,
)
    requires
        files.to_multiset() == others.to_multiset(),
    ensures
        ({
            let a = full_report(files, directory, version, time);
            let b = full_report(others, directory, version, time);
            let total = |f: FileReportView| f.total_entropy;
            &&& a.files_analyzed == b.files_analyzed
            &&& a.total_hotspots == b.total_hotspots
            &&& a.global_entropy == b.global_entropy
            &&& a.file_reports.map_values(total) == b.file_reports.map_values(total)
            &&& a.file_reports.to_multiset() == b.file_reports.to_multiset()
        }),
{
    broadcast use vstd::seq_lib::group_to_multiset_ensures;

    let total = |f: FileReportView| f.total_entropy;
    assert(files.len() == files.to_multiset().len());
    assert(others.len() == others.to_multiset().len());
    law_sum_ignores_order(files, others, total);
    law_sum_ignores_order(files, others, |f: FileReportView| f.hotspots.len());
    law_sorted_keys_ignore_order(files, others, total);
    law_sort_is_permutation(files, total);
    law_sort_is_permutation(others, total);
}

/// No hotspot that is left out of the top ranks above one that is in it.
pub proof fn law_top_hotspots_are_highest(files: Seq<FileReportView>, n: nat, i: int, j: int)
    requires
        0 <= i < first_n(by_rank(all_ranked(files)), n).len(),
        first_n(by_rank(all_ranked(files)), n).len() <= j < by_rank(all_ranked(files)).len(),
    ensures
        first_n(by_rank(all_ranked(files)), n)[i].entropy_score >= by_rank(
            all_ranked(files),
        )[j].entropy_score,
{
    law_sort_is_descending(all_ranked(files), |r: RankedView| r.entropy_score);
}

/// The names of the kinds of risk tell them apart.
pub proof fn law_names_are_distinct(a: VulnerabilityType, b: VulnerabilityType)
    requires
        a.name() == b.name(),
    ensures
        a == b,
{
    reveal_strlit("DeepNesting");
    reveal_strlit("RecursiveCall");
    reveal_strlit("HotAllocation");
    reveal_strlit("BlockingIO");
    reveal_strlit("CognitiveBranch");
    reveal_strlit("SyncContention");
    assert("DeepNesting"@.len() == 11 && "BlockingIO"@.len() == 10);
    assert("CognitiveBranch"@.len() == 15 && "SyncContention"@.len() == 14);
    assert("RecursiveCall"@.len() == 13 && "RecursiveCall"@[0] == 'R');
    assert("HotAllocation"@.len() == 13 && "HotAllocation"@[0] == 'H');
}

} // verus!
