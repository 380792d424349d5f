//! What blank lines and comments do to a report: nothing but move the lines behind them.

use crate::comment::{
    block_depth, has_block_comments, has_hash_comments, is_hashbang,
    law_no_blocks_without_block_comments, skips,
};
use crate::language::{language_of, looks_binary, MAX_FILE_SIZE_BYTES};
use crate::laws::{is_proper, law_file_report, law_scan_finds_proper_hotspots};
use crate::line::{after_line, hotspot_of, hotspots_of, HotspotView, MatchView, ScanView};
use crate::report::{
    at_least, by_entropy, entropy_sum, matches_of_lines, report_of, scan_prefix, scan_result,
};
use crate::rules::{rule_table_for, RuleView};
use crate::sort::{lemma_sort_map, sum_by};
use crate::text::{text_lines, trim_start};
use vstd::prelude::*;

verus! {

/// Those of the first `n` elements that are marked as kept.
pub open spec fn kept<T>(s: Seq<T>, keep: Seq<bool>, n: nat) -> Seq<T>
    decreases n,
{
    if n == 0 {
        Seq::empty()
    } else {
        let before = kept(s, keep, (n - 1) as nat);
        if keep[n - 1] {
            before.push(s[n - 1])
        } else {
            before
        }
    }
}

/// How many of the first `n` lines are not kept.
pub open spec fn inserted(keep: Seq<bool>, n: nat) -> nat
    decreases n,
{
    if n == 0 {
        0
    } else {
        inserted(keep, (n - 1) as nat) + if keep[n - 1] {
            0nat
        } else {
            1nat
        }
    }
}

/// The number, among the first `n` lines, of the kept line that is the `k`-th of its kind.
/// Both are counted from 1.
pub open spec fn place(keep: Seq<bool>, n: nat, k: nat) -> nat
    decreases n,
{
    if n == 0 {
        k
    } else if keep[n - 1] && n - inserted(keep, n) == k {
        n
    } else {
        place(keep, (n - 1) as nat, k)
    }
}

/// Moves a hotspot from where its line stands among the kept lines to where it stands
/// among the first `n`.
pub open spec fn moved(keep: Seq<bool>, n: nat) -> spec_fn(HotspotView) -> HotspotView {
    |h: HotspotView| HotspotView { line_number: place(keep, n, h.line_number), ..h }
}

/// Whether nothing is inserted before a hashbang that is a comment only as the first line.
pub open spec fn hashbang_stays_first(
    lines: Seq<Seq<char>>,
    keep: Seq<bool>,
    language: Seq<char>,
) -> bool {
    let without = kept(lines, keep, lines.len());
    without.len() > 0 && is_hashbang(without[0]) ==> keep[0] || has_hash_comments(language)
}

/// Whether only comments and blank lines are inserted: every line that is not kept is
/// skipped, a block comment that is inserted is closed before the next kept line, so that
/// none is open there but those of the kept lines' own, and a hashbang stays first.
pub open spec fn only_comments_inserted(
    lines: Seq<Seq<char>>,
    keep: Seq<bool>,
    language: Seq<char>,
) -> bool {
    let without = kept(lines, keep, lines.len());
    &&& keep.len() == lines.len()
    &&& hashbang_stays_first(lines, keep, language)
    &&& forall|i: nat|
        i < lines.len() ==> if keep[i as int] {
            #[trigger] block_depth(lines, language, i) == block_depth(
                without,
                language,
                (i - inserted(keep, i)) as nat,
            )
        } else {
            skips(lines, language, i)
        }
}

/// Whether the line with index `i` is skipped and neither opens nor closes a block comment.
pub open spec fn is_silent(lines: Seq<Seq<char>>, language: Seq<char>, i: nat) -> bool {
    &&& skips(lines, language, i)
    &&& block_depth(lines, language, i + 1) == block_depth(lines, language, i)
}

/// Lines that are skipped and neither open nor close a block comment can be inserted
/// anywhere.
pub proof fn law_silent_lines_fit_anywhere(
    lines: Seq<Seq<char>>,
    keep: Seq<bool>,
    language: Seq<char>,
)
    requires
        keep.len() == lines.len(),
        hashbang_stays_first(lines, keep, language),
        forall|i: nat|
            i < lines.len() && !keep[i as int] ==> #[trigger] is_silent(lines, language, i),
    ensures
        only_comments_inserted(lines, keep, language),
{
    let without = kept(lines, keep, lines.len());
    assert forall|i: nat| i < lines.len() implies if keep[i as int] {
        #[trigger] block_depth(lines, language, i) == block_depth(
            without,
            language,
            (i - inserted(keep, i)) as nat,
        )
    } else {
        skips(lines, language, i)
    } by {
        assert(!keep[i as int] ==> is_silent(lines, language, i));
        lemma_silent_lines(lines, keep, language, i);
    }
}

/// In a language without block comments, every line that is skipped can be inserted
/// anywhere.
pub proof fn law_comments_fit_anywhere_without_blocks(
    lines: Seq<Seq<char>>,
    keep: Seq<bool>,
    language: Seq<char>,
)
    requires
        keep.len() == lines.len(),
        !has_block_comments(language),
        forall|i: nat|
            i < lines.len() && !keep[i as int] ==> #[trigger] skips(lines, language, i),
    ensures
        only_comments_inserted(lines, keep, language),
{
    assert forall|i: nat| i < lines.len() && !keep[i as int] implies #[trigger] is_silent(
        lines,
        language,
        i,
    ) by {
        assert(skips(lines, language, i));
        law_no_blocks_without_block_comments(lines, language, i);
        law_no_blocks_without_block_comments(lines, language, i + 1);
    }
    law_silent_lines_fit_anywhere(lines, keep, language);
}

proof fn lemma_silent_lines(lines: Seq<Seq<char>>, keep: Seq<bool>, language: Seq<char>, n: nat)
    requires
        n <= lines.len(),
        keep.len() == lines.len(),
        forall|i: nat|
            i < lines.len() && !keep[i as int] ==> #[trigger] is_silent(lines, language, i),
    ensures
        block_depth(lines, language, n) == block_depth(
            kept(lines, keep, lines.len()),
            language,
            (n - inserted(keep, n)) as nat,
        ),
    decreases n,
{
    if n > 0 {
        let i = (n - 1) as nat;
        lemma_silent_lines(lines, keep, language, i);
        lemma_kept_len(lines, keep, i);
        if keep[i as int] {
            lemma_kept_index(lines, keep, i, lines.len());
        } else {
            assert(is_silent(lines, language, i));
        }
    }
}

/// A kept line is skipped exactly where it is without the inserted ones.
proof fn lemma_kept_skips(lines: Seq<Seq<char>>, keep: Seq<bool>, language: Seq<char>, i: nat)
    requires
        i < lines.len(),
        keep[i as int],
        only_comments_inserted(lines, keep, language),
    ensures
        inserted(keep, i) <= i,
        skips(lines, language, i) == skips(
            kept(lines, keep, lines.len()),
            language,
            (i - inserted(keep, i)) as nat,
        ),
{
    let without = kept(lines, keep, lines.len());
    let j = (i - inserted(keep, i)) as nat;
    lemma_kept_len(lines, keep, i);
    lemma_kept_index(lines, keep, i, lines.len());
    assert(block_depth(lines, language, i) == block_depth(without, language, j));
    if i > 0 && j == 0 && is_hashbang(without[0]) {
        lemma_first_kept(keep, i);
        assert(has_hash_comments(language));
        assert(trim_start(lines[i as int]) == lines[i as int]);
    }
}

proof fn lemma_first_kept(keep: Seq<bool>, i: nat)
    requires
        inserted(keep, i) == i,
        i > 0,
    ensures
        !keep[0],
    decreases i,
{
    lemma_inserted_bound(keep, (i - 1) as nat);
    if i > 1 {
        lemma_first_kept(keep, (i - 1) as nat);
    }
}

proof fn lemma_inserted_bound(keep: Seq<bool>, n: nat)
    ensures
        inserted(keep, n) <= n,
    decreases n,
{
    if n > 0 {
        lemma_inserted_bound(keep, (n - 1) as nat);
    }
}

/// The number of a kept line is raised by the number of lines inserted before it.
pub proof fn law_lines_move_by_the_inserted(keep: Seq<bool>, n: nat, k: nat)
    requires
        n <= keep.len(),
        1 <= k <= n - inserted(keep, n),
    ensures
        1 <= place(keep, n, k) <= n,
        keep[place(keep, n, k) - 1],
        place(keep, n, k) == k + inserted(keep, place(keep, n, k)),
    decreases n,
{
    if !(keep[n - 1] && n - inserted(keep, n) == k) {
        law_lines_move_by_the_inserted(keep, (n - 1) as nat, k);
    }
}

proof fn lemma_kept_len<T>(s: Seq<T>, keep: Seq<bool>, n: nat)
    ensures
        kept(s, keep, n).len() == n - inserted(keep, n),
    decreases n,
{
    if n > 0 {
        lemma_kept_len(s, keep, (n - 1) as nat);
    }
}

/// A kept element stands behind those kept before it.
proof fn lemma_kept_index<T>(s: Seq<T>, keep: Seq<bool>, i: nat, n: nat)
    requires
        i < n,
        keep[i as int],
    ensures
        i - inserted(keep, i) < kept(s, keep, n).len(),
        kept(s, keep, n)[i - inserted(keep, i)] == s[i as int],
    decreases n,
{
    lemma_kept_len(s, keep, i);
    lemma_kept_len(s, keep, (n - 1) as nat);
    if i < n - 1 {
        lemma_kept_index(s, keep, i, (n - 1) as nat);
    }
}

proof fn lemma_hotspots_moved(
    s: ScanView,
    line: Seq<char>,
    from: nat,
    to: nat,
    rules: Seq<RuleView>,
    m: MatchView,
    f: spec_fn(HotspotView) -> HotspotView,
)
    requires
        forall|h: HotspotView| h.line_number == from ==> #[trigger] f(h) == (HotspotView {
            line_number: to,
            ..h
        }),
    ensures
        hotspots_of(s, line, to, rules, m) == hotspots_of(s, line, from, rules, m).map_values(f),
    decreases rules.len(),
{
    let here = hotspots_of(s, line, from, rules, m);
    if rules.len() == 0 {
        assert(here.map_values(f) == Seq::<HotspotView>::empty());
    } else {
        lemma_hotspots_moved(s, line, from, to, rules.drop_last(), m, f);
        let before = hotspots_of(s, line, from, rules.drop_last(), m);
        let h = hotspot_of(s, line, from, rules.last());
        assert(f(h) == hotspot_of(s, line, to, rules.last()));
        assert(before.push(h).map_values(f) == before.map_values(f).push(f(h)));
    }
}

proof fn lemma_at_least_moved(
    s: Seq<HotspotView>,
    min_score: nat,
    f: spec_fn(HotspotView) -> HotspotView,
)
    requires
        forall|h: HotspotView| (#[trigger] f(h)).entropy_score == h.entropy_score,
    ensures
        at_least(s.map_values(f), min_score) == at_least(s, min_score).map_values(f),
    decreases s.len(),
{
    reveal(Seq::filter);
    if s.len() == 0 {
        assert(at_least(s.map_values(f), min_score) == at_least(s, min_score).map_values(f));
    } else {
        lemma_at_least_moved(s.drop_last(), min_score, f);
        assert(s.map_values(f).drop_last() == s.drop_last().map_values(f));
        assert(s.map_values(f).last() == f(s.last()));
        let kept = at_least(s.drop_last(), min_score);
        assert(kept.push(s.last()).map_values(f) == kept.map_values(f).push(f(s.last())));
    }
}

/// Inserting comments changes nothing about a scan but the numbers of the lines behind
/// them: after any line the state, the count of lines and the hotspots are those of the scan
/// of the kept lines, with the hotspots moved to where their lines stand now.
pub proof fn law_inserted_lines_only_move(
    lines: Seq<Seq<char>>,
    matches: Seq<MatchView>,
    keep: Seq<bool>,
    rules: Seq<RuleView>,
    language: Seq<char>,
    min_score: nat,
    n: nat,
)
    requires
        n <= lines.len(),
        matches.len() == lines.len(),
        only_comments_inserted(lines, keep, language),
    ensures
        ({
            let a = kept(lines, keep, lines.len());
            let m = kept(matches, keep, lines.len());
            let k = (n - inserted(keep, n)) as nat;
            let p = scan_prefix(lines, matches, rules, language, min_score, n);
            let q = scan_prefix(a, m, rules, language, min_score, k);
            &&& inserted(keep, n) <= n
            &&& p.state == q.state
            &&& p.lines_scanned == q.lines_scanned
            &&& p.hotspots == q.hotspots.map_values(moved(keep, n))
        }),
    decreases n,
{
    let a = kept(lines, keep, lines.len());
    let m = kept(matches, keep, lines.len());
    let f = moved(keep, n);
    let p = scan_prefix(lines, matches, rules, language, min_score, n);
    if n == 0 {
        assert(p.hotspots == Seq::<HotspotView>::empty().map_values(f));
    } else {
        let i = (n - 1) as nat;
        law_inserted_lines_only_move(lines, matches, keep, rules, language, min_score, i);
        let j = (i - inserted(keep, i)) as nat;
        let g = moved(keep, i);
        let p0 = scan_prefix(lines, matches, rules, language, min_score, i);
        let q0 = scan_prefix(a, m, rules, language, min_score, j);
        lemma_kept_len(lines, keep, lines.len());
        if !keep[i as int] {
            assert(skips(lines, language, i));
            assert(p == p0);
            assert(f =~= g);
        } else {
            let k = (j + 1) as nat;
            lemma_kept_index(lines, keep, i, lines.len());
            lemma_kept_index(matches, keep, i, lines.len());
            assert(a[j as int] == lines[i as int] && m[j as int] == matches[i as int]);
            law_scan_finds_proper_hotspots(a, m, rules, language, min_score, j);
            assert(q0.hotspots.map_values(f) == q0.hotspots.map_values(g));
            lemma_kept_skips(lines, keep, language, i);
            if !skips(lines, language, i) {
                let line = lines[i as int];
                let state = after_line(p0.state, line, language, matches[i as int]);
                let found = hotspots_of(state, line, k, rules, matches[i as int]);
                lemma_hotspots_moved(state, line, k, n, rules, matches[i as int], f);
                lemma_at_least_moved(found, min_score, f);
                let more = at_least(found, min_score);
                assert((q0.hotspots + more).map_values(f) == q0.hotspots.map_values(f)
                    + more.map_values(f));
            }
        }
    }
}

proof fn lemma_sum_map<A, B>(
    s: Seq<A>,
    f: spec_fn(A) -> B,
    on_a: spec_fn(A) -> nat,
    on_b: spec_fn(B) -> nat,
)
    requires
        forall|x: A| #[trigger] on_b(f(x)) == on_a(x),
    ensures
        sum_by(s.map_values(f), on_b) == sum_by(s, on_a),
    decreases s.len(),
{
    if s.len() > 0 {
        lemma_sum_map(s.drop_last(), f, on_a, on_b);
        assert(s.map_values(f).drop_last() == s.drop_last().map_values(f));
        assert(s.map_values(f).last() == f(s.last()));
    }
}

/// Inserting comments into a file changes nothing about its report but the line numbers, each
/// of which is raised by the number of lines inserted before it: language, lines scanned,
/// total, mean and the hotspots in their order stay the same.
pub proof fn law_inserted_lines_only_renumber(
    file_path: Seq<char>,
    lines: Seq<Seq<char>>,
    matches: Seq<MatchView>,
    keep: Seq<bool>,
    rules: Seq<RuleView>,
    language: Seq<char>,
    min_score: nat,
)
    requires
        matches.len() == lines.len(),
        only_comments_inserted(lines, keep, language),
    ensures
        ({
            let n = lines.len();
            let with = report_of(file_path, lines, matches, rules, language, min_score);
            let without = report_of(
                file_path,
                kept(lines, keep, n),
                kept(matches, keep, n),
                rules,
                language,
                min_score,
            );
            &&& with.file_path == without.file_path
            &&& with.language == without.language
            &&& with.lines_scanned == without.lines_scanned
            &&& with.total_entropy == without.total_entropy
            &&& with.mean_hotspot_entropy == without.mean_hotspot_entropy
            &&& with.hotspots == without.hotspots.map_values(moved(keep, n))
            &&& forall|i: int|
                0 <= i < with.hotspots.len() ==> (#[trigger] with.hotspots[i]).line_number
                    == without.hotspots[i].line_number + inserted(
                    keep,
                    with.hotspots[i].line_number,
                )
        }),
{
    let n = lines.len();
    let a = kept(lines, keep, n);
    let m = kept(matches, keep, n);
    let f = moved(keep, n);
    let key = |h: HotspotView| h.entropy_score;
    law_inserted_lines_only_move(lines, matches, keep, rules, language, min_score, n);
    lemma_kept_len(lines, keep, n);
    let found = scan_prefix(a, m, rules, language, min_score, a.len()).hotspots;
    lemma_sort_map(found, f, key, key);
    assert(by_entropy(found.map_values(f)) == by_entropy(found).map_values(f));
    lemma_sum_map(by_entropy(found), f, key, key);
    assert(entropy_sum(by_entropy(found).map_values(f)) == entropy_sum(by_entropy(found)));
    let with = report_of(file_path, lines, matches, rules, language, min_score);
    let without = report_of(file_path, a, m, rules, language, min_score);
    law_file_report(file_path, a, m, rules, language, min_score);
    assert forall|i: int| 0 <= i < with.hotspots.len() implies (
    #[trigger] with.hotspots[i]).line_number == without.hotspots[i].line_number + inserted(
        keep,
        with.hotspots[i].line_number,
    ) by {
        let h = without.hotspots[i];
        assert(is_proper(h, min_score, a.len()));
        law_lines_move_by_the_inserted(keep, n, h.line_number);
    }
}

proof fn lemma_kept_matches(lines: Seq<Seq<char>>, keep: Seq<bool>, language: Seq<char>, n: nat)
    requires
        n <= lines.len(),
    ensures
        kept(matches_of_lines(lines, language), keep, n) == matches_of_lines(
            kept(lines, keep, n),
            language,
        ),
    decreases n,
{
    if n == 0 {
        assert(matches_of_lines(kept(lines, keep, n), language) == Seq::<MatchView>::empty());
    } else {
        lemma_kept_matches(lines, keep, language, (n - 1) as nat);
        let before = kept(lines, keep, (n - 1) as nat);
        let line = lines[n - 1];
        let all = matches_of_lines(lines, language);
        assert(matches_of_lines(before.push(line), language) == matches_of_lines(
            before,
            language,
        ).push(all[n - 1]));
    }
}

/// Two files that differ only by inserted comments have reports that differ only by line numbers,
/// each raised by the number of lines inserted before it.
pub proof fn law_comments_only_renumber(
    file_path: Seq<char>,
    file_name: Seq<char>,
    content: Seq<u8>,
    stripped: Seq<u8>,
    keep: Seq<bool>,
    min_score: nat,
)
    requires
        content.len() <= MAX_FILE_SIZE_BYTES,
        stripped.len() <= MAX_FILE_SIZE_BYTES,
        !looks_binary(content),
        !looks_binary(stripped),
        language_of(file_name) is Some,
        text_lines(content) is Some,
        only_comments_inserted(text_lines(content)->0, keep, language_of(file_name)->0),
        text_lines(stripped) == Some(kept(text_lines(content)->0, keep, keep.len())),
    ensures
        ({
            let with = scan_result(file_path, file_name, content, min_score);
            let without = scan_result(file_path, file_name, stripped, min_score);
            &&& with is Some
            &&& without is Some
            &&& with->0.language == without->0.language
            &&& with->0.lines_scanned == without->0.lines_scanned
            &&& with->0.total_entropy == without->0.total_entropy
            &&& with->0.mean_hotspot_entropy == without->0.mean_hotspot_entropy
            &&& with->0.hotspots == without->0.hotspots.map_values(moved(keep, keep.len()))
            &&& forall|i: int|
                0 <= i < with->0.hotspots.len() ==> (#[trigger] with->0.hotspots[i]).line_number
                    == without->0.hotspots[i].line_number + inserted(
                    keep,
                    with->0.hotspots[i].line_number,
                )
        }),
{
    let lines = text_lines(content)->0;
    let language = language_of(file_name)->0;
    let matches = matches_of_lines(lines, language);
    let rules = rule_table_for(language);
    lemma_kept_matches(lines, keep, language, lines.len());
    law_inserted_lines_only_renumber(file_path, lines, matches, keep, rules, language, min_score);
}

} // verus!
