//! What the report of a file holds: every match of every line that is scanned, once.

use crate::comment::skips;
use crate::language::language_of;
use crate::laws::law_file_report;
use crate::line::{
    after_line, calls, entropy, hotspot_views, hotspots_of, matches_of, snippet, Hotspot,
    HotspotView, LineMatches, MatchView, ScanState, ScanView,
};
use crate::line_laws::law_hotspots_are_the_matches;
use crate::pattern::{regex_captures, regex_is_match};
use crate::report::{
    at_least, file_views, match_views, matches_of_lines, ranked_views, report_of, rounded_mean,
    scan_prefix, scan_result, FileReport, RankedHotspot, ThermodynamicReport,
};
use crate::rules::{
    func_pattern, loop_pattern, rule_table_for, PatternRule, RuleView, VulnerabilityType,
};
use crate::sort::{law_sort_is_permutation, law_sort_is_stable, ranks_at, sum_by};
use crate::text::{text_lines, texts};
use vstd::prelude::*;

verus! {

/// A scan begins outside every function, block and loop. A skipped line changes nothing; any
/// other line is counted and moves the state on.
pub proof fn law_scan_goes_line_by_line(
    lines: Seq<Seq<char>>,
    matches: Seq<MatchView>,
    rules: Seq<RuleView>,
    language: Seq<char>,
    min_score: nat,
    n: nat,
)
    ensures
        ({
            let first = scan_prefix(lines, matches, rules, language, min_score, 0);
            let p = scan_prefix(lines, matches, rules, language, min_score, n);
            let q = scan_prefix(lines, matches, rules, language, min_score, n + 1);
            let line = lines[n as int];
            &&& first.state == (ScanView {
                current_function: "<module>"@,
                nesting_depth: 0,
                loop_depth: 0,
                loop_levels: Seq::empty(),
            })
            &&& first.lines_scanned == 0
            &&& skips(lines, language, n) ==> q.state == p.state && q.lines_scanned
                == p.lines_scanned && q.hotspots == p.hotspots
            &&& !skips(lines, language, n) ==> q.state == after_line(
                p.state,
                line,
                language,
                matches[n as int],
            ) && q.lines_scanned == p.lines_scanned + 1
        }),
{
}

/// Whether a rule has to report a line.
spec fn is_due(
    lines: Seq<Seq<char>>,
    matches: Seq<MatchView>,
    rules: Seq<RuleView>,
    language: Seq<char>,
    min_score: nat,
    i: int,
    k: int,
) -> bool {
    let s = scan_prefix(lines, matches, rules, language, min_score, (i + 1) as nat).state;
    &&& 0 <= i
    &&& 0 <= k < rules.len()
    &&& !skips(lines, language, i as nat)
    &&& matches[i].rule_hits[k]
    &&& rules[k].vulnerability == VulnerabilityType::RecursiveCall ==> {
        &&& !matches[i].declares_function
        &&& s.current_function != "<module>"@
        &&& calls(lines[i], s.current_function)
    }
    &&& entropy(rules[k].base_score, s.loop_depth as nat) >= min_score
}

/// What a rule reports of a line.
spec fn due_hotspot(
    lines: Seq<Seq<char>>,
    matches: Seq<MatchView>,
    rules: Seq<RuleView>,
    language: Seq<char>,
    min_score: nat,
    pair: (int, int),
) -> HotspotView {
    let s = scan_prefix(lines, matches, rules, language, min_score, (pair.0 + 1) as nat).state;
    HotspotView {
        function_name: s.current_function,
        line_number: (pair.0 + 1) as nat,
        source_snippet: snippet(lines[pair.0]),
        entropy_score: entropy(rules[pair.1].base_score, s.loop_depth as nat),
        vulnerability_type: rules[pair.1].vulnerability,
        description: rules[pair.1].description,
    }
}

/// The hotspots that reach a score are those at the positions `at`, in their order.
proof fn lemma_at_least_positions(s: Seq<HotspotView>, min_score: nat) -> (at: Seq<int>)
    ensures
        at.len() == at_least(s, min_score).len(),
        forall|t: int, u: int| 0 <= t < u < at.len() ==> at[t] < at[u],
        forall|j: int| #[trigger]
            at.contains(j) <==> 0 <= j < s.len() && s[j].entropy_score >= min_score,
        forall|t: int| 0 <= t < at.len() ==> at_least(s, min_score)[t] == s[#[trigger] at[t]],
    decreases s.len(),
{
    reveal(Seq::filter);
    if s.len() == 0 {
        Seq::empty()
    } else {
        let init = s.drop_last();
        let n = (s.len() - 1) as int;
        let before = lemma_at_least_positions(init, min_score);
        assert forall|t: int| 0 <= t < before.len() implies 0 <= #[trigger] before[t] < n by {
            assert(before.contains(before[t]));
        }
        let at = if s.last().entropy_score >= min_score {
            before.push(n)
        } else {
            before
        };
        assert forall|j: int| #[trigger] at.contains(j) <==> 0 <= j < s.len()
            && s[j].entropy_score >= min_score by {
            if at.contains(j) {
                let t = choose|t: int| 0 <= t < at.len() && at[t] == j;
                if t < before.len() {
                    assert(before[t] == j);
                    assert(before.contains(j));
                    assert(init[j] == s[j]);
                }
            }
            if 0 <= j < n {
                assert(init[j] == s[j]);
                if before.contains(j) {
                    let t = choose|t: int| 0 <= t < before.len() && before[t] == j;
                    assert(at[t] == j);
                }
            } else if j == n && s[n].entropy_score >= min_score {
                assert(at[before.len() as int] == n);
            }
        }
        assert forall|t: int| 0 <= t < at.len() implies at_least(s, min_score)[t]
            == s[#[trigger] at[t]] by {
            if t < before.len() {
                assert(before[t] == at[t]);
                assert(init[at[t]] == s[at[t]]);
            }
        }
        at
    }
}

spec fn comes_before(a: (int, int), b: (int, int)) -> bool {
    a.0 < b.0 || (a.0 == b.0 && a.1 < b.1)
}

proof fn lemma_scan_finds_what_is_due(
    lines: Seq<Seq<char>>,
    matches: Seq<MatchView>,
    rules: Seq<RuleView>,
    language: Seq<char>,
    min_score: nat,
    n: nat,
) -> (pairs: Seq<(int, int)>)
    ensures
        pairs.len() == scan_prefix(
            lines,
            matches,
            rules,
            language,
            min_score,
            n,
        ).hotspots.len(),
        forall|t: int, u: int| 0 <= t < u < pairs.len() ==> comes_before(pairs[t], pairs[u]),
        forall|i: int, k: int| #[trigger]
            pairs.contains((i, k)) <==> i < n && is_due(
                lines,
                matches,
                rules,
                language,
                min_score,
                i,
                k,
            ),
        forall|t: int|
            0 <= t < pairs.len() ==> scan_prefix(
                lines,
                matches,
                rules,
                language,
                min_score,
                n,
            ).hotspots[t] == due_hotspot(
                lines,
                matches,
                rules,
                language,
                min_score,
                #[trigger] pairs[t],
            ),
    decreases n,
{
    if n == 0 {
        Seq::empty()
    } else {
        let i0 = (n - 1) as int;
        let before = lemma_scan_finds_what_is_due(
            lines,
            matches,
            rules,
            language,
            min_score,
            i0 as nat,
        );
        let p = scan_prefix(lines, matches, rules, language, min_score, i0 as nat);
        let q = scan_prefix(lines, matches, rules, language, min_score, n);
        if skips(lines, language, i0 as nat) {
            assert forall|i: int, k: int| #[trigger] before.contains((i, k)) <==> i < n && is_due(
                lines,
                matches,
                rules,
                language,
                min_score,
                i,
                k,
            ) by {}
            before
        } else {
            let found = hotspots_of(q.state, lines[i0], n, rules, matches[i0]);
            let chosen = law_hotspots_are_the_matches(
                q.state,
                lines[i0],
                n,
                rules,
                matches[i0],
            );
            let at = lemma_at_least_positions(found, min_score);
            assert forall|t: int| 0 <= t < at.len() implies 0 <= #[trigger] at[t] < found.len()
                && found[at[t]].entropy_score >= min_score by {
                assert(at.contains(at[t]));
            }
            let more = Seq::new(at.len(), |t: int| (i0, chosen[at[t]]));
            let pairs = before + more;
            let len = before.len() as int;
            assert forall|t: int| 0 <= t < len implies 0 <= (#[trigger] before[t]).0 < i0 by {
                assert(before.contains((before[t].0, before[t].1)));
            }
            assert forall|t: int, u: int| 0 <= t < u < pairs.len() implies comes_before(
                pairs[t],
                pairs[u],
            ) by {
                if u < len {
                    assert(comes_before(before[t], before[u]));
                } else if t < len {
                    assert(pairs[t] == before[t]);
                    assert(pairs[u] == more[u - len]);
                } else {
                    assert(pairs[t] == more[t - len] && pairs[u] == more[u - len]);
                    assert(at[t - len] < at[u - len]);
                }
            }
            assert forall|i: int, k: int| #[trigger] pairs.contains((i, k)) <==> i < n && is_due(
                lines,
                matches,
                rules,
                language,
                min_score,
                i,
                k,
            ) by {
                if pairs.contains((i, k)) {
                    let t = choose|t: int| 0 <= t < pairs.len() && pairs[t] == (i, k);
                    if t < len {
                        assert(before[t] == (i, k));
                        assert(before.contains((i, k)));
                    } else {
                        assert(more[t - len] == (i, k));
                        let j = at[t - len];
                        assert(chosen[j] == k);
                        assert(chosen.contains(k));
                        assert(found[j].entropy_score >= min_score);
                    }
                }
                if i < i0 && is_due(lines, matches, rules, language, min_score, i, k) {
                    assert(before.contains((i, k)));
                    let t = choose|t: int| 0 <= t < before.len() && before[t] == (i, k);
                    assert(pairs[t] == (i, k));
                }
                if i == i0 && is_due(lines, matches, rules, language, min_score, i, k) {
                    assert(chosen.contains(k));
                    let j = choose|j: int| 0 <= j < chosen.len() && chosen[j] == k;
                    assert(chosen[j] == k);
                    assert(found[j].entropy_score >= min_score);
                    assert(at.contains(j));
                    let t = choose|t: int| 0 <= t < at.len() && at[t] == j;
                    assert(more[t] == (i, k));
                    assert(pairs[len + t] == (i, k));
                }
            }
            assert forall|t: int| 0 <= t < pairs.len() implies q.hotspots[t] == due_hotspot(
                lines,
                matches,
                rules,
                language,
                min_score,
                #[trigger] pairs[t],
            ) by {
                if t < len {
                    assert(pairs[t] == before[t]);
                    assert(q.hotspots[t] == p.hotspots[t]);
                } else {
                    let j = at[t - len];
                    assert(pairs[t] == more[t - len]);
                    assert(q.hotspots[t] == at_least(found, min_score)[t - len]);
                    assert(q.hotspots[t] == found[j]);
                    assert(chosen[j] == pairs[t].1);
                }
            }
            pairs
        }
    }
}

/// The hotspots of one entropy, in their order.
pub open spec fn with_entropy(s: Seq<HotspotView>, e: nat) -> Seq<HotspotView> {
    s.filter(|h: HotspotView| h.entropy_score == e)
}

/// The report of a file is complete and exact. `pairs` lists, in the order of the lines and
/// then of the rules, every line that is not skipped with every rule that matches it and
/// whose entropy at the loop depth of the line reaches the minimum; a rule about recursion
/// has to find a call of the function that the line stands in, outside a declaration. The
/// report has one hotspot for each of these pairs and no other, highest entropy first and,
/// among equals, in the order of the pairs.
pub proof fn law_report_is_complete(
    file_path: Seq<char>,
    lines: Seq<Seq<char>>,
    matches: Seq<MatchView>,
    rules: Seq<RuleView>,
    language: Seq<char>,
    min_score: nat,
) -> (pairs: Seq<(int, int)>)
    ensures
        ({
            let r = report_of(file_path, lines, matches, rules, language, min_score);
            let state = |i: int|
                scan_prefix(lines, matches, rules, language, min_score, (i + 1) as nat).state;
            let listed = Seq::new(
                pairs.len(),
                |t: int|
                    HotspotView {
                        function_name: state(pairs[t].0).current_function,
                        line_number: (pairs[t].0 + 1) as nat,
                        source_snippet: snippet(lines[pairs[t].0]),
                        entropy_score: entropy(
                            rules[pairs[t].1].base_score,
                            state(pairs[t].0).loop_depth as nat,
                        ),
                        vulnerability_type: rules[pairs[t].1].vulnerability,
                        description: rules[pairs[t].1].description,
                    },
            );
            &&& forall|t: int, u: int|
                0 <= t < u < pairs.len() ==> pairs[t].0 < pairs[u].0 || (pairs[t].0 == pairs[u].0
                    && pairs[t].1 < pairs[u].1)
            &&& forall|i: int, k: int| #[trigger]
                pairs.contains((i, k)) <==> {
                    &&& 0 <= i < lines.len()
                    &&& 0 <= k < rules.len()
                    &&& !skips(lines, language, i as nat)
                    &&& matches[i].rule_hits[k]
                    &&& rules[k].vulnerability == VulnerabilityType::RecursiveCall ==> {
                        &&& !matches[i].declares_function
                        &&& state(i).current_function != "<module>"@
                        &&& calls(lines[i], state(i).current_function)
                    }
                    &&& entropy(rules[k].base_score, state(i).loop_depth as nat) >= min_score
                }
            &&& r.hotspots.len() == pairs.len()
            &&& r.hotspots.to_multiset() == listed.to_multiset()
            &&& forall|i: int, j: int|
                0 <= i <= j < r.hotspots.len() ==> r.hotspots[i].entropy_score
                    >= r.hotspots[j].entropy_score
            &&& forall|e: nat| #[trigger] with_entropy(r.hotspots, e) == with_entropy(listed, e)
        }),
{
    let n = lines.len();
    let pairs = lemma_scan_finds_what_is_due(lines, matches, rules, language, min_score, n);
    let found = scan_prefix(lines, matches, rules, language, min_score, n).hotspots;
    let r = report_of(file_path, lines, matches, rules, language, min_score);
    let key = |h: HotspotView| h.entropy_score;
    let state = |i: int|
        scan_prefix(lines, matches, rules, language, min_score, (i + 1) as nat).state;
    let listed = Seq::new(
        pairs.len(),
        |t: int|
            HotspotView {
                function_name: state(pairs[t].0).current_function,
                line_number: (pairs[t].0 + 1) as nat,
                source_snippet: snippet(lines[pairs[t].0]),
                entropy_score: entropy(
                    rules[pairs[t].1].base_score,
                    state(pairs[t].0).loop_depth as nat,
                ),
                vulnerability_type: rules[pairs[t].1].vulnerability,
                description: rules[pairs[t].1].description,
            },
    );
    assert forall|t: int| 0 <= t < pairs.len() implies found[t] == #[trigger] listed[t] by {
        assert(pairs[t] == pairs[t]);
    }
    assert(found =~= listed);
    law_sort_is_permutation(found, key);
    law_file_report(file_path, lines, matches, rules, language, min_score);
    assert forall|t: int, u: int| 0 <= t < u < pairs.len() implies pairs[t].0 < pairs[u].0 || (
    pairs[t].0 == pairs[u].0 && pairs[t].1 < pairs[u].1) by {
        assert(comes_before(pairs[t], pairs[u]));
    }
    assert forall|e: nat| #[trigger] with_entropy(r.hotspots, e) == with_entropy(listed, e) by {
        law_sort_is_stable(found, key, e);
        assert(ranks_at(key, e) =~= (|h: HotspotView| h.entropy_score == e));
    }
    pairs
}

/// A sum over a list is that over its pieces, and that over one element is its share.
pub proof fn law_sum_adds_up<T>(a: Seq<T>, b: Seq<T>, x: T, f: spec_fn(T) -> nat)
    ensures
        sum_by(Seq::empty(), f) == 0,
        sum_by(seq![x], f) == f(x),
        sum_by(a + b, f) == sum_by(a, f) + sum_by(b, f),
    decreases b.len(),
{
    assert(seq![x].drop_last() =~= Seq::empty());
    if b.len() == 0 {
        assert(a + b =~= a);
    } else {
        assert((a + b).drop_last() =~= a + b.drop_last());
        law_sum_adds_up(a, b.drop_last(), x, f);
    }
}

/// The mean of some values is the whole number nearest to their quotient, the larger one
/// where two are equally near; that of none is 0.
pub proof fn law_mean_is_rounded_half_up(total: nat, n: nat)
    ensures
        n == 0 ==> rounded_mean(total, n) == 0,
        n > 0 ==> 2 * n * rounded_mean(total, n) <= 2 * total + n < 2 * n * rounded_mean(total, n)
            + 2 * n,
{
    if n > 0 {
        let a = (2 * total + n) as int;
        let b = (2 * n) as int;
        let q = a / b;
        assert(b * q <= a && a < b * q + b) by (nonlinear_arith)
            requires
                b > 0,
                q == a / b,
        ;
        assert(b * q == 2 * n * q) by (nonlinear_arith)
            requires
                b == 2 * n,
        ;
    }
}

/// The report of a file carries its path and language, the number of lines that are scanned,
/// the sum of the entropy of the hotspots it lists, and their mean.
pub proof fn law_report_adds_up(
    file_path: Seq<char>,
    lines: Seq<Seq<char>>,
    matches: Seq<MatchView>,
    rules: Seq<RuleView>,
    language: Seq<char>,
    min_score: nat,
)
    ensures
        ({
            let r = report_of(file_path, lines, matches, rules, language, min_score);
            &&& r.file_path == file_path
            &&& r.language == language
            &&& r.lines_scanned == scan_prefix(
                lines,
                matches,
                rules,
                language,
                min_score,
                lines.len(),
            ).lines_scanned
            &&& r.total_entropy == sum_by(r.hotspots, |h: HotspotView| h.entropy_score)
            &&& r.mean_hotspot_entropy == rounded_mean(r.total_entropy, r.hotspots.len())
        }),
{
}

/// What the regular expressions of a language find in a line: whether its declaration
/// matches, and with which groups, whether its loop head does, and which of its rules do.
pub proof fn law_matches_are_those_of_the_patterns(
    lines: Seq<Seq<char>>,
    language: Seq<char>,
    i: int,
)
    requires
        0 <= i < lines.len(),
    ensures
        ({
            let m = matches_of_lines(lines, language)[i];
            let rules = rule_table_for(language);
            &&& matches_of_lines(lines, language).len() == lines.len()
            &&& m.declares_function == regex_is_match(func_pattern(language), lines[i])
            &&& m.declaration == regex_captures(func_pattern(language), lines[i])
            &&& m.is_loop == regex_is_match(loop_pattern(language), lines[i])
            &&& m.rule_hits.len() == rules.len()
            &&& forall|k: int|
                0 <= k < rules.len() ==> #[trigger] m.rule_hits[k] == regex_is_match(
                    rules[k].pattern,
                    lines[i],
                )
        }),
{
}

/// A file has a report exactly where it is no larger than 512 KB, holds no null byte among
/// its first 512, has a name with a language, and its lines are UTF-8. The report is then
/// that of its lines under the rules of its language.
pub proof fn law_files_with_a_report(
    file_path: Seq<char>,
    file_name: Seq<char>,
    content: Seq<u8>,
    min_score: nat,
)
    ensures
        ({
            let r = scan_result(file_path, file_name, content, min_score);
            let language = language_of(file_name)->0;
            let lines = text_lines(content)->0;
            &&& r is Some <==> {
                &&& content.len() <= 524288
                &&& forall|i: int| 0 <= i < content.len() && i < 512 ==> #[trigger] content[i] != 0
                &&& language_of(file_name) is Some
                &&& text_lines(content) is Some
            }
            &&& r is Some ==> r == Some(
                report_of(
                    file_path,
                    lines,
                    matches_of_lines(lines, language),
                    rule_table_for(language),
                    language,
                    min_score,
                ),
            )
        }),
{
}

/// What the given regular expressions find in a line, whatever the language and the rules.
pub proof fn law_matches_are_one_for_one(
    line: Seq<char>,
    language: Seq<char>,
    func: Seq<char>,
    rules: Seq<RuleView>,
)
    ensures
        ({
            let m = matches_of(line, language, func, rules);
            &&& m.declares_function == regex_is_match(func, line)
            &&& m.declaration == regex_captures(func, line)
            &&& m.is_loop == regex_is_match(loop_pattern(language), line)
            &&& m.rule_hits.len() == rules.len()
            &&& forall|k: int|
                0 <= k < rules.len() ==> #[trigger] m.rule_hits[k] == regex_is_match(
                    rules[k].pattern,
                    line,
                )
        }),
{
}

/// A list of strings, hotspots, matches or files says, element for element, what its
/// elements say.
pub proof fn law_lists_say_what_their_elements_say(
    strings: Seq<&str>,
    hotspots: Seq<Hotspot>,
    matches: Seq<LineMatches>,
    files: Seq<FileReport>,
    ranked: Seq<RankedHotspot>,
)
    ensures
        texts(strings).len() == strings.len(),
        forall|i: int| 0 <= i < strings.len() ==> #[trigger] texts(strings)[i] == strings[i]@,
        hotspot_views(hotspots).len() == hotspots.len(),
        forall|i: int|
            0 <= i < hotspots.len() ==> #[trigger] hotspot_views(hotspots)[i] == hotspots[i]@,
        match_views(matches).len() == matches.len(),
        forall|i: int| 0 <= i < matches.len() ==> #[trigger] match_views(matches)[i] == matches[i]@,
        file_views(files).len() == files.len(),
        forall|i: int| 0 <= i < files.len() ==> #[trigger] file_views(files)[i] == files[i]@,
        ranked_views(ranked).len() == ranked.len(),
        forall|i: int| 0 <= i < ranked.len() ==> #[trigger] ranked_views(ranked)[i] == ranked[i]@,
{
}

/// A hotspot, a file report and the report of a scan say what stands in their fields.
pub proof fn law_reports_say_what_they_hold(
    h: Hotspot,
    f: FileReport,
    r: ThermodynamicReport,
    k: RankedHotspot,
)
    ensures
        h@.function_name == h.function_name@,
        h@.line_number == h.line_number,
        h@.source_snippet == h.source_snippet@,
        h@.entropy_score == h.entropy_score,
        h@.vulnerability_type == h.vulnerability_type,
        h@.description == h.description@,
        f@.file_path == f.file_path@,
        f@.language == f.language@,
        f@.lines_scanned == f.lines_scanned,
        f@.total_entropy == f.total_entropy,
        f@.mean_hotspot_entropy == f.mean_hotspot_entropy,
        f@.hotspots == hotspot_views(f.hotspots@),
        r@.engine_version == r.engine_version@,
        r@.generated_at == r.generated_at@,
        r@.scanned_directory == r.scanned_directory@,
        r@.files_analyzed == r.files_analyzed,
        r@.total_hotspots == r.total_hotspots,
        r@.global_entropy == r.global_entropy,
        r@.file_reports == file_views(r.file_reports@),
        k@.entropy_score == k.entropy_score,
        k@.file_path == k.file_path@,
        k@.line_number == k.line_number,
        k@.vulnerability_type == k.vulnerability_type,
{
}

/// A scan state, the matches of a line and a rule say what stands in their fields.
pub proof fn law_states_say_what_they_hold(s: ScanState, m: LineMatches, r: PatternRule<'_>)
    ensures
        s@.current_function == s.current_function@,
        s@.nesting_depth == s.nesting_depth,
        s@.loop_depth == s.loop_depth,
        s@.loop_levels == s.loop_levels@,
        m@.declares_function == m.declares_function,
        m@.is_loop == m.is_loop,
        m@.rule_hits == m.rule_hits@,
        m@.declaration is Some == m.declaration is Some,
        m.declaration is Some ==> m@.declaration->0.len() == m.declaration->0@.len(),
        m.declaration is Some ==> forall|i: int|
            0 <= i < m.declaration->0@.len() ==> match m.declaration->0@[i] {
                Some(t) => #[trigger] m@.declaration->0[i] == Some(t@),
                None => m@.declaration->0[i] is None,
            },
        r@.pattern == r.regex@,
        r@.vulnerability == r.vulnerability,
        r@.base_score == r.base_score,
        r@.description == r.description_tmpl@,
{
}

} // verus!
