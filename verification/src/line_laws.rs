//! What a line yields: which rules report it, and what each report says.

use crate::line::{
    call_text, calls, calls_at, entropy, hotspot_of, hotspots_of, rule_applies, snippet,
    HotspotView, MatchView, ScanView,
};
use crate::rules::{RuleView, VulnerabilityType};
use crate::text::{
    indent_width, is_identifier_char, is_white_space, occurs_at, trim, trim_end, trim_start,
};
use vstd::prelude::*;
use vstd::utf8::{encode_utf8, is_ascii_chars_encode_utf8};

verus! {

/// A text is its leading white space and the rest, which begins with no white space.
pub proof fn law_trim_start_takes_white_space(s: Seq<char>) -> (lead: Seq<char>)
    ensures
        s == lead + trim_start(s),
        forall|i: int| 0 <= i < lead.len() ==> is_white_space(#[trigger] lead[i]),
        trim_start(s).len() > 0 ==> !is_white_space(trim_start(s)[0]),
    decreases s.len(),
{
    if s.len() > 0 && is_white_space(s[0]) {
        let more = law_trim_start_takes_white_space(s.drop_first());
        let lead = seq![s[0]] + more;
        assert(s =~= seq![s[0]] + s.drop_first());
        assert(s =~= lead + trim_start(s));
        lead
    } else {
        assert(s =~= Seq::<char>::empty() + s);
        Seq::empty()
    }
}

proof fn lemma_trim_end_takes_white_space(s: Seq<char>) -> (tail: Seq<char>)
    ensures
        s == trim_end(s) + tail,
        forall|i: int| 0 <= i < tail.len() ==> is_white_space(#[trigger] tail[i]),
        trim_end(s).len() > 0 ==> !is_white_space(trim_end(s).last()),
        trim_end(s).len() > 0 ==> trim_end(s)[0] == s[0],
    decreases s.len(),
{
    if s.len() > 0 && is_white_space(s.last()) {
        let less = lemma_trim_end_takes_white_space(s.drop_last());
        let tail = less.push(s.last());
        assert(s =~= s.drop_last().push(s.last()));
        assert(s =~= trim_end(s) + tail);
        tail
    } else {
        assert(s =~= s + Seq::<char>::empty());
        Seq::empty()
    }
}

/// Trimming takes the white space off both ends of a text and nothing else.
pub proof fn law_trim_takes_white_space(s: Seq<char>) -> (ends: (Seq<char>, Seq<char>))
    ensures
        s == ends.0 + trim(s) + ends.1,
        forall|i: int| 0 <= i < ends.0.len() ==> is_white_space(#[trigger] ends.0[i]),
        forall|i: int| 0 <= i < ends.1.len() ==> is_white_space(#[trigger] ends.1[i]),
        trim(s).len() > 0 ==> !is_white_space(trim(s)[0]) && !is_white_space(trim(s).last()),
{
    let lead = law_trim_start_takes_white_space(s);
    let tail = lemma_trim_end_takes_white_space(trim_start(s));
    assert(s =~= lead + trim(s) + tail);
    (lead, tail)
}

/// The indentation of a line is the number of bytes of its leading white space: one for each
/// blank or tab.
pub proof fn law_indentation_counts_leading_white_space(lead: Seq<char>, text: Seq<char>)
    requires
        forall|i: int| 0 <= i < lead.len() ==> is_white_space(#[trigger] lead[i]),
        text.len() > 0 ==> !is_white_space(text[0]),
    ensures
        indent_width(lead + text) == encode_utf8(lead).len(),
        (forall|i: int| 0 <= i < lead.len() ==> (#[trigger] lead[i] == ' ' || lead[i] == '\t'))
            ==> indent_width(lead + text) == lead.len(),
{
    law_trim_start_ends_at_the_text(lead, text);
    assert((lead + text).take(lead.len() as int) =~= lead);
    if forall|i: int| 0 <= i < lead.len() ==> (#[trigger] lead[i] == ' ' || lead[i] == '\t') {
        is_ascii_chars_encode_utf8(lead);
    }
}

/// Of white space and a text that begins with none, the text is what trimming leaves.
pub proof fn law_trim_start_ends_at_the_text(lead: Seq<char>, text: Seq<char>)
    requires
        forall|i: int| 0 <= i < lead.len() ==> is_white_space(#[trigger] lead[i]),
        text.len() > 0 ==> !is_white_space(text[0]),
    ensures
        trim_start(lead + text) == text,
    decreases lead.len(),
{
    if lead.len() > 0 {
        assert((lead + text)[0] == lead[0]);
        assert((lead + text).drop_first() =~= lead.drop_first() + text);
        assert forall|i: int| 0 <= i < lead.drop_first().len() implies is_white_space(
            #[trigger] lead.drop_first()[i],
        ) by {
            assert(lead.drop_first()[i] == lead[i + 1]);
        }
        law_trim_start_ends_at_the_text(lead.drop_first(), text);
    } else {
        assert(lead + text =~= text);
    }
}

/// The quotation of a line is what trimming leaves of it, cut behind 120 characters.
pub proof fn law_snippet_quotes_the_line(line: Seq<char>)
    ensures
        snippet(line).is_prefix_of(trim(line)),
        trim(line).len() <= 120 ==> snippet(line) == trim(line),
        trim(line).len() > 120 ==> snippet(line).len() == 120,
{
    assert(trim(line) =~= trim(line).take(trim(line).len() as int));
}

/// The entropy is the base score times `1 + depth^2 / 2`, with a half rounded up, and at most
/// 100 points.
pub proof fn law_entropy_is_weighted(base: nat, depth: nat)
    ensures
        base * (2 + depth * depth) <= 20000 ==> base * (2 + depth * depth) <= 2 * entropy(
            base,
            depth,
        ) <= base * (2 + depth * depth) + 1,
        base * (2 + depth * depth) > 20000 ==> entropy(base, depth) == 10000,
{
}

/// A line calls a function exactly where it holds the name and an opening parenthesis, at its
/// beginning or behind a character that no identifier holds.
pub proof fn law_calls_name_the_function(line: Seq<char>, function: Seq<char>)
    ensures
        calls(line, function) <==> exists|before: Seq<char>, behind: Seq<char>|
            line == #[trigger] (before + function + seq!['('] + behind) && (before.len() == 0
                || !is_identifier_char(before.last())),
{
    let call = function + seq!['('];
    if calls(line, function) {
        let i = choose|i: int| calls_at(line, i, function);
        let before = line.take(i);
        let behind = line.skip(i + call.len());
        assert(line.subrange(i, i + call.len()) == call);
        assert(line =~= before + line.subrange(i, i + call.len()) + behind);
        assert(line =~= before + function + seq!['('] + behind);
        assert(before.len() > 0 ==> before.last() == line[i - 1]);
    }
    if exists|before: Seq<char>, behind: Seq<char>|
        line == #[trigger] (before + function + seq!['('] + behind) && (before.len() == 0
            || !is_identifier_char(before.last())) {
        let (before, behind) = choose|before: Seq<char>, behind: Seq<char>|
            line == #[trigger] (before + function + seq!['('] + behind) && (before.len() == 0
                || !is_identifier_char(before.last()));
        let i = before.len() as int;
        assert(line.subrange(i, i + call.len()) =~= call);
        assert(i > 0 ==> line[i - 1] == before.last());
        assert(calls_at(line, i, function));
    }
}

/// Every rule that matches a line and is not about recursion reports it, also where the line
/// declares a function. The report names the current function and the line, quotes it, and
/// gives the kind and the reason of the rule, with its score at the current loop depth.
pub proof fn law_every_match_is_reported(
    s: ScanView,
    line: Seq<char>,
    line_no: nat,
    rules: Seq<RuleView>,
    m: MatchView,
    k: int,
)
    requires
        0 <= k < rules.len(),
        m.rule_hits[k],
        rules[k].vulnerability != VulnerabilityType::RecursiveCall,
    ensures
        hotspots_of(s, line, line_no, rules, m).contains(
            (HotspotView {
                function_name: s.current_function,
                line_number: line_no,
                source_snippet: snippet(line),
                entropy_score: entropy(rules[k].base_score, s.loop_depth as nat),
                vulnerability_type: rules[k].vulnerability,
                description: rules[k].description,
            }),
        ),
{
    let chosen = law_hotspots_are_the_matches(s, line, line_no, rules, m);
    assert(chosen.contains(k));
    let i = choose|i: int| 0 <= i < chosen.len() && chosen[i] == k;
    assert(chosen[i] == k);
    assert(hotspots_of(s, line, line_no, rules, m)[i].description == rules[k].description);
}

/// A rule about recursion that matches a line reports it where the line declares no function
/// and calls the function it stands in.
pub proof fn law_recursion_is_reported(
    s: ScanView,
    line: Seq<char>,
    line_no: nat,
    rules: Seq<RuleView>,
    m: MatchView,
    k: int,
)
    requires
        0 <= k < rules.len(),
        m.rule_hits[k],
        rules[k].vulnerability == VulnerabilityType::RecursiveCall,
        !m.declares_function,
        s.current_function != "<module>"@,
        calls(line, s.current_function),
    ensures
        hotspots_of(s, line, line_no, rules, m).contains(
            (HotspotView {
                function_name: s.current_function,
                line_number: line_no,
                source_snippet: snippet(line),
                entropy_score: entropy(rules[k].base_score, s.loop_depth as nat),
                vulnerability_type: VulnerabilityType::RecursiveCall,
                description: rules[k].description,
            }),
        ),
{
    let chosen = law_hotspots_are_the_matches(s, line, line_no, rules, m);
    assert(chosen.contains(k));
    let i = choose|i: int| 0 <= i < chosen.len() && chosen[i] == k;
    assert(chosen[i] == k);
    assert(hotspots_of(s, line, line_no, rules, m)[i].description == rules[k].description);
}

/// The hotspots of a line stand one for one for the rules that report it, in the order of the
/// rules: those that match it, and of the ones about recursion only those of a line that
/// declares no function and calls the function it stands in. `chosen` lists these rules.
pub proof fn law_hotspots_are_the_matches(
    s: ScanView,
    line: Seq<char>,
    line_no: nat,
    rules: Seq<RuleView>,
    m: MatchView,
) -> (chosen: Seq<int>)
    ensures
        chosen.len() == hotspots_of(s, line, line_no, rules, m).len(),
        forall|i: int, j: int| 0 <= i < j < chosen.len() ==> chosen[i] < chosen[j],
        forall|k: int| #[trigger]
            chosen.contains(k) <==> {
                &&& 0 <= k < rules.len()
                &&& m.rule_hits[k]
                &&& rules[k].vulnerability == VulnerabilityType::RecursiveCall ==> {
                    &&& !m.declares_function
                    &&& s.current_function != "<module>"@
                    &&& calls(line, s.current_function)
                }
            },
        forall|i: int|
            0 <= i < chosen.len() ==> {
                let h = hotspots_of(s, line, line_no, rules, m)[i];
                let rule = rules[#[trigger] chosen[i]];
                &&& h.function_name == s.current_function
                &&& h.line_number == line_no
                &&& h.source_snippet == snippet(line)
                &&& h.entropy_score == entropy(rule.base_score, s.loop_depth as nat)
                &&& h.vulnerability_type == rule.vulnerability
                &&& h.description == rule.description
            },
    decreases rules.len(),
{
    if rules.len() == 0 {
        Seq::empty()
    } else {
        let init = rules.drop_last();
        let n = (rules.len() - 1) as int;
        let before = law_hotspots_are_the_matches(s, line, line_no, init, m);
        let old = hotspots_of(s, line, line_no, init, m);
        assert forall|i: int| 0 <= i < before.len() implies 0 <= #[trigger] before[i] < n by {
            assert(before.contains(before[i]));
        }
        if m.rule_hits[n] && rule_applies(s, line, rules[n].vulnerability, m.declares_function) {
            let chosen = before.push(n);
            assert forall|k: int| #[trigger] chosen.contains(k) <==> {
                &&& 0 <= k < rules.len()
                &&& m.rule_hits[k]
                &&& rules[k].vulnerability == VulnerabilityType::RecursiveCall ==> {
                    &&& !m.declares_function
                    &&& s.current_function != "<module>"@
                    &&& calls(line, s.current_function)
                }
            } by {
                if chosen.contains(k) {
                    let i = choose|i: int| 0 <= i < chosen.len() && chosen[i] == k;
                    if i < before.len() {
                        assert(before[i] == k);
                        assert(before.contains(k));
                        assert(init[k] == rules[k]);
                    }
                }
                if k == n {
                    assert(chosen[before.len() as int] == n);
                } else if 0 <= k < n {
                    assert(init[k] == rules[k]);
                    if before.contains(k) {
                        let i = choose|i: int| 0 <= i < before.len() && before[i] == k;
                        assert(chosen[i] == k);
                    }
                }
            }
            assert forall|i: int| 0 <= i < chosen.len() implies ({
                let h = hotspots_of(s, line, line_no, rules, m)[i];
                let rule = rules[#[trigger] chosen[i]];
                &&& h.function_name == s.current_function
                &&& h.line_number == line_no
                &&& h.source_snippet == snippet(line)
                &&& h.entropy_score == entropy(rule.base_score, s.loop_depth as nat)
                &&& h.vulnerability_type == rule.vulnerability
                &&& h.description == rule.description
            }) by {
                if i < before.len() {
                    assert(before[i] == chosen[i]);
                    assert(init[before[i]] == rules[chosen[i]]);
                    assert(hotspots_of(s, line, line_no, rules, m)[i] == old[i]);
                } else {
                    assert(hotspots_of(s, line, line_no, rules, m)[i] == hotspot_of(
                        s,
                        line,
                        line_no,
                        rules[n],
                    ));
                }
            }
            chosen
        } else {
            assert forall|k: int| #[trigger] before.contains(k) <==> {
                &&& 0 <= k < rules.len()
                &&& m.rule_hits[k]
                &&& rules[k].vulnerability == VulnerabilityType::RecursiveCall ==> {
                    &&& !m.declares_function
                    &&& s.current_function != "<module>"@
                    &&& calls(line, s.current_function)
                }
            } by {
                if 0 <= k < n {
                    assert(init[k] == rules[k]);
                }
            }
            assert forall|i: int| 0 <= i < before.len() implies ({
                let h = hotspots_of(s, line, line_no, rules, m)[i];
                let rule = rules[#[trigger] before[i]];
                &&& h.function_name == s.current_function
                &&& h.line_number == line_no
                &&& h.source_snippet == snippet(line)
                &&& h.entropy_score == entropy(rule.base_score, s.loop_depth as nat)
                &&& h.vulnerability_type == rule.vulnerability
                &&& h.description == rule.description
            }) by {
                assert(init[before[i]] == rules[before[i]]);
            }
            before
        }
    }
}

} // verus!
