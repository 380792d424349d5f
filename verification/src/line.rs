//! The scan of one source line: it moves the scan state on and yields the hotspots
//! that the line holds.

use crate::pattern::{group_texts, opt_text, regex_captures, regex_is_match, Pattern};
use crate::rules::{
    loop_pattern, loop_regex_for, rule_views, PatternRule, Patterns, RuleView, VulnerabilityType,
};
use crate::text::{
    chars_of, count_char, count_of, ends_with, identifier_char, indent_of, indent_width,
    is_identifier_char, matches_at, occurs_at, same_text, spells, starts_with, trim, trim_bounds,
    trimmed,
};
use vstd::prelude::*;
use vstd::string::StrSliceExecFns;

verus! {

/// The highest entropy of a single hotspot, in hundredths of a point.
pub const MAX_ENTROPY: u64 = 10000;

/// How many characters of a line a hotspot quotes.
pub const SNIPPET_CHARS: usize = 120;

/// One detected signal.
#[derive(Debug)]
pub struct Hotspot {
    /// The function that the line stands in (a best effort).
    pub function_name: String,
    /// The number of the line, counted from 1.
    pub line_number: usize,
    /// The line, trimmed and cut.
    pub source_snippet: String,
    /// The weighted entropy, in hundredths of a point, at most `MAX_ENTROPY`.
    pub entropy_score: u64,
    pub vulnerability_type: VulnerabilityType,
    /// Why the line is flagged.
    pub description: String,
}

/// What a hotspot says.
#[verifier::ext_equal]
pub struct HotspotView {
    pub function_name: Seq<char>,
    pub line_number: nat,
    pub source_snippet: Seq<char>,
    pub entropy_score: nat,
    pub vulnerability_type: VulnerabilityType,
    pub description: Seq<char>,
}

impl View for Hotspot {
    type V = HotspotView;

    open spec fn view(&self) -> HotspotView {
        HotspotView {
            function_name: self.function_name@,
            line_number: self.line_number as nat,
            source_snippet: self.source_snippet@,
            entropy_score: self.entropy_score as nat,
            vulnerability_type: self.vulnerability_type,
            description: self.description@,
        }
    }
}

impl Clone for Hotspot {
    fn clone(&self) -> (r: Hotspot)
        ensures
            r@ == self@,
    {
        Hotspot {
            function_name: self.function_name.clone(),
            line_number: self.line_number,
            source_snippet: self.source_snippet.clone(),
            entropy_score: self.entropy_score,
            vulnerability_type: self.vulnerability_type,
            description: self.description.clone(),
        }
    }
}

/// What a list of hotspots says.
pub open spec fn hotspot_views(v: Seq<Hotspot>) -> Seq<HotspotView> {
    v.map_values(|h: Hotspot| h@)
}

/// What is carried from one line to the next.
pub struct ScanState {
    /// The function last declared, or `<module>`.
    pub current_function: String,
    /// The depth of block nesting.
    pub nesting_depth: usize,
    /// The depth of loop nesting.
    pub loop_depth: usize,
    /// The block depth or the indentation of each open loop, innermost last.
    pub loop_levels: Vec<usize>,
}

#[verifier::ext_equal]
pub struct ScanView {
    pub current_function: Seq<char>,
    pub nesting_depth: usize,
    pub loop_depth: usize,
    pub loop_levels: Seq<usize>,
}

impl View for ScanState {
    type V = ScanView;

    open spec fn view(&self) -> ScanView {
        ScanView {
            current_function: self.current_function@,
            nesting_depth: self.nesting_depth,
            loop_depth: self.loop_depth,
            loop_levels: self.loop_levels@,
        }
    }
}

/// The state before the first line of a file.
pub open spec fn initial_state() -> ScanView {
    ScanView {
        current_function: "<module>"@,
        nesting_depth: 0,
        loop_depth: 0,
        loop_levels: Seq::empty(),
    }
}

impl ScanState {
    /// The state before the first line of a file.
    pub fn new() -> (s: ScanState)
        ensures
            s@ == initial_state(),
    {
        ScanState {
            current_function: "<module>".to_owned(),
            nesting_depth: 0,
            loop_depth: 0,
            loop_levels: Vec::new(),
        }
    }
}

/// What the regular expressions find in one line.
pub struct LineMatches {
    /// Whether the line declares a function.
    pub declares_function: bool,
    /// The groups of the match of the declaration.
    pub declaration: Option<Vec<Option<String>>>,
    /// Whether the line is the head of a loop.
    pub is_loop: bool,
    /// Whether the line matches, for each rule.
    pub rule_hits: Vec<bool>,
}

pub struct MatchView {
    pub declares_function: bool,
    pub declaration: Option<Seq<Option<Seq<char>>>>,
    pub is_loop: bool,
    pub rule_hits: Seq<bool>,
}

impl View for LineMatches {
    type V = MatchView;

    open spec fn view(&self) -> MatchView {
        MatchView {
            declares_function: self.declares_function,
            declaration: group_texts(self.declaration),
            is_loop: self.is_loop,
            rule_hits: self.rule_hits@,
        }
    }
}

/// What the expressions of a language find in a line.
pub open spec fn matches_of(
    line: Seq<char>,
    language: Seq<char>,
    func: Seq<char>,
    rules: Seq<RuleView>,
) -> MatchView {
    MatchView {
        declares_function: regex_is_match(func, line),
        declaration: regex_captures(func, line),
        is_loop: regex_is_match(loop_pattern(language), line),
        rule_hits: rules.map_values(|r: RuleView| regex_is_match(r.pattern, line)),
    }
}

/// The name that a declaration introduces: its first group, or else its second.
pub open spec fn declared_name(groups: Option<Seq<Option<Seq<char>>>>) -> Option<Seq<char>> {
    match groups {
        Some(g) => if g.len() > 1 && g[1] is Some {
            g[1]
        } else if g.len() > 2 {
            g[2]
        } else {
            None
        },
        None => None,
    }
}

/// A declaration makes its function the current one, with no loop open.
pub open spec fn enter_function(
    s: ScanView,
    groups: Option<Seq<Option<Seq<char>>>>,
) -> ScanView {
    match declared_name(groups) {
        Some(name) => ScanView {
            current_function: name,
            nesting_depth: s.nesting_depth,
            loop_depth: 0,
            loop_levels: Seq::empty(),
        },
        None => s,
    }
}

/// Closes open loops from the innermost outwards, as long as their level is above
/// `floor`, or at it where `inclusive`.
pub open spec fn close_loops(s: ScanView, floor: usize, inclusive: bool) -> ScanView
    decreases s.loop_levels.len(),
{
    if s.loop_levels.len() > 0 && (s.loop_levels.last() > floor || (inclusive
        && s.loop_levels.last() == floor)) {
        close_loops(
            ScanView {
                loop_depth: s.loop_depth.saturating_sub(1),
                loop_levels: s.loop_levels.drop_last(),
                ..s
            },
            floor,
            inclusive,
        )
    } else {
        s
    }
}

/// Opens a loop at the given level, where the line is the head of one.
pub open spec fn open_loop(s: ScanView, level: usize, is_loop: bool) -> ScanView {
    if is_loop {
        ScanView {
            loop_depth: s.loop_depth.saturating_add(1),
            loop_levels: s.loop_levels.push(level),
            ..s
        }
    } else {
        s
    }
}

/// Python: a line that is neither blank nor a comment closes the loops that are indented
/// as far as it, or further. The head of a loop does so too, before it opens its own.
pub open spec fn track_python(s: ScanView, line: Seq<char>, is_loop: bool) -> ScanView {
    let indent = indent_width(line) as usize;
    let placed = ScanView { nesting_depth: indent / 4, ..s };
    let text = trim(line);
    let closed = if text.len() > 0 && text[0] != '#' {
        close_loops(placed, indent, true)
    } else {
        placed
    };
    open_loop(closed, indent, is_loop)
}

/// The lines that end a loop of a shell script.
pub open spec fn ends_shell_loop(text: Seq<char>) -> bool {
    ||| text == "done"@
    ||| "done "@.is_prefix_of(text)
    ||| "; done"@.is_suffix_of(text)
}

/// Shell: `done` closes the innermost loop.
pub open spec fn track_shell(s: ScanView, line: Seq<char>, is_loop: bool) -> ScanView {
    let opened = open_loop(s, s.nesting_depth, is_loop);
    if ends_shell_loop(trim(line)) {
        ScanView {
            loop_depth: opened.loop_depth.saturating_sub(1),
            loop_levels: if opened.loop_levels.len() > 0 {
                opened.loop_levels.drop_last()
            } else {
                opened.loop_levels
            },
            ..opened
        }
    } else {
        opened
    }
}

/// Braces: a line first leaves the blocks that it closes, and with them the loops
/// inside, and then enters the blocks that it opens.
pub open spec fn track_braces(s: ScanView, line: Seq<char>, is_loop: bool) -> ScanView {
    let opens = count_char(line, '{') as usize;
    let closes = count_char(line, '}') as usize;
    let left = s.nesting_depth.saturating_sub(closes);
    let closed = if closes > 0 {
        close_loops(s, left, false)
    } else {
        s
    };
    let depth = left.saturating_add(opens);
    open_loop(ScanView { nesting_depth: depth, ..closed }, depth, is_loop)
}

/// The nesting after a line.
pub open spec fn track_nesting(
    s: ScanView,
    line: Seq<char>,
    language: Seq<char>,
    is_loop: bool,
) -> ScanView {
    if language == "Python"@ {
        track_python(s, line, is_loop)
    } else if language == "Shell"@ {
        track_shell(s, line, is_loop)
    } else {
        track_braces(s, line, is_loop)
    }
}

/// The state after a line.
pub open spec fn after_line(
    s: ScanView,
    line: Seq<char>,
    language: Seq<char>,
    m: MatchView,
) -> ScanView {
    track_nesting(enter_function(s, m.declaration), line, language, m.is_loop)
}

/// The entropy of a match at a loop depth: `base * (1 + depth^2 / 2)`, rounded half up
/// and at most `MAX_ENTROPY`.
pub open spec fn entropy(base: nat, depth: nat) -> nat {
    let raw = (base * (2 + depth * depth) + 1) / 2;
    if raw > MAX_ENTROPY {
        MAX_ENTROPY as nat
    } else {
        raw
    }
}

/// The text with which a call of a function begins.
pub open spec fn call_text(function: Seq<char>) -> Seq<char> {
    function + seq!['(']
}

/// Whether a call of the given function stands at position `i`: its name and an opening
/// parenthesis, with no identifier character in front that would make it a longer name.
pub open spec fn calls_at(line: Seq<char>, i: int, function: Seq<char>) -> bool {
    &&& occurs_at(line, i, call_text(function))
    &&& i > 0 ==> !is_identifier_char(line[i - 1])
}

/// Whether a line calls the given function, plainly or on a receiver.
pub open spec fn calls(line: Seq<char>, function: Seq<char>) -> bool {
    exists|i: int| calls_at(line, i, function)
}

/// Whether a rule that matches the line makes it a hotspot. A recursive call has to
/// call the current function, outside the line that declares it.
pub open spec fn rule_applies(
    s: ScanView,
    line: Seq<char>,
    vulnerability: VulnerabilityType,
    declares_function: bool,
) -> bool {
    vulnerability == VulnerabilityType::RecursiveCall ==> {
        &&& !declares_function
        &&& s.current_function != "<module>"@
        &&& calls(line, s.current_function)
    }
}

/// The quotation of a line in a hotspot.
pub open spec fn snippet(line: Seq<char>) -> Seq<char> {
    let text = trim(line);
    if text.len() > SNIPPET_CHARS {
        text.take(SNIPPET_CHARS as int)
    } else {
        text
    }
}

/// The hotspot that a rule makes of a line.
pub open spec fn hotspot_of(
    s: ScanView,
    line: Seq<char>,
    line_no: nat,
    rule: RuleView,
) -> HotspotView {
    HotspotView {
        function_name: s.current_function,
        line_number: line_no,
        source_snippet: snippet(line),
        entropy_score: entropy(rule.base_score, s.loop_depth as nat),
        vulnerability_type: rule.vulnerability,
        description: rule.description,
    }
}

/// The hotspots of a line, in the order of the rules. `s` is the state after the line.
pub open spec fn hotspots_of(
    s: ScanView,
    line: Seq<char>,
    line_no: nat,
    rules: Seq<RuleView>,
    m: MatchView,
) -> Seq<HotspotView>
    decreases rules.len(),
{
    if rules.len() == 0 {
        Seq::empty()
    } else {
        let before = hotspots_of(s, line, line_no, rules.drop_last(), m);
        let rule = rules.last();
        if m.rule_hits[rules.len() - 1] && rule_applies(
            s,
            line,
            rule.vulnerability,
            m.declares_function,
        ) {
            before.push(hotspot_of(s, line, line_no, rule))
        } else {
            before
        }
    }
}

/// The entropy of a match at a loop depth, in hundredths of a point.
pub fn entropy_score(base: u64, depth: usize) -> (r: u64)
    ensures
        r == entropy(base as nat, depth as nat),
        r <= MAX_ENTROPY,
{
    if base == 0 {
        assert(base * (2 + depth * depth) == 0) by (nonlinear_arith)
            requires
                base == 0,
        ;
        0
    } else if depth >= 200 {
        assert(base * (2 + depth * depth) >= 40002) by (nonlinear_arith)
            requires
                base >= 1,
                depth >= 200,
        ;
        MAX_ENTROPY
    } else if base >= MAX_ENTROPY {
        assert(base * (2 + depth * depth) >= 2 * base) by (nonlinear_arith)
            requires
                base >= 1,
                depth >= 0,
        ;
        MAX_ENTROPY
    } else {
        let d = depth as u64;
        assert(d * d <= 40000) by (nonlinear_arith)
            requires
                d < 200,
        ;
        let weight: u64 = 2 + d * d;
        assert(base * weight <= 10000 * 40002) by (nonlinear_arith)
            requires
                base <= 10000,
                weight <= 40002,
        ;
        let raw: u64 = (base * weight + 1) / 2;
        if raw > MAX_ENTROPY {
            MAX_ENTROPY
        } else {
            raw
        }
    }
}

fn declared(groups: &Option<Vec<Option<String>>>) -> (r: Option<String>)
    ensures
        match r {
            Some(name) => declared_name(group_texts(*groups)) == Some(name@),
            None => declared_name(group_texts(*groups)) is None,
        },
{
    match groups {
        Some(v) => {
            let ghost g = group_texts(*groups)->0;
            if v.len() > 1 {
                assert(g[1] == opt_text(v@[1]));
                if let Some(name) = &v[1] {
                    return Some(name.clone());
                }
            }
            if v.len() > 2 {
                assert(g[2] == opt_text(v@[2]));
                if let Some(name) = &v[2] {
                    return Some(name.clone());
                }
            }
            None
        },
        None => None,
    }
}

/// Closes the loops above a level (see `close_loops`).
fn leave_loops(state: &mut ScanState, floor: usize, inclusive: bool)
    ensures
        final(state)@ == close_loops(old(state)@, floor, inclusive),
{
    let ghost start = state@;
    while state.loop_levels.len() > 0 && (state.loop_levels[state.loop_levels.len() - 1] > floor
        || (inclusive && state.loop_levels[state.loop_levels.len() - 1] == floor))
        invariant
            close_loops(state@, floor, inclusive) == close_loops(start, floor, inclusive),
        decreases state.loop_levels@.len(),
    {
        let ghost before = state@;
        let _ = state.loop_levels.pop();
        state.loop_depth = state.loop_depth.saturating_sub(1);
        assert(state@ =~= (ScanView {
            loop_depth: before.loop_depth.saturating_sub(1),
            loop_levels: before.loop_levels.drop_last(),
            ..before
        }));
    }
}

/// Opens a loop at a level, where the line is the head of one (see `open_loop`).
fn enter_loop(state: &mut ScanState, level: usize, is_loop: bool)
    ensures
        final(state)@ == open_loop(old(state)@, level, is_loop),
{
    if is_loop {
        state.loop_depth = state.loop_depth.saturating_add(1);
        state.loop_levels.push(level);
    }
}

fn move_python(state: &mut ScanState, line: &str, is_loop: bool)
    ensures
        final(state)@ == track_python(old(state)@, line@, is_loop),
{
    let indent = indent_of(line);
    state.nesting_depth = indent / 4;
    let text = trimmed(&chars_of(line));
    if text.len() > 0 && text[0] != '#' {
        leave_loops(state, indent, true);
    }
    enter_loop(state, indent, is_loop);
}

fn move_shell(state: &mut ScanState, line: &str, is_loop: bool)
    ensures
        final(state)@ == track_shell(old(state)@, line@, is_loop),
{
    let level = state.nesting_depth;
    enter_loop(state, level, is_loop);
    let text = trimmed(&chars_of(line));
    if spells(&text, "done") || starts_with(&text, "done ") || ends_with(&text, "; done") {
        let ghost before = state@;
        let _ = state.loop_levels.pop();
        state.loop_depth = state.loop_depth.saturating_sub(1);
        assert(before.loop_levels.len() > 0 ==> state@.loop_levels
            == before.loop_levels.drop_last());
    }
}

fn move_braces(state: &mut ScanState, line: &str, is_loop: bool)
    ensures
        final(state)@ == track_braces(old(state)@, line@, is_loop),
{
    let text = chars_of(line);
    let opens = count_of(&text, '{');
    let closes = count_of(&text, '}');
    let left = state.nesting_depth.saturating_sub(closes);
    if closes > 0 {
        leave_loops(state, left, false);
    }
    let depth = left.saturating_add(opens);
    state.nesting_depth = depth;
    enter_loop(state, depth, is_loop);
}

fn line_calls(line: &Vec<char>, function: &str) -> (r: bool)
    ensures
        r == calls(line@, function@),
{
    let mut call = chars_of(function);
    call.push('(');
    assert(call@ == call_text(function@));
    let mut i: usize = 0;
    while i < line.len()
        invariant
            i <= line@.len(),
            call@ == call_text(function@),
            forall|j: int| 0 <= j < i ==> !calls_at(line@, j, function@),
        decreases line@.len() - i,
    {
        if matches_at(line, i, &call) && (i == 0 || !identifier_char(line[i - 1])) {
            assert(calls_at(line@, i as int, function@));
            return true;
        }
        i += 1;
    }
    false
}

fn quote(line: &str) -> (r: String)
    ensures
        r@ == snippet(line@),
{
    let (a, b) = trim_bounds(&chars_of(line));
    let end = if b - a > SNIPPET_CHARS {
        a + SNIPPET_CHARS
    } else {
        b
    };
    line.substring_char(a, end).to_owned()
}

/// Moves the scan state over a line and yields the hotspots of the line, given what
/// the regular expressions found in it.
pub fn analyze_matches(
    raw_line: &str,
    line_no: usize,
    state: &mut ScanState,
    rules: &[PatternRule<'_>],
    matches: &LineMatches,
    language: &str,
) -> (r: Vec<Hotspot>)
    requires
        matches.rule_hits@.len() == rules@.len(),
    ensures
        final(state)@ == after_line(old(state)@, raw_line@, language@, matches@),
        hotspot_views(r@) == hotspots_of(
            final(state)@,
            raw_line@,
            line_no as nat,
            rule_views(rules@),
            matches@,
        ),
{
    if let Some(name) = declared(&matches.declaration) {
        state.current_function = name;
        state.loop_depth = 0;
        state.loop_levels.clear();
    }
    assert(state@ =~= enter_function(old(state)@, matches@.declaration));
    if same_text(language, "Python") {
        move_python(state, raw_line, matches.is_loop);
    } else if same_text(language, "Shell") {
        move_shell(state, raw_line, matches.is_loop);
    } else {
        move_braces(state, raw_line, matches.is_loop);
    }
    let ghost after = state@;
    let ghost all = rule_views(rules@);
    let chars = chars_of(raw_line);
    let mut out: Vec<Hotspot> = Vec::new();
    let mut i: usize = 0;
    assert(hotspot_views(out@) =~= Seq::<HotspotView>::empty());
    while i < rules.len()
        invariant
            i <= rules@.len(),
            matches.rule_hits@.len() == rules@.len(),
            all == rule_views(rules@),
            state@ == after,
            chars@ == raw_line@,
            hotspot_views(out@) == hotspots_of(
                after,
                raw_line@,
                line_no as nat,
                all.take(i as int),
                matches@,
            ),
        decreases rules@.len() - i,
    {
        let rule = &rules[i];
        assert(all.take(i + 1).drop_last() == all.take(i as int));
        assert(all.take(i + 1).last() == rule@);
        let applies = match rule.vulnerability {
            VulnerabilityType::RecursiveCall => !matches.declares_function && !same_text(
                state.current_function.as_str(),
                "<module>",
            ) && line_calls(&chars, state.current_function.as_str()),
            _ => true,
        };
        if matches.rule_hits[i] && applies {
            let ghost before = hotspot_views(out@);
            let hotspot = Hotspot {
                function_name: state.current_function.clone(),
                line_number: line_no,
                source_snippet: quote(raw_line),
                entropy_score: entropy_score(rule.base_score, state.loop_depth),
                vulnerability_type: rule.vulnerability,
                description: rule.description_tmpl.to_owned(),
            };
            assert(hotspot@ == hotspot_of(after, raw_line@, line_no as nat, rule@));
            out.push(hotspot);
            assert(hotspot_views(out@) =~= before.push(hotspot@));
        }
        i += 1;
    }
    assert(all.take(i as int) == all);
    out
}

/// Runs the regular expressions of a language over a line.
pub fn match_line(
    raw_line: &str,
    rules: &[PatternRule<'_>],
    func_re: &Pattern,
    language: &str,
    patterns: &Patterns,
) -> (m: LineMatches)
    ensures
        m@ == matches_of(raw_line@, language@, func_re@, rule_views(rules@)),
        m.rule_hits@.len() == rules@.len(),
{
    let ghost all = rule_views(rules@).map_values(
        |r: RuleView| regex_is_match(r.pattern, raw_line@),
    );
    let mut hits: Vec<bool> = Vec::new();
    let mut i: usize = 0;
    while i < rules.len()
        invariant
            i <= rules@.len(),
            all == rule_views(rules@).map_values(
                |r: RuleView| regex_is_match(r.pattern, raw_line@),
            ),
            hits@ == all.take(i as int),
        decreases rules@.len() - i,
    {
        let hit = rules[i].regex.is_match(raw_line);
        assert(all[i as int] == hit);
        hits.push(hit);
        i += 1;
    }
    assert(all.take(i as int) == all);
    LineMatches {
        declares_function: func_re.is_match(raw_line),
        declaration: func_re.captures(raw_line),
        is_loop: loop_regex_for(language, patterns).is_match(raw_line),
        rule_hits: hits,
    }
}

/// Analyzes one source line: moves the scan state over it and yields its hotspots.
///
/// The entropy of a hotspot grows with the square of the loop depth, which models the
/// cost of a line in nested loops.
pub fn analyze_line(
    raw_line: &str,
    line_no: usize,
    state: &mut ScanState,
    rules: &[PatternRule<'_>],
    func_re: &Pattern,
    language: &str,
    patterns: &Patterns,
) -> (r: Vec<Hotspot>)
    ensures
        ({
            let m = matches_of(raw_line@, language@, func_re@, rule_views(rules@));
            &&& final(state)@ == after_line(old(state)@, raw_line@, language@, m)
            &&& hotspot_views(r@) == hotspots_of(
                final(state)@,
                raw_line@,
                line_no as nat,
                rule_views(rules@),
                m,
            )
        }),
{
    let matches = match_line(raw_line, rules, func_re, language, patterns);
    analyze_matches(raw_line, line_no, state, rules, &matches, language)
}

} // verus!
