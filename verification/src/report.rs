//! Reports: of one file, and of all the files of a directory.

use crate::comment::{block_depth, hashbang, read_comments, skips};
use crate::language::{
    detect_language, is_binary_file, language_of, looks_binary, MAX_FILE_SIZE_BYTES,
};
use crate::line::{
    after_line, analyze_matches, hotspot_views, hotspots_of, initial_state, match_line, matches_of,
    Hotspot, HotspotView, LineMatches, MatchView, ScanState, ScanView,
};
use crate::rules::{
    func_pattern, func_regex_for, rule_table_for, rule_views, PatternRule, Patterns, RuleView,
    VulnerabilityType,
};
use crate::sort::{lemma_sort_map, rank_key, sort_by, sort_descending, sum_by, Scored};
use crate::text::{decode_lines, text_lines, texts};
use vstd::prelude::*;

verus! {

/// The report of one source file. Entropy is counted in hundredths of a point.
#[derive(Debug)]
pub struct FileReport {
    /// The path of the file, as the caller gives it.
    pub file_path: String,
    /// The language, by the name of the file.
    pub language: String,
    /// The number of lines that are neither blank nor a comment.
    pub lines_scanned: usize,
    /// The sum of the entropy of all hotspots.
    pub total_entropy: u128,
    /// The mean entropy of a hotspot, rounded half up; 0 without hotspots.
    pub mean_hotspot_entropy: u128,
    /// All hotspots, highest entropy first.
    pub hotspots: Vec<Hotspot>,
}

#[verifier::ext_equal]
pub struct FileReportView {
    pub file_path: Seq<char>,
    pub language: Seq<char>,
    pub lines_scanned: nat,
    pub total_entropy: nat,
    pub mean_hotspot_entropy: nat,
    pub hotspots: Seq<HotspotView>,
}

impl View for FileReport {
    type V = FileReportView;

    open spec fn view(&self) -> FileReportView {
        FileReportView {
            file_path: self.file_path@,
            language: self.language@,
            lines_scanned: self.lines_scanned as nat,
            total_entropy: self.total_entropy as nat,
            mean_hotspot_entropy: self.mean_hotspot_entropy as nat,
            hotspots: hotspot_views(self.hotspots@),
        }
    }
}

impl Clone for FileReport {
    fn clone(&self) -> (r: FileReport)
        ensures
            r@ == self@,
    {
        let hotspots = self.hotspots.clone();
        assert(hotspot_views(hotspots@) =~= hotspot_views(self.hotspots@)) by {
            assert forall|i: int| 0 <= i < hotspots@.len() implies (#[trigger] hotspots@[i])@
                == self.hotspots@[i]@ by {
                assert(cloned::<Hotspot>(self.hotspots[i], hotspots[i]));
            }
        }
        FileReport {
            file_path: self.file_path.clone(),
            language: self.language.clone(),
            lines_scanned: self.lines_scanned,
            total_entropy: self.total_entropy,
            mean_hotspot_entropy: self.mean_hotspot_entropy,
            hotspots,
        }
    }
}

/// What a list of file reports says.
pub open spec fn file_views(v: Seq<FileReport>) -> Seq<FileReportView> {
    v.map_values(|r: FileReport| r@)
}

/// The report of a scan.
#[derive(Debug)]
pub struct ThermodynamicReport {
    pub engine_version: String,
    /// When the scan was completed.
    pub generated_at: String,
    pub scanned_directory: String,
    pub files_analyzed: usize,
    /// The number of hotspots in all files.
    pub total_hotspots: usize,
    /// The sum of the entropy of all files.
    pub global_entropy: u128,
    /// The reports of the files, highest entropy first.
    pub file_reports: Vec<FileReport>,
}

#[verifier::ext_equal]
pub struct ReportView {
    pub engine_version: Seq<char>,
    pub generated_at: Seq<char>,
    pub scanned_directory: Seq<char>,
    pub files_analyzed: nat,
    pub total_hotspots: nat,
    pub global_entropy: nat,
    pub file_reports: Seq<FileReportView>,
}

impl View for ThermodynamicReport {
    type V = ReportView;

    open spec fn view(&self) -> ReportView {
        ReportView {
            engine_version: self.engine_version@,
            generated_at: self.generated_at@,
            scanned_directory: self.scanned_directory@,
            files_analyzed: self.files_analyzed as nat,
            total_hotspots: self.total_hotspots as nat,
            global_entropy: self.global_entropy as nat,
            file_reports: file_views(self.file_reports@),
        }
    }
}

/// A hotspot with the file it stands in.
#[derive(Debug)]
pub struct RankedHotspot {
    pub entropy_score: u64,
    pub file_path: String,
    pub line_number: usize,
    pub vulnerability_type: VulnerabilityType,
}

#[verifier::ext_equal]
pub struct RankedView {
    pub entropy_score: nat,
    pub file_path: Seq<char>,
    pub line_number: nat,
    pub vulnerability_type: VulnerabilityType,
}

impl View for RankedHotspot {
    type V = RankedView;

    open spec fn view(&self) -> RankedView {
        RankedView {
            entropy_score: self.entropy_score as nat,
            file_path: self.file_path@,
            line_number: self.line_number as nat,
            vulnerability_type: self.vulnerability_type,
        }
    }
}

/// What a list of ranked hotspots says.
pub open spec fn ranked_views(v: Seq<RankedHotspot>) -> Seq<RankedView> {
    v.map_values(|r: RankedHotspot| r@)
}

impl Scored for Hotspot {
    open spec fn rank(&self) -> nat {
        self.entropy_score as nat
    }

    fn score(&self) -> (r: u128) {
        self.entropy_score as u128
    }
}

impl Scored for FileReport {
    open spec fn rank(&self) -> nat {
        self.total_entropy as nat
    }

    fn score(&self) -> (r: u128) {
        self.total_entropy
    }
}

impl Scored for RankedHotspot {
    open spec fn rank(&self) -> nat {
        self.entropy_score as nat
    }

    fn score(&self) -> (r: u128) {
        self.entropy_score as u128
    }
}

/// The hotspots, highest entropy first; of equal entropy, in the order of detection.
pub open spec fn by_entropy(s: Seq<HotspotView>) -> Seq<HotspotView> {
    sort_by(s, |h: HotspotView| h.entropy_score)
}

/// The file reports, highest entropy first.
pub open spec fn by_total_entropy(s: Seq<FileReportView>) -> Seq<FileReportView> {
    sort_by(s, |r: FileReportView| r.total_entropy)
}

/// The ranked hotspots, highest entropy first.
pub open spec fn by_rank(s: Seq<RankedView>) -> Seq<RankedView> {
    sort_by(s, |r: RankedView| r.entropy_score)
}

/// How far a scan has come.
pub struct Progress {
    pub state: ScanView,
    pub lines_scanned: nat,
    pub hotspots: Seq<HotspotView>,
}

/// The hotspots that reach the minimum score.
pub open spec fn at_least(s: Seq<HotspotView>, min_score: nat) -> Seq<HotspotView> {
    s.filter(|h: HotspotView| h.entropy_score >= min_score)
}

/// The scan after the first `n` lines.
pub open spec fn scan_prefix(
    lines: Seq<Seq<char>>,
    matches: Seq<MatchView>,
    rules: Seq<RuleView>,
    language: Seq<char>,
    min_score: nat,
    n: nat,
) -> Progress
    decreases n,
{
    if n == 0 {
        Progress { state: initial_state(), lines_scanned: 0, hotspots: Seq::empty() }
    } else {
        let p = scan_prefix(lines, matches, rules, language, min_score, (n - 1) as nat);
        let line = lines[n - 1];
        let m = matches[n - 1];
        if skips(lines, language, (n - 1) as nat) {
            p
        } else {
            let state = after_line(p.state, line, language, m);
            Progress {
                state,
                lines_scanned: p.lines_scanned + 1,
                hotspots: p.hotspots + at_least(hotspots_of(state, line, n, rules, m), min_score),
            }
        }
    }
}

/// The sum of the entropy of hotspots.
pub open spec fn entropy_sum(s: Seq<HotspotView>) -> nat {
    sum_by(s, |h: HotspotView| h.entropy_score)
}

/// The mean of `n` values that add up to `total`, rounded half up; 0 for no values.
pub open spec fn rounded_mean(total: nat, n: nat) -> nat {
    if n == 0 {
        0
    } else {
        (2 * total + n) / (2 * n)
    }
}

/// The report of a file, given what the regular expressions find in its lines.
pub open spec fn report_of(
    file_path: Seq<char>,
    lines: Seq<Seq<char>>,
    matches: Seq<MatchView>,
    rules: Seq<RuleView>,
    language: Seq<char>,
    min_score: nat,
) -> FileReportView {
    let p = scan_prefix(lines, matches, rules, language, min_score, lines.len());
    let hotspots = by_entropy(p.hotspots);
    FileReportView {
        file_path,
        language,
        lines_scanned: p.lines_scanned,
        total_entropy: entropy_sum(hotspots),
        mean_hotspot_entropy: rounded_mean(entropy_sum(hotspots), hotspots.len()),
        hotspots,
    }
}

/// What the regular expressions of a language find in each of the lines.
pub open spec fn matches_of_lines(lines: Seq<Seq<char>>, language: Seq<char>) -> Seq<MatchView> {
    lines.map_values(
        |l: Seq<char>|
            matches_of(l, language, func_pattern(language), rule_table_for(language)),
    )
}

/// The report of a file by its name and content. There is none for a file that is too
/// large, binary, not UTF-8, or whose name has no language.
pub open spec fn scan_result(
    file_path: Seq<char>,
    file_name: Seq<char>,
    content: Seq<u8>,
    min_score: nat,
) -> Option<FileReportView> {
    if content.len() > MAX_FILE_SIZE_BYTES || looks_binary(content) {
        None
    } else {
        match (language_of(file_name), text_lines(content)) {
            (Some(language), Some(lines)) => Some(
                report_of(
                    file_path,
                    lines,
                    matches_of_lines(lines, language),
                    rule_table_for(language),
                    language,
                    min_score,
                ),
            ),
            _ => None,
        }
    }
}

/// The number of hotspots in all files.
pub open spec fn hotspot_count(s: Seq<FileReportView>) -> nat {
    sum_by(s, |r: FileReportView| r.hotspots.len())
}

/// The sum of the entropy of all files.
pub open spec fn total_entropy_sum(s: Seq<FileReportView>) -> nat {
    sum_by(s, |r: FileReportView| r.total_entropy)
}

/// The report of a scan of all files.
pub open spec fn full_report(
    files: Seq<FileReportView>,
    scanned_directory: Seq<char>,
    engine_version: Seq<char>,
    generated_at: Seq<char>,
) -> ReportView {
    ReportView {
        engine_version,
        generated_at,
        scanned_directory,
        files_analyzed: files.len(),
        total_hotspots: hotspot_count(files),
        global_entropy: total_entropy_sum(files),
        file_reports: by_total_entropy(files),
    }
}

/// The hotspots of one file, each with the file.
pub open spec fn ranked_of(r: FileReportView) -> Seq<RankedView> {
    r.hotspots.map_values(
        |h: HotspotView|
            RankedView {
                entropy_score: h.entropy_score,
                file_path: r.file_path,
                line_number: h.line_number,
                vulnerability_type: h.vulnerability_type,
            },
    )
}

/// The hotspots of all files, file by file.
pub open spec fn all_ranked(s: Seq<FileReportView>) -> Seq<RankedView>
    decreases s.len(),
{
    if s.len() == 0 {
        Seq::empty()
    } else {
        all_ranked(s.drop_last()) + ranked_of(s.last())
    }
}

/// The first `n` elements, or all of them where there are fewer.
pub open spec fn first_n<T>(s: Seq<T>, n: nat) -> Seq<T> {
    if n < s.len() {
        s.take(n as int)
    } else {
        s
    }
}

/// Appends to `out` those of the hotspots found that reach the minimum score.
fn append_at_least(out: &mut Vec<Hotspot>, found: Vec<Hotspot>, min_score: u64)
    ensures
        hotspot_views(final(out)@) == hotspot_views(old(out)@) + at_least(
            hotspot_views(found@),
            min_score as nat,
        ),
{
    let ghost views = hotspot_views(found@);
    let ghost start = hotspot_views(out@);
    let ghost keep = |h: HotspotView| h.entropy_score >= min_score as nat;
    proof {
        assert(views.take(0).filter(keep) =~= Seq::<HotspotView>::empty()) by {
            reveal(Seq::filter);
        }
    }
    for h in it: found
        invariant
            it.seq() == found@,
            views == hotspot_views(found@),
            keep == (|h: HotspotView| h.entropy_score >= min_score as nat),
            hotspot_views(out@) == start + views.take(it.index()).filter(keep),
    {
        let ghost i = it.index();
        let ghost before = out@;
        let ghost x = h;
        proof {
            reveal(Seq::filter);
            assert(views.take(i + 1).drop_last() == views.take(i));
            assert(views.take(i + 1).last() == h@);
        }
        if h.entropy_score >= min_score {
            out.push(h);
            assert(hotspot_views(out@) == hotspot_views(before).push(x@));
        }
    }
    assert(views.take(views.len() as int) == views);
}

fn sum_entropy(hotspots: &Vec<Hotspot>) -> (r: u128)
    ensures
        r == entropy_sum(hotspot_views(hotspots@)),
{
    let ghost views = hotspot_views(hotspots@);
    let mut total: u128 = 0;
    let mut i: usize = 0;
    while i < hotspots.len()
        invariant
            i <= hotspots@.len(),
            views == hotspot_views(hotspots@),
            total == entropy_sum(views.take(i as int)),
            total <= i * u64::MAX,
        decreases hotspots@.len() - i,
    {
        assert(views.take(i + 1).drop_last() == views.take(i as int));
        assert(views.take(i + 1).last() == hotspots@[i as int]@);
        assert(i * u64::MAX + u64::MAX <= u128::MAX && i * u64::MAX + u64::MAX == (i + 1)
            * u64::MAX) by (nonlinear_arith)
            requires
                0 <= i < u64::MAX,
        ;
        total = total + hotspots[i].entropy_score as u128;
        i += 1;
    }
    assert(views.take(i as int) == views);
    total
}

/// The mean of `n` values that add up to `total`, rounded half up; 0 for no values.
pub fn mean_entropy(total: u128, n: usize) -> (r: u128)
    ensures
        r == rounded_mean(total as nat, n as nat),
{
    if n == 0 {
        return 0;
    }
    let d = n as u128;
    let q = total / d;
    let rest = total % d;
    let up = 2 * rest >= d;
    proof {
        let (t, n, q, rest) = (total as int, d as int, q as int, rest as int);
        assert(t == q * n + rest && 0 <= rest < n) by (nonlinear_arith)
            requires
                n > 0,
                t >= 0,
                q == t / n,
                rest == t % n,
        ;
        let a = 2 * t + n;
        let b = 2 * n;
        if up {
            assert(a / b == q + 1) by (nonlinear_arith)
                requires
                    t == q * n + rest,
                    0 <= rest < n,
                    2 * rest >= n,
                    a == 2 * t + n,
                    b == 2 * n,
            ;
        } else {
            assert(a / b == q) by (nonlinear_arith)
                requires
                    t == q * n + rest,
                    0 <= rest < n,
                    2 * rest < n,
                    a == 2 * t + n,
                    b == 2 * n,
            ;
        }
        assert(up ==> q < u128::MAX) by (nonlinear_arith)
            requires
                t == q * n + rest,
                0 <= rest < n,
                up == (2 * rest >= n),
                n > 0,
                q >= 0,
                t <= u128::MAX,
        ;
    }
    if up {
        q + 1
    } else {
        q
    }
}

/// What a list of matches says.
pub open spec fn match_views(v: Seq<LineMatches>) -> Seq<MatchView> {
    v.map_values(|m: LineMatches| m@)
}

/// Scans the lines of a file, given what the regular expressions found in each of them.
pub fn scan_lines(
    file_path: &str,
    lines: &Vec<&str>,
    matches: &Vec<LineMatches>,
    rules: &[PatternRule<'_>],
    language: &str,
    min_score: u64,
) -> (r: FileReport)
    requires
        matches@.len() == lines@.len(),
        forall|i: int|
            0 <= i < matches@.len() ==> (#[trigger] matches@[i]).rule_hits@.len() == rules@.len(),
    ensures
        r@ == report_of(
            file_path@,
            texts(lines@),
            match_views(matches@),
            rule_views(rules@),
            language@,
            min_score as nat,
        ),
{
    let ghost l = texts(lines@);
    let ghost m = match_views(matches@);
    let ghost rv = rule_views(rules@);
    let mut state = ScanState::new();
    let mut found: Vec<Hotspot> = Vec::new();
    let mut lines_scanned: usize = 0;
    let mut open_blocks: usize = 0;
    let mut i: usize = 0;
    assert(hotspot_views(found@) =~= Seq::<HotspotView>::empty());
    while i < lines.len()
        invariant
            i <= lines@.len(),
            matches@.len() == lines@.len(),
            forall|i: int|
                0 <= i < matches@.len() ==> (#[trigger] matches@[i]).rule_hits@.len()
                    == rules@.len(),
            l == texts(lines@),
            m == match_views(matches@),
            rv == rule_views(rules@),
            lines_scanned <= i,
            open_blocks == block_depth(l, language@, i as nat),
            ({
                let p = scan_prefix(l, m, rv, language@, min_score as nat, i as nat);
                &&& p.state == state@
                &&& p.lines_scanned == lines_scanned
                &&& p.hotspots == hotspot_views(found@)
            }),
        decreases lines@.len() - i,
    {
        let line = lines[i];
        assert(l[i as int] == line@);
        assert(m[i as int] == matches@[i as int]@);
        let (commented, open) = read_comments(line, language, open_blocks);
        open_blocks = open;
        if !commented && !(i == 0 && hashbang(line)) {
            lines_scanned += 1;
            let hotspots = analyze_matches(line, i + 1, &mut state, rules, &matches[i], language);
            append_at_least(&mut found, hotspots, min_score);
        }
        i += 1;
    }
    let ghost detected = hotspot_views(found@);
    let hotspots = sort_descending(found);
    proof {
        lemma_sort_map(
            found@,
            |h: Hotspot| h@,
            rank_key::<Hotspot>(),
            |h: HotspotView| h.entropy_score,
        );
        assert(hotspot_views(hotspots@) == by_entropy(detected));
    }
    let total_entropy = sum_entropy(&hotspots);
    FileReport {
        file_path: file_path.to_owned(),
        language: language.to_owned(),
        lines_scanned,
        total_entropy,
        mean_hotspot_entropy: mean_entropy(total_entropy, hotspots.len()),
        hotspots,
    }
}

/// Analyzes a source file by its name and content. `file_path` is how the report calls
/// it. Hotspots below `min_score` (in hundredths of a point) are left out.
pub fn scan_file(
    file_path: &str,
    file_name: &str,
    content: &[u8],
    min_score: u64,
    patterns: &Patterns,
) -> (r: Option<FileReport>)
    ensures
        match r {
            Some(report) => scan_result(file_path@, file_name@, content@, min_score as nat)
                == Some(report@),
            None => scan_result(file_path@, file_name@, content@, min_score as nat) is None,
        },
{
    if content.len() as u64 > MAX_FILE_SIZE_BYTES || is_binary_file(Some(content)) {
        return None;
    }
    let (language, rules) = match detect_language(file_name, patterns) {
        Some(found) => found,
        None => {
            return None;
        },
    };
    let lines = match decode_lines(content) {
        Some(lines) => lines,
        None => {
            return None;
        },
    };
    let func_re = func_regex_for(language, patterns);
    let ghost expected = matches_of_lines(texts(lines@), language@);
    let mut matches: Vec<LineMatches> = Vec::new();
    let mut i: usize = 0;
    while i < lines.len()
        invariant
            i <= lines@.len(),
            expected == matches_of_lines(texts(lines@), language@),
            func_re@ == func_pattern(language@),
            rule_views(rules@) == rule_table_for(language@),
            match_views(matches@) == expected.take(i as int),
            matches@.len() == i,
            forall|j: int|
                0 <= j < matches@.len() ==> (#[trigger] matches@[j]).rule_hits@.len()
                    == rules@.len(),
        decreases lines@.len() - i,
    {
        let ghost before = match_views(matches@);
        let m = match_line(lines[i], &rules, func_re, language, patterns);
        assert(texts(lines@)[i as int] == lines@[i as int]@);
        assert(m@ == expected[i as int]);
        matches.push(m);
        assert(match_views(matches@) == before.push(expected[i as int]));
        assert(expected.take(i + 1) == before.push(expected[i as int]));
        i += 1;
    }
    assert(expected.take(i as int) == expected);
    Some(scan_lines(file_path, &lines, &matches, &rules, language, min_score))
}

fn count_hotspots(reports: &Vec<FileReport>) -> (n: usize)
    requires
        hotspot_count(file_views(reports@)) <= usize::MAX,
    ensures
        n == hotspot_count(file_views(reports@)),
{
    let ghost views = file_views(reports@);
    let mut n: usize = 0;
    let mut i: usize = 0;
    while i < reports.len()
        invariant
            i <= reports@.len(),
            views == file_views(reports@),
            hotspot_count(views) <= usize::MAX,
            n == hotspot_count(views.take(i as int)),
        decreases reports@.len() - i,
    {
        proof {
            assert(views.take(i + 1).drop_last() == views.take(i as int));
            assert(views.take(i + 1).last() == reports@[i as int]@);
            lemma_counts_grow(views, i + 1);
        }
        n = n + reports[i].hotspots.len();
        i += 1;
    }
    assert(views.take(i as int) == views);
    n
}

fn sum_total_entropy(reports: &Vec<FileReport>) -> (total: u128)
    requires
        total_entropy_sum(file_views(reports@)) <= u128::MAX,
    ensures
        total == total_entropy_sum(file_views(reports@)),
{
    let ghost views = file_views(reports@);
    let mut total: u128 = 0;
    let mut i: usize = 0;
    while i < reports.len()
        invariant
            i <= reports@.len(),
            views == file_views(reports@),
            total_entropy_sum(views) <= u128::MAX,
            total == total_entropy_sum(views.take(i as int)),
        decreases reports@.len() - i,
    {
        proof {
            assert(views.take(i + 1).drop_last() == views.take(i as int));
            assert(views.take(i + 1).last() == reports@[i as int]@);
            lemma_counts_grow(views, i + 1);
        }
        total = total + reports[i].total_entropy;
        i += 1;
    }
    assert(views.take(i as int) == views);
    total
}

proof fn lemma_counts_grow(s: Seq<FileReportView>, n: int)
    requires
        0 <= n <= s.len(),
    ensures
        hotspot_count(s.take(n)) <= hotspot_count(s),
        total_entropy_sum(s.take(n)) <= total_entropy_sum(s),
    decreases s.len(),
{
    if n == s.len() {
        assert(s.take(n) == s);
    } else {
        lemma_counts_grow(s.drop_last(), n);
        assert(s.drop_last().take(n) == s.take(n));
    }
}

/// Assembles the report of a scan, with the files of the highest entropy first. The
/// counts have to fit their types.
pub fn build_report(
    file_reports: Vec<FileReport>,
    scanned_directory: &str,
    engine_version: &str,
    generated_at: &str,
) -> (r: ThermodynamicReport)
    requires
        hotspot_count(file_views(file_reports@)) <= usize::MAX,
        total_entropy_sum(file_views(file_reports@)) <= u128::MAX,
    ensures
        r@ == full_report(
            file_views(file_reports@),
            scanned_directory@,
            engine_version@,
            generated_at@,
        ),
{
    let total_hotspots = count_hotspots(&file_reports);
    let global_entropy = sum_total_entropy(&file_reports);
    let files_analyzed = file_reports.len();
    let sorted = sort_descending(file_reports);
    proof {
        lemma_sort_map(
            file_reports@,
            |r: FileReport| r@,
            rank_key::<FileReport>(),
            |r: FileReportView| r.total_entropy,
        );
        assert(file_views(sorted@) == by_total_entropy(file_views(file_reports@)));
    }
    ThermodynamicReport {
        engine_version: engine_version.to_owned(),
        generated_at: generated_at.to_owned(),
        scanned_directory: scanned_directory.to_owned(),
        files_analyzed,
        total_hotspots,
        global_entropy,
        file_reports: sorted,
    }
}

fn append_ranked(out: &mut Vec<RankedHotspot>, report: &FileReport)
    ensures
        ranked_views(final(out)@) == ranked_views(old(out)@) + ranked_of(report@),
{
    let ghost start = ranked_views(out@);
    let ghost all = ranked_of(report@);
    let mut i: usize = 0;
    assert(start + all.take(0) == start);
    while i < report.hotspots.len()
        invariant
            i <= report.hotspots@.len(),
            all == ranked_of(report@),
            ranked_views(out@) == start + all.take(i as int),
        decreases report.hotspots@.len() - i,
    {
        let h = &report.hotspots[i];
        let ranked = RankedHotspot {
            entropy_score: h.entropy_score,
            file_path: report.file_path.clone(),
            line_number: h.line_number,
            vulnerability_type: h.vulnerability_type,
        };
        let ghost before = ranked_views(out@);
        assert(report@.hotspots[i as int] == h@);
        assert(ranked@ == all[i as int]);
        out.push(ranked);
        assert(ranked_views(out@) == before.push(all[i as int]));
        assert(start + all.take(i + 1) == before.push(all[i as int]));
        i += 1;
    }
    assert(all.take(i as int) == all);
}

/// The `n` hotspots of the highest entropy in a report, or all of them where there are
/// fewer. Of equal entropy, those of earlier files come first.
pub fn top_hotspots(report: &ThermodynamicReport, n: usize) -> (r: Vec<RankedHotspot>)
    ensures
        ranked_views(r@) == first_n(by_rank(all_ranked(report@.file_reports)), n as nat),
{
    let ghost files = report@.file_reports;
    let mut all: Vec<RankedHotspot> = Vec::new();
    let mut i: usize = 0;
    assert(ranked_views(all@) =~= Seq::<RankedView>::empty());
    while i < report.file_reports.len()
        invariant
            i <= report.file_reports@.len(),
            files == report@.file_reports,
            ranked_views(all@) == all_ranked(files.take(i as int)),
        decreases report.file_reports@.len() - i,
    {
        assert(files.take(i + 1).drop_last() == files.take(i as int));
        assert(files.take(i + 1).last() == report.file_reports@[i as int]@);
        append_ranked(&mut all, &report.file_reports[i]);
        i += 1;
    }
    assert(files.take(i as int) == files);
    proof {
        lemma_sort_map(
            all@,
            |r: RankedHotspot| r@,
            rank_key::<RankedHotspot>(),
            |r: RankedView| r.entropy_score,
        );
    }
    let mut sorted = sort_descending(all);
    let ghost whole = ranked_views(sorted@);
    assert(whole == by_rank(all_ranked(files)));
    sorted.truncate(n);
    assert(ranked_views(sorted@) == first_n(whole, n as nat));
    sorted
}

} // verus!
