//! What the ranking of a scan holds: all files, all hotspots, in their order.

use crate::report::{
    all_ranked, by_rank, first_n, full_report, ranked_of, FileReportView,
    RankedView,
};
use crate::sort::{
    law_sort_is_descending, law_sort_is_permutation, law_sort_is_stable, ranks_at, sort_by, sum_by,
};
use vstd::prelude::*;

verus! {

/// Sorting puts higher keys first, keeps every element as often as it occurs, and keeps the
/// order of the elements of any one key.
pub proof fn law_sorting_is_stable_and_descending<T>(s: Seq<T>, key: spec_fn(T) -> nat, k: nat)
    ensures
        forall|i: int, j: int|
            0 <= i <= j < s.len() ==> key(sort_by(s, key)[i]) >= key(sort_by(s, key)[j]),
        sort_by(s, key).len() == s.len(),
        sort_by(s, key).to_multiset() == s.to_multiset(),
        sort_by(s, key).filter(|x: T| key(x) == k) == s.filter(|x: T| key(x) == k),
{
    law_sort_is_descending(s, key);
    law_sort_is_permutation(s, key);
    law_sort_is_stable(s, key, k);
    assert(ranks_at(key, k) =~= (|x: T| key(x) == k));
}

/// The hotspots of all files, before they are ranked, are those of each file in turn: that
/// with index `i` of the file with index `f` stands behind all those of the files before.
pub proof fn law_every_hotspot_is_ranked(files: Seq<FileReportView>, f: int, i: int)
    requires
        0 <= f < files.len(),
        0 <= i < files[f].hotspots.len(),
    ensures
        ({
            let at = sum_by(files.take(f), |r: FileReportView| r.hotspots.len()) + i;
            let h = files[f].hotspots[i];
            &&& 0 <= at < all_ranked(files).len()
            &&& all_ranked(files)[at] == (RankedView {
                entropy_score: h.entropy_score,
                file_path: files[f].file_path,
                line_number: h.line_number,
                vulnerability_type: h.vulnerability_type,
            })
        }),
    decreases files.len(),
{
    let init = files.drop_last();
    let before = all_ranked(init);
    lemma_ranked_len(init);
    if f < files.len() - 1 {
        law_every_hotspot_is_ranked(init, f, i);
        assert(init.take(f) =~= files.take(f));
    } else {
        assert(files.take(f) =~= init);
        let at = before.len() as int + i;
        assert(all_ranked(files)[at] == ranked_of(files[f])[i]);
    }
}

proof fn lemma_ranked_len(files: Seq<FileReportView>)
    ensures
        all_ranked(files).len() == sum_by(files, |r: FileReportView| r.hotspots.len()),
    decreases files.len(),
{
    if files.len() > 0 {
        lemma_ranked_len(files.drop_last());
    }
}

/// Nothing is ranked but the hotspots of the files.
proof fn lemma_ranked_source(files: Seq<FileReportView>, at: int) -> (source: (int, int))
    requires
        0 <= at < all_ranked(files).len(),
    ensures
        0 <= source.0 < files.len(),
        0 <= source.1 < files[source.0].hotspots.len(),
        all_ranked(files)[at] == (RankedView {
            entropy_score: files[source.0].hotspots[source.1].entropy_score,
            file_path: files[source.0].file_path,
            line_number: files[source.0].hotspots[source.1].line_number,
            vulnerability_type: files[source.0].hotspots[source.1].vulnerability_type,
        }),
    decreases files.len(),
{
    let init = files.drop_last();
    let before = all_ranked(init);
    if at < before.len() {
        let source = lemma_ranked_source(init, at);
        assert(init[source.0] == files[source.0]);
        source
    } else {
        let f = files.len() - 1;
        assert(all_ranked(files)[at] == ranked_of(files[f])[at - before.len()]);
        (f, at - before.len())
    }
}

/// The top hotspots are taken from all hotspots of all files: there are as many as asked for,
/// or all of them where there are fewer, highest entropy first. Every hotspot of every file
/// is among them or has an entropy no higher than any of theirs, and each of them is one of a
/// file.
pub proof fn law_top_is_taken_from_all(files: Seq<FileReportView>, n: nat)
    ensures
        ({
            let top = first_n(by_rank(all_ranked(files)), n);
            let all = sum_by(files, |r: FileReportView| r.hotspots.len());
            &&& top.len() == if n < all {
                n
            } else {
                all
            }
            &&& forall|i: int, j: int|
                0 <= i <= j < top.len() ==> top[i].entropy_score >= top[j].entropy_score
            &&& forall|f: int, i: int, j: int|
                #![trigger files[f].hotspots[i], top[j]]
                0 <= f < files.len() && 0 <= i < files[f].hotspots.len() && 0 <= j < top.len()
                    ==> top.contains(
                    (RankedView {
                        entropy_score: files[f].hotspots[i].entropy_score,
                        file_path: files[f].file_path,
                        line_number: files[f].hotspots[i].line_number,
                        vulnerability_type: files[f].hotspots[i].vulnerability_type,
                    }),
                ) || files[f].hotspots[i].entropy_score <= top[j].entropy_score
            &&& forall|j: int|
                0 <= j < top.len() ==> exists|f: int, i: int|
                    0 <= f < files.len() && 0 <= i < files[f].hotspots.len()
                        && #[trigger] files[f].hotspots[i].entropy_score
                        == top[j].entropy_score && files[f].file_path == (
                    #[trigger] top[j]).file_path && files[f].hotspots[i].line_number
                        == top[j].line_number && files[f].hotspots[i].vulnerability_type
                        == top[j].vulnerability_type
        }),
{
    broadcast use vstd::seq_lib::group_to_multiset_ensures;

    let key = |r: RankedView| r.entropy_score;
    let all = all_ranked(files);
    let sorted = by_rank(all);
    let top = first_n(sorted, n);
    lemma_ranked_len(files);
    law_sort_is_descending(all, key);
    law_sort_is_permutation(all, key);
    assert forall|f: int, i: int, j: int|
        #![trigger files[f].hotspots[i], top[j]]
        0 <= f < files.len() && 0 <= i < files[f].hotspots.len() && 0 <= j < top.len()
        implies top.contains(
        (RankedView {
            entropy_score: files[f].hotspots[i].entropy_score,
            file_path: files[f].file_path,
            line_number: files[f].hotspots[i].line_number,
            vulnerability_type: files[f].hotspots[i].vulnerability_type,
        }),
    ) || files[f].hotspots[i].entropy_score <= top[j].entropy_score by {
        law_every_hotspot_is_ranked(files, f, i);
        let at = sum_by(files.take(f), |r: FileReportView| r.hotspots.len()) + i;
        let x = all[at];
        assert(all.contains(x));
        assert(all.to_multiset().count(x) > 0);
        assert(sorted.to_multiset().count(x) > 0);
        assert(sorted.contains(x));
        let p = choose|p: int| 0 <= p < sorted.len() && sorted[p] == x;
        if p < top.len() {
            assert(top[p] == x);
        } else {
            assert(key(sorted[j]) >= key(sorted[p]));
        }
    }
    assert forall|j: int| 0 <= j < top.len() implies exists|f: int, i: int|
        0 <= f < files.len() && 0 <= i < files[f].hotspots.len()
            && #[trigger] files[f].hotspots[i].entropy_score == top[j].entropy_score
            && files[f].file_path == (#[trigger] top[j]).file_path
            && files[f].hotspots[i].line_number == top[j].line_number
            && files[f].hotspots[i].vulnerability_type == top[j].vulnerability_type by {
        let x = sorted[j];
        assert(sorted.contains(x));
        assert(sorted.to_multiset().count(x) > 0);
        assert(all.to_multiset().count(x) > 0);
        assert(all.contains(x));
        let at = choose|at: int| 0 <= at < all.len() && all[at] == x;
        let source = lemma_ranked_source(files, at);
        assert(files[source.0].hotspots[source.1].entropy_score == top[j].entropy_score);
    }
    assert forall|i: int, j: int| 0 <= i <= j < top.len() implies top[i].entropy_score
        >= top[j].entropy_score by {
        assert(key(sorted[i]) >= key(sorted[j]));
    }
}

/// The hotspots of a report, ranked, are each as often in the ranking as in the files, and
/// of equal entropy in the order of the files; the top is where the ranking begins.
pub proof fn law_top_begins_the_ranking(files: Seq<FileReportView>, n: nat, e: nat)
    ensures
        first_n(by_rank(all_ranked(files)), n).is_prefix_of(by_rank(all_ranked(files))),
        by_rank(all_ranked(files)).to_multiset() == all_ranked(files).to_multiset(),
        by_rank(all_ranked(files)).filter(|r: RankedView| r.entropy_score == e) == all_ranked(
            files,
        ).filter(|r: RankedView| r.entropy_score == e),
        all_ranked(files).len() == sum_by(files, |r: FileReportView| r.hotspots.len()),
{
    let key = |r: RankedView| r.entropy_score;
    let all = all_ranked(files);
    let sorted = by_rank(all);
    lemma_ranked_len(files);
    law_sort_is_permutation(all, key);
    law_sort_is_stable(all, key, e);
    assert(ranks_at(key, e) =~= (|r: RankedView| r.entropy_score == e));
    let top = first_n(sorted, n);
    assert(top =~= sorted.take(top.len() as int));
}

/// The report of a scan carries what it is given, counts the files and their hotspots, adds up
/// their entropy, and lists every file as often as it is given, highest entropy first and,
/// among equals, in the order given.
pub proof fn law_full_report_counts_everything(
    files: Seq<FileReportView>,
    directory: Seq<char>,
    version: Seq<char>,
    time: Seq<char>,
    e: nat,
)
    ensures
        ({
            let r = full_report(files, directory, version, time);
            &&& r.scanned_directory == directory
            &&& r.engine_version == version
            &&& r.generated_at == time
            &&& r.files_analyzed == files.len()
            &&& r.total_hotspots == sum_by(files, |f: FileReportView| f.hotspots.len())
            &&& r.global_entropy == sum_by(files, |f: FileReportView| f.total_entropy)
            &&& r.file_reports.len() == files.len()
            &&& r.file_reports.to_multiset() == files.to_multiset()
            &&& forall|i: int, j: int|
                0 <= i <= j < files.len() ==> r.file_reports[i].total_entropy
                    >= r.file_reports[j].total_entropy
            &&& r.file_reports.filter(|f: FileReportView| f.total_entropy == e) == files.filter(
                |f: FileReportView| f.total_entropy == e,
            )
        }),
{
    let key = |f: FileReportView| f.total_entropy;
    let r = full_report(files, directory, version, time);
    law_sort_is_descending(files, key);
    law_sort_is_permutation(files, key);
    law_sort_is_stable(files, key, e);
    assert(ranks_at(key, e) =~= (|f: FileReportView| f.total_entropy == e));
    assert forall|i: int, j: int| 0 <= i <= j < files.len() implies r.file_reports[i].total_entropy
        >= r.file_reports[j].total_entropy by {
        assert(key(r.file_reports[i]) >= key(r.file_reports[j]));
    }
}

} // verus!
