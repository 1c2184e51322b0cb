//! The merit-ranking pass: orders applications by descending merit key,
//! breaking ties by earlier submission. The current tiering policy awards
//! every applicant the same amount, so the rank decides nothing about who is
//! paid; the pass is still kept explicit and observable as the hook for
//! rank-dependent policies.

use vstd::prelude::*;

use crate::types::{
    distinct_applicants, merit_key, ranked, ranked_before_eq, valid_scores, StudentApplication,
};

verus! {

/// Compare two applications for ranked order.
fn ranked_before_eq_exec(a: &StudentApplication, b: &StudentApplication) -> (r: bool)
    requires
        valid_scores(*a),
        valid_scores(*b),
    ensures
        r == ranked_before_eq(*a, *b),
{
    let ka = a.gpa + a.financial_need_score;
    let kb = b.gpa + b.financial_need_score;
    ka > kb || (ka == kb && a.application_timestamp <= b.application_timestamp)
}

/// A registry with no two applications from the same identity keeps that
/// shape under any reordering: equal multisets carry distinctness across.
pub proof fn lemma_distinct_applicants_transfer(
    s1: Seq<StudentApplication>,
    s2: Seq<StudentApplication>,
)
    requires
        s1.to_multiset() == s2.to_multiset(),
        distinct_applicants(s1),
    ensures
        distinct_applicants(s2),
{
    broadcast use vstd::seq_lib::group_to_multiset_ensures;

    assert(s1.no_duplicates()) by {
        assert forall|i: int, j: int|
            0 <= i < s1.len() && 0 <= j < s1.len() && i != j implies s1[i] != s1[j] by {
            if i < j {
                assert(s1[i].student_address != s1[j].student_address);
            } else {
                assert(s1[j].student_address != s1[i].student_address);
            }
        }
    }
    s1.lemma_multiset_has_no_duplicates();
    s2.lemma_multiset_has_no_duplicates_conv();
    assert forall|i: int, j: int|
        0 <= i < j < s2.len() implies (#[trigger] s2[i]).student_address
        != (#[trigger] s2[j]).student_address by {
        assert(s2[i] != s2[j]);
        assert(s2.contains(s2[i]) && s2.contains(s2[j]));
        assert(s1.to_multiset().count(s2[i]) > 0 && s1.to_multiset().count(s2[j]) > 0);
        assert(s1.contains(s2[i]) && s1.contains(s2[j]));
        let k = choose|k: int| 0 <= k < s1.len() && s1[k] == s2[i];
        let l = choose|l: int| 0 <= l < s1.len() && s1[l] == s2[j];
        assert(k != l);
    }
}

/// Rank applications by merit, highest first, ties broken by earlier
/// submission. The result is a permutation of the input, holding exactly the
/// same applications.
pub fn rank_applications(apps: &Vec<StudentApplication>) -> (r: Vec<StudentApplication>)
    requires
        forall|i: int| 0 <= i < apps@.len() ==> valid_scores(#[trigger] apps@[i]),
    ensures
        r@.to_multiset() == apps@.to_multiset(),
        r@.len() == apps@.len(),
        ranked(r@),
        forall|x: StudentApplication| r@.contains(x) <==> apps@.contains(x),
        distinct_applicants(apps@) ==> distinct_applicants(r@),
{
    broadcast use vstd::seq_lib::group_to_multiset_ensures;

    let n = apps.len();
    let mut out: Vec<StudentApplication> = Vec::new();
    assert(out@.to_multiset() =~= apps@.subrange(0, 0).to_multiset());
    for idx in 0..n
        invariant
            n == apps@.len(),
            forall|i: int| 0 <= i < apps@.len() ==> valid_scores(#[trigger] apps@[i]),
            out@.to_multiset() == apps@.subrange(0, idx as int).to_multiset(),
            out@.len() == idx,
            ranked(out@),
            forall|k: int| 0 <= k < out@.len() ==> valid_scores(#[trigger] out@[k]),
    {
        let a = apps[idx].clone();
        let mut pos: usize = 0;
        while pos < out.len() && ranked_before_eq_exec(&out[pos], &a)
            invariant
                pos <= out@.len(),
                forall|k: int| 0 <= k < pos ==> ranked_before_eq(#[trigger] out@[k], a),
                forall|k: int| 0 <= k < out@.len() ==> valid_scores(#[trigger] out@[k]),
                valid_scores(a),
            decreases out@.len() - pos,
        {
            pos = pos + 1;
        }
        proof {
            out@.insert_ensures(pos as int, a);
            let merged = out@.insert(pos as int, a);
            assert forall|i: int, j: int|
                0 <= i < j < merged.len() implies ranked_before_eq(merged[i], merged[j]) by {
                if pos < out@.len() {
                    // `a` ranks at or before everything from `pos` on
                    assert(!ranked_before_eq(out@[pos as int], a));
                    assert(merit_key(a) >= merit_key(out@[pos as int]));
                }
                if j < pos {
                    assert(merged[i] == out@[i] && merged[j] == out@[j]);
                } else if i < pos && j == pos {
                    assert(merged[i] == out@[i] && merged[j] == a);
                } else if i < pos && j > pos {
                    assert(merged[i] == out@[i] && merged[j] == out@[j - 1]);
                } else if i == pos {
                    assert(merged[i] == a && merged[j] == out@[j - 1]);
                    assert(ranked_before_eq(out@[pos as int], out@[j - 1]));
                } else {
                    assert(merged[i] == out@[i - 1] && merged[j] == out@[j - 1]);
                }
            }
            assert(apps@.subrange(0, idx + 1) =~= apps@.subrange(0, idx as int).push(apps@[idx as int]));
        }
        let ghost out_pre = out@;
        out.insert(pos, a);
        proof {
            vstd::seq_lib::to_multiset_insert(out_pre, pos as int, a);
            vstd::seq_lib::to_multiset_build(apps@.subrange(0, idx as int), apps@[idx as int]);
            assert(out@.to_multiset() == apps@.subrange(0, idx + 1).to_multiset());
        }
    }
    proof {
        assert(apps@.subrange(0, n as int) =~= apps@);
        if distinct_applicants(apps@) {
            lemma_distinct_applicants_transfer(apps@, out@);
        }
        assert forall|x: StudentApplication| out@.contains(x) <==> apps@.contains(x) by {
            assert(out@.to_multiset().count(x) == apps@.to_multiset().count(x));
        }
    }
    out
}

} // verus!
