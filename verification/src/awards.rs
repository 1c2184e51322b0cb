//! Arithmetic behind allocation and distribution: the division threshold the
//! tiering decision rests on, and aggregate facts about what a distribution
//! pass pays out.

use vstd::prelude::*;

use crate::types::{
    awarded_amount, count_approved, instructions_total, payout_instructions, total_awarded,
    StudentApplication, TransferInstruction,
};


verus! {

proof fn lemma_div_threshold_core(b: int, n: int, m: int, q: int, r: int)
    by (nonlinear_arith)
    requires
        n > 0,
        m >= 0,
        b >= 0,
        b == n * q + r,
        0 <= r < n,
    ensures
        (q >= m) <==> (b >= m * n),
        q >= 0,
        n * q <= b,
{
}

/// For a non-negative balance `b` and `n > 0` applicants, the equal split
/// `b / n` reaches a per-applicant bound `m` exactly when the balance covers
/// `m` for everyone, and the split never pays out more than the balance.
pub proof fn lemma_div_threshold(b: int, n: int, m: int)
    requires
        b >= 0,
        n > 0,
        m >= 0,
    ensures
        (b / n >= m) <==> (b >= m * n),
        b / n >= 0,
        n * (b / n) <= b,
{
    vstd::arithmetic::div_mod::lemma_fundamental_div_mod(b, n);
    vstd::arithmetic::div_mod::lemma_mod_bound(b, n);
    lemma_div_threshold_core(b, n, m, b / n, b % n);
}

/// A distribution pass never pays a negative aggregate.
pub proof fn lemma_total_awarded_nonneg(s: Seq<StudentApplication>)
    ensures
        total_awarded(s) >= 0,
    decreases s.len(),
{
    if s.len() > 0 {
        lemma_total_awarded_nonneg(s.drop_last());
    }
}

/// Extending the distributed prefix by one application adds exactly that
/// application's contribution, and appends its transfer instruction when one
/// is owed.
pub proof fn lemma_distribution_step(s: Seq<StudentApplication>, i: int)
    requires
        0 <= i < s.len(),
    ensures
        total_awarded(s.subrange(0, i + 1)) == total_awarded(s.subrange(0, i)) + awarded_amount(
            s[i],
        ),
        payout_instructions(s.subrange(0, i + 1)) == if s[i].is_approved && s[i].scholarship_amount
            > 0 {
            payout_instructions(s.subrange(0, i)).push(
                (TransferInstruction { to: s[i].student_address, amount: s[i].scholarship_amount }),
            )
        } else {
            payout_instructions(s.subrange(0, i))
        },
        count_approved(s.subrange(0, i + 1)) == count_approved(s.subrange(0, i)) + if s[i].is_approved {
            1int
        } else {
            0int
        },
{
    assert(s.subrange(0, i + 1).drop_last() =~= s.subrange(0, i));
    assert(s.subrange(0, i + 1).last() == s[i]);
}

/// What a prefix pays out never exceeds what the whole registry pays out.
pub proof fn lemma_total_awarded_prefix(s: Seq<StudentApplication>, i: int)
    requires
        0 <= i <= s.len(),
    ensures
        total_awarded(s.subrange(0, i)) <= total_awarded(s),
    decreases s.len() - i,
{
    if i == s.len() {
        assert(s.subrange(0, i) =~= s);
    } else {
        lemma_distribution_step(s, i);
        lemma_total_awarded_prefix(s, i + 1);
    }
}

/// When every application carries the same positive award, the distribution
/// pays exactly that award once per application.
pub proof fn lemma_total_awarded_uniform(s: Seq<StudentApplication>, amount: i128)
    requires
        amount >= 0,
        forall|k: int|
            0 <= k < s.len() ==> (#[trigger] s[k]).is_approved && s[k].scholarship_amount
                == amount,
    ensures
        total_awarded(s) == s.len() * amount,
    decreases s.len(),
{
    if s.len() == 0 {
    } else {
        let rest = s.drop_last();
        assert(forall|k: int| 0 <= k < rest.len() ==> rest[k] == s[k]);
        lemma_total_awarded_uniform(rest, amount);
        assert((s.len() - 1) * amount + amount == s.len() * amount) by (nonlinear_arith);
    }
}

/// Balance conservation across distribution: the transfer instructions a
/// pass over `s` emits move exactly the aggregate it debits from the pool,
/// so — by `distribute_scholarships`'s contract — what leaves the balance is
/// precisely what the instructions pay the applicants.
pub proof fn lemma_payout_conservation(s: Seq<StudentApplication>)
    ensures
        instructions_total(payout_instructions(s)) == total_awarded(s),
    decreases s.len(),
{
    if s.len() > 0 {
        lemma_payout_conservation(s.drop_last());
        let rest = payout_instructions(s.drop_last());
        if s.last().is_approved && s.last().scholarship_amount > 0 {
            let t = TransferInstruction {
                to: s.last().student_address,
                amount: s.last().scholarship_amount,
            };
            assert(rest.push(t).drop_last() =~= rest);
        }
    }
}

} // verus!
