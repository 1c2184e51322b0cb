//! Cross-operation laws of the pool, proved once and for all: donation
//! accounting over whole batches of donations, and the persistence of
//! application uniqueness.

use vstd::prelude::*;

use crate::lookup::{lemma_donor_index_found, lemma_donor_index_spec};
use crate::pool::{apply_error, approve_error, distribute_error, donate_error};
use crate::types::{
    donate_step, donor_count, donor_index, donor_total, has_application, Donor, ScholarshipPool,
    StudentApplication,
};
use crate::errors::Error;

verus! {

/// Total amount of a batch of donations, each an (identity, amount) pair.
pub open spec fn sum_amounts(ds: Seq<(u64, i128)>) -> int
    decreases ds.len(),
{
    if ds.len() == 0 {
        0
    } else {
        sum_amounts(ds.drop_last()) + ds.last().1
    }
}

/// Total donated by identity `d` within the batch.
pub open spec fn sum_for(ds: Seq<(u64, i128)>, d: u64) -> int
    decreases ds.len(),
{
    if ds.len() == 0 {
        0
    } else {
        sum_for(ds.drop_last(), d) + if ds.last().0 == d {
            ds.last().1 as int
        } else {
            0int
        }
    }
}

/// Number of donations by identity `d` within the batch.
pub open spec fn count_for(ds: Seq<(u64, i128)>, d: u64) -> int
    decreases ds.len(),
{
    if ds.len() == 0 {
        0
    } else {
        count_for(ds.drop_last(), d) + if ds.last().0 == d {
            1int
        } else {
            0int
        }
    }
}

/// The donor ledger after the batch is recorded in order, one `donate_step`
/// per donation — exactly what `donate`'s contract says each successful call
/// does to the ledger.
pub open spec fn run_donations(donors: Seq<Donor>, ds: Seq<(u64, i128)>) -> Seq<Donor>
    decreases ds.len(),
{
    if ds.len() == 0 {
        donors
    } else {
        donate_step(run_donations(donors, ds.drop_last()), ds.last().0, ds.last().1)
    }
}

/// The pool balance after the batch is credited in order — exactly what
/// `donate`'s contract says each successful call does to the balance.
pub open spec fn run_balance(balance: int, ds: Seq<(u64, i128)>) -> int
    decreases ds.len(),
{
    if ds.len() == 0 {
        balance
    } else {
        run_balance(balance, ds.drop_last()) + ds.last().1
    }
}

/// Recording one more donation after a batch is one more `donate_step`, so a
/// chain of successful `donate` calls reaches exactly the ledger
/// `run_donations` describes.
pub proof fn lemma_run_donations_push(
    donors: Seq<Donor>,
    ds: Seq<(u64, i128)>,
    from: u64,
    amount: i128,
)
    ensures
        run_donations(donors, ds.push((from, amount))) == donate_step(
            run_donations(donors, ds),
            from,
            amount,
        ),
{
    assert(ds.push((from, amount)).drop_last() =~= ds);
}

/// Per-donor aggregates stay within the batch-wide aggregates when every
/// donation is positive.
pub proof fn lemma_per_donor_bounds(ds: Seq<(u64, i128)>, d: u64)
    requires
        forall|i: int| 0 <= i < ds.len() ==> (#[trigger] ds[i]).1 > 0,
    ensures
        0 <= sum_for(ds, d) <= sum_amounts(ds),
        0 <= count_for(ds, d) <= ds.len(),
    decreases ds.len(),
{
    if ds.len() > 0 {
        let pre = ds.drop_last();
        assert(forall|i: int| 0 <= i < pre.len() ==> pre[i] == ds[i]);
        assert(ds.last() == ds[ds.len() - 1]);
        lemma_per_donor_bounds(pre, d);
    }
}

/// `donor_index` looks only at addresses, so updates that keep every address
/// in place keep every donor's position.
proof fn lemma_donor_index_addresses(s1: Seq<Donor>, s2: Seq<Donor>, d: u64)
    requires
        s1.len() == s2.len(),
        forall|k: int| 0 <= k < s1.len() ==> (#[trigger] s1[k]).address == s2[k].address,
    ensures
        donor_index(s1, d) == donor_index(s2, d),
    decreases s1.len(),
{
    if s1.len() > 0 && s1[0].address != d {
        let r1 = s1.drop_first();
        let r2 = s2.drop_first();
        assert(forall|k: int| 0 <= k < r1.len() ==> r1[k] == s1[k + 1] && r2[k] == s2[k + 1]);
        lemma_donor_index_addresses(r1, r2, d);
    }
}

/// One recorded donation credits exactly its donor: the donor's total grows
/// by the amount and its count by one, and every other identity's aggregates
/// are untouched.
pub proof fn lemma_donate_step_accounting(s: Seq<Donor>, from: u64, amount: i128, d: u64)
    requires
        amount > 0,
        donor_total(s, from) >= 0,
        donor_total(s, from) + amount <= i128::MAX,
        donor_count(s, from) >= 0,
        donor_count(s, from) < u32::MAX,
    ensures
        donor_total(donate_step(s, from, amount), d) == donor_total(s, d) + if d == from {
            amount as int
        } else {
            0int
        },
        donor_count(donate_step(s, from, amount), d) == donor_count(s, d) + if d == from {
            1int
        } else {
            0int
        },
{
    lemma_donor_index_spec(s, from);
    lemma_donor_index_spec(s, d);
    let i = donor_index(s, from);
    let post = donate_step(s, from, amount);
    if i >= 0 {
        assert(forall|k: int| 0 <= k < s.len() ==> (#[trigger] post[k]).address == s[k].address);
        lemma_donor_index_addresses(post, s, d);
        if d != from {
            let j = donor_index(s, d);
            if j >= 0 {
                assert(j != i);
                assert(post[j] == s[j]);
            }
        }
    } else {
        if d == from {
            lemma_donor_index_found(post, from, s.len() as int);
        } else {
            let j = donor_index(s, d);
            if j >= 0 {
                assert(forall|k: int| 0 <= k < j ==> post[k] == s[k]);
                lemma_donor_index_found(post, d, j);
                assert(post[j] == s[j]);
            } else {
                lemma_donor_index_spec(post, d);
                assert(forall|k: int| 0 <= k < s.len() ==> post[k] == s[k]);
                assert(donor_index(post, d) == -1) by {
                    if donor_index(post, d) >= 0 {
                        let w = donor_index(post, d);
                        assert(post[w].address == d);
                        assert(w < s.len());
                    }
                }
            }
        }
    }
}

/// Donation accounting: after a batch of positive donations lands on an
/// empty ledger, each identity's recorded total is exactly the sum of its
/// own donations and its recorded count exactly their number — for every
/// identity, donors and strangers alike.
pub proof fn lemma_donation_accounting(ds: Seq<(u64, i128)>, d: u64)
    requires
        forall|i: int| 0 <= i < ds.len() ==> (#[trigger] ds[i]).1 > 0,
        sum_amounts(ds) <= i128::MAX,
        ds.len() <= u32::MAX,
    ensures
        donor_total(run_donations(Seq::empty(), ds), d) == sum_for(ds, d),
        donor_count(run_donations(Seq::empty(), ds), d) == count_for(ds, d),
    decreases ds.len(),
{
    if ds.len() == 0 {
    } else {
        let pre = ds.drop_last();
        let from = ds.last().0;
        let amount = ds.last().1;
        assert(forall|i: int| 0 <= i < pre.len() ==> pre[i] == ds[i]);
        assert(ds.last() == ds[ds.len() - 1]);
        lemma_per_donor_bounds(pre, from);
        lemma_donation_accounting(pre, d);
        lemma_donation_accounting(pre, from);
        lemma_donate_step_accounting(run_donations(Seq::empty(), pre), from, amount, d);
    }
}

/// Balance accounting: crediting a batch of donations in order raises the
/// balance by exactly the batch's total.
pub proof fn lemma_balance_accounting(balance: int, ds: Seq<(u64, i128)>)
    ensures
        run_balance(balance, ds) == balance + sum_amounts(ds),
    decreases ds.len(),
{
    if ds.len() > 0 {
        lemma_balance_accounting(balance, ds.drop_last());
    }
}

/// Authority: a privileged operation called by any identity other than the
/// pool's creator fails `Unauthorized`, whatever the clock says and whatever
/// the registries hold.
pub proof fn lemma_authority_gate(
    p: ScholarshipPool,
    apps: Seq<StudentApplication>,
    caller: u64,
    now: u64,
)
    requires
        p.creator != caller,
    ensures
        approve_error(Some(p), apps, caller, now) == Some(Error::Unauthorized),
        distribute_error(Some(p), caller, now) == Some(Error::Unauthorized),
{
}

/// Deadline gating: an application after the application deadline, an
/// allocation before it, and a distribution before the distribution deadline
/// each fail with their own error, once the gates ahead of them pass.
pub proof fn lemma_deadline_gate(
    p: ScholarshipPool,
    apps: Seq<StudentApplication>,
    student: u64,
    gpa: i128,
    financial_need_score: i128,
    caller: u64,
    now: u64,
)
    ensures
        now > p.application_deadline ==> apply_error(
            Some(p),
            apps,
            student,
            gpa,
            financial_need_score,
            now,
        ) == Some(Error::ApplicationDeadlinePassed),
        caller == p.creator && now < p.application_deadline ==> approve_error(
            Some(p),
            apps,
            caller,
            now,
        ) == Some(Error::ApplicationsStillOpen),
        caller == p.creator && now < p.distribution_deadline ==> distribute_error(
            Some(p),
            caller,
            now,
        ) == Some(Error::DistributionNotReady),
{
}

/// Terminal state: once a pool is inactive — as every successful
/// distribution leaves it, by `distribute_scholarships`'s contract — every
/// positive donation fails `PoolNotActive`, and so does any further
/// distribution, however late the clock runs.
pub proof fn lemma_terminal_pool(p: ScholarshipPool, amount: i128, caller: u64, now: u64)
    requires
        !p.is_active,
    ensures
        amount > 0 ==> donate_error(Some(p), amount) == Some(Error::PoolNotActive),
        caller == p.creator && now >= p.distribution_deadline ==> distribute_error(
            Some(p),
            caller,
            now,
        ) == Some(Error::PoolNotActive),
{
}

/// Application uniqueness persists: once an identity has an application on
/// file, it still has one after any further submission is recorded, so by
/// `apply_for_scholarship`'s contract a repeated application from that
/// identity fails with `AlreadyApplied` no matter what its fields say.
pub proof fn lemma_application_uniqueness(
    apps: Seq<StudentApplication>,
    extra: StudentApplication,
    student: u64,
)
    requires
        has_application(apps, student),
    ensures
        has_application(apps.push(extra), student),
{
    let i = choose|i: int|
        0 <= i < apps.len() && (#[trigger] apps[i]).student_address == student;
    assert(apps.push(extra)[i] == apps[i]);
}

} // verus!
