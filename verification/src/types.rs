//! The pool's data model: the pool record, applications, donors, transfer
//! instructions, and the spec-level functions that contracts state themselves
//! over.
//!
//! Identities (creator, token, donors, applicants) are opaque principal ids
//! handed in by the host after authentication; the core only compares them
//! for equality, so they are carried as plain `u64` values.

use vstd::prelude::*;

verus! {

/// The singleton funding campaign an instance tracks.
#[derive(Clone, Copy, Debug, PartialEq, Eq, Structural)]
pub struct ScholarshipPool {
    /// Sole authority for allocation and distribution.
    pub creator: u64,
    /// The fungible asset the pool accepts.
    pub token: u64,
    /// Positive funding target; informational, not a cap on the balance.
    pub total_goal: i128,
    /// Non-negative running total: up on donation, down on distribution.
    pub current_balance: i128,
    /// True from creation until distribution completes; gates donations.
    pub is_active: bool,
    /// Upper award bound per applicant, at least `min_scholarship_amount`.
    pub max_scholarship_amount: i128,
    /// Positive lower award bound per applicant.
    pub min_scholarship_amount: i128,
    /// Applications are accepted while `now <= application_deadline`.
    pub application_deadline: u64,
    /// Distribution is allowed once `now >= distribution_deadline`.
    pub distribution_deadline: u64,
}

/// A beneficiary's request for an award, write-once except for the award
/// fields that allocation fills in.
pub struct StudentApplication {
    pub student_address: u64,
    /// Free-form descriptive field, opaque to the core.
    pub name: String,
    /// Free-form descriptive field, opaque to the core.
    pub academic_level: String,
    /// Free-form descriptive field, opaque to the core.
    pub field_of_study: String,
    /// GPA scaled by one hundred, in `[0, 400]`.
    pub gpa: i128,
    /// Financial need on a `[1, 100]` scale.
    pub financial_need_score: i128,
    /// Opaque content address of the essay; not validated here.
    pub essay_hash: String,
    /// False until allocation runs.
    pub is_approved: bool,
    /// Zero until allocation runs, then the tiered award.
    pub scholarship_amount: i128,
    pub application_timestamp: u64,
}

impl Clone for StudentApplication {
    fn clone(&self) -> (r: Self)
        ensures
            r == *self,
    {
        StudentApplication {
            student_address: self.student_address,
            name: self.name.clone(),
            academic_level: self.academic_level.clone(),
            field_of_study: self.field_of_study.clone(),
            gpa: self.gpa,
            financial_need_score: self.financial_need_score,
            essay_hash: self.essay_hash.clone(),
            is_approved: self.is_approved,
            scholarship_amount: self.scholarship_amount,
            application_timestamp: self.application_timestamp,
        }
    }
}

/// Cumulative contribution record of one donor identity.
#[derive(Clone, Copy, Debug, PartialEq, Eq, Structural)]
pub struct Donor {
    pub address: u64,
    /// Sum of all this donor's donations; positive and non-decreasing.
    pub total_contributed: i128,
    /// Number of donations made; at least one and non-decreasing.
    pub contribution_count: u32,
}

/// One payout the distribution pass asks the host's token service to make,
/// from the pool's custodial balance to an approved applicant.
#[derive(Clone, Copy, Debug, PartialEq, Eq, Structural)]
pub struct TransferInstruction {
    pub to: u64,
    pub amount: i128,
}

/// Score ranges an application must satisfy to be accepted.
pub open spec fn valid_scores(a: StudentApplication) -> bool {
    0 <= a.gpa <= 400 && 1 <= a.financial_need_score <= 100
}

/// The award fields are consistent: approval comes with a positive award,
/// and only with approval is an award recorded.
pub open spec fn award_fields_consistent(a: StudentApplication) -> bool {
    &&& a.is_approved ==> a.scholarship_amount > 0
    &&& !a.is_approved ==> a.scholarship_amount == 0
}

/// The additive merit key applications are ranked by: academic component
/// plus need component, higher first.
pub open spec fn merit_key(a: StudentApplication) -> int {
    a.gpa + a.financial_need_score
}

/// `a` may stand at or before `b` in ranked order: strictly higher merit
/// first, ties broken by earlier submission. A total preorder.
pub open spec fn ranked_before_eq(a: StudentApplication, b: StudentApplication) -> bool {
    ||| merit_key(a) > merit_key(b)
    ||| (merit_key(a) == merit_key(b) && a.application_timestamp <= b.application_timestamp)
}

/// The sequence is in ranked order: merit descending, ties by earlier
/// submission.
pub open spec fn ranked(s: Seq<StudentApplication>) -> bool {
    forall|i: int, j: int|
        0 <= i < j < s.len() ==> ranked_before_eq(#[trigger] s[i], #[trigger] s[j])
}

/// No two applications come from the same identity.
pub open spec fn distinct_applicants(s: Seq<StudentApplication>) -> bool {
    forall|i: int, j: int|
        0 <= i < j < s.len() ==> (#[trigger] s[i]).student_address != (#[trigger] s[j]).student_address
}

/// No two donor records belong to the same identity.
pub open spec fn distinct_donors(s: Seq<Donor>) -> bool {
    forall|i: int, j: int|
        0 <= i < j < s.len() ==> (#[trigger] s[i]).address != (#[trigger] s[j]).address
}

/// Some application in `s` was submitted by `student`.
pub open spec fn has_application(s: Seq<StudentApplication>, student: u64) -> bool {
    exists|i: int| 0 <= i < s.len() && (#[trigger] s[i]).student_address == student
}

/// Index of the first application from `student`, or -1 when there is none.
pub open spec fn app_index(s: Seq<StudentApplication>, student: u64) -> int
    decreases s.len(),
{
    if s.len() == 0 {
        -1
    } else if s[0].student_address == student {
        0
    } else {
        let rest = app_index(s.drop_first(), student);
        if rest < 0 {
            -1
        } else {
            rest + 1
        }
    }
}

/// Index of the first donor record for `address`, or -1 when there is none.
pub open spec fn donor_index(s: Seq<Donor>, address: u64) -> int
    decreases s.len(),
{
    if s.len() == 0 {
        -1
    } else if s[0].address == address {
        0
    } else {
        let rest = donor_index(s.drop_first(), address);
        if rest < 0 {
            -1
        } else {
            rest + 1
        }
    }
}

/// Cumulative amount `address` has contributed, zero when unknown.
pub open spec fn donor_total(s: Seq<Donor>, address: u64) -> int {
    let i = donor_index(s, address);
    if i >= 0 {
        s[i].total_contributed as int
    } else {
        0
    }
}

/// Number of donations recorded for `address`, zero when unknown.
pub open spec fn donor_count(s: Seq<Donor>, address: u64) -> int {
    let i = donor_index(s, address);
    if i >= 0 {
        s[i].contribution_count as int
    } else {
        0
    }
}

/// The donor ledger after one donation of `amount` by `from`: the existing
/// record is credited, or a fresh record is created on first contact.
pub open spec fn donate_step(s: Seq<Donor>, from: u64, amount: i128) -> Seq<Donor> {
    let i = donor_index(s, from);
    if i >= 0 {
        s.update(
            i,
            (Donor {
                address: from,
                total_contributed: (s[i].total_contributed + amount) as i128,
                contribution_count: (s[i].contribution_count + 1) as u32,
            }),
        )
    } else {
        s.push((Donor { address: from, total_contributed: amount, contribution_count: 1 }))
    }
}

/// `a` with the award decision filled in; every other field is kept.
pub open spec fn with_award(a: StudentApplication, amount: i128) -> StudentApplication {
    StudentApplication {
        student_address: a.student_address,
        name: a.name,
        academic_level: a.academic_level,
        field_of_study: a.field_of_study,
        gpa: a.gpa,
        financial_need_score: a.financial_need_score,
        essay_hash: a.essay_hash,
        is_approved: true,
        scholarship_amount: amount,
        application_timestamp: a.application_timestamp,
    }
}

/// Every application in `s` with the same award decision filled in.
pub open spec fn awarded_all(s: Seq<StudentApplication>, amount: i128) -> Seq<StudentApplication> {
    s.map_values(|a: StudentApplication| with_award(a, amount))
}

/// What one application contributes to a distribution: its award when it is
/// approved with a positive amount, nothing otherwise.
pub open spec fn awarded_amount(a: StudentApplication) -> int {
    if a.is_approved && a.scholarship_amount > 0 {
        a.scholarship_amount as int
    } else {
        0
    }
}

/// Aggregate amount a distribution pass over `s` pays out.
pub open spec fn total_awarded(s: Seq<StudentApplication>) -> int
    decreases s.len(),
{
    if s.len() == 0 {
        0
    } else {
        total_awarded(s.drop_last()) + awarded_amount(s.last())
    }
}

/// Number of approved applications in `s`.
pub open spec fn count_approved(s: Seq<StudentApplication>) -> int
    decreases s.len(),
{
    if s.len() == 0 {
        0
    } else {
        count_approved(s.drop_last()) + if s.last().is_approved {
            1int
        } else {
            0int
        }
    }
}

/// The transfer instructions a distribution pass over `s` issues, in
/// registry order: one per approved application with a positive award.
pub open spec fn payout_instructions(s: Seq<StudentApplication>) -> Seq<TransferInstruction>
    decreases s.len(),
{
    if s.len() == 0 {
        Seq::empty()
    } else {
        let rest = payout_instructions(s.drop_last());
        if s.last().is_approved && s.last().scholarship_amount > 0 {
            rest.push(
                (TransferInstruction {
                    to: s.last().student_address,
                    amount: s.last().scholarship_amount,
                }),
            )
        } else {
            rest
        }
    }
}

/// A donor record as the ledger keeps it: created on first donation, so it
/// always shows at least one donation and a positive total.
pub open spec fn donor_record_valid(d: Donor) -> bool {
    d.total_contributed > 0 && d.contribution_count >= 1
}

/// The configuration every initialized pool satisfies: positive goal and
/// award bounds, ordered bounds and deadlines, non-negative balance.
pub open spec fn pool_config_valid(p: ScholarshipPool) -> bool {
    &&& p.total_goal > 0
    &&& p.min_scholarship_amount > 0
    &&& p.max_scholarship_amount >= p.min_scholarship_amount
    &&& p.current_balance >= 0
    &&& p.application_deadline < p.distribution_deadline
}

/// The pool a successful initialization creates.
pub open spec fn fresh_pool(
    creator: u64,
    token: u64,
    total_goal: i128,
    max_scholarship_amount: i128,
    min_scholarship_amount: i128,
    application_deadline: u64,
    distribution_deadline: u64,
) -> ScholarshipPool {
    ScholarshipPool {
        creator,
        token,
        total_goal,
        current_balance: 0,
        is_active: true,
        max_scholarship_amount,
        min_scholarship_amount,
        application_deadline,
        distribution_deadline,
    }
}

/// `p` after a donation of `amount` is credited to its balance.
pub open spec fn credited(p: ScholarshipPool, amount: i128) -> ScholarshipPool {
    ScholarshipPool {
        creator: p.creator,
        token: p.token,
        total_goal: p.total_goal,
        current_balance: (p.current_balance + amount) as i128,
        is_active: p.is_active,
        max_scholarship_amount: p.max_scholarship_amount,
        min_scholarship_amount: p.min_scholarship_amount,
        application_deadline: p.application_deadline,
        distribution_deadline: p.distribution_deadline,
    }
}

/// `p` after distribution paid out `total`: the balance drops by `total` and
/// the pool closes for good.
pub open spec fn closed_pool(p: ScholarshipPool, total: int) -> ScholarshipPool {
    ScholarshipPool {
        creator: p.creator,
        token: p.token,
        total_goal: p.total_goal,
        current_balance: (p.current_balance - total) as i128,
        is_active: false,
        max_scholarship_amount: p.max_scholarship_amount,
        min_scholarship_amount: p.min_scholarship_amount,
        application_deadline: p.application_deadline,
        distribution_deadline: p.distribution_deadline,
    }
}

/// The record a successful submission at time `now` files: not yet approved,
/// no award.
pub open spec fn new_application(
    student: u64,
    name: String,
    academic_level: String,
    field_of_study: String,
    gpa: i128,
    financial_need_score: i128,
    essay_hash: String,
    now: u64,
) -> StudentApplication {
    StudentApplication {
        student_address: student,
        name,
        academic_level,
        field_of_study,
        gpa,
        financial_need_score,
        essay_hash,
        is_approved: false,
        scholarship_amount: 0,
        application_timestamp: now,
    }
}

/// Aggregate amount a batch of transfer instructions moves out of the pool.
pub open spec fn instructions_total(s: Seq<TransferInstruction>) -> int
    decreases s.len(),
{
    if s.len() == 0 {
        0
    } else {
        instructions_total(s.drop_last()) + s.last().amount
    }
}

/// Whether the balance can cover the minimum award for all `n` applicants;
/// when it cannot, allocation refuses with `InsufficientFunds`.
pub open spec fn allocation_feasible(balance: int, min_award: int, n: int) -> bool {
    balance >= min_award * n
}

/// The tiered per-applicant award: the maximum award when the balance covers
/// it for everyone, otherwise an equal split of the balance (the remainder
/// stays in the pool). Only meaningful when allocation is feasible.
pub open spec fn award_per_applicant(balance: int, max_award: int, n: int) -> int {
    if balance >= max_award * n {
        max_award
    } else {
        balance / n
    }
}

} // verus!
