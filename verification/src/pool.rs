//! The pool instance: one pool slot, the donor ledger, the application
//! registry, and a monotonic pool-id counter, with every lifecycle operation
//! on them.
//!
//! Each operation is one atomic read-modify-write of this state; the host
//! serializes invocations and persists the state between them, and hands in
//! the current time (a monotonic oracle) and already-authenticated caller
//! identities.

use vstd::prelude::*;

use crate::awards::{
    lemma_distribution_step, lemma_div_threshold, lemma_total_awarded_nonneg,
    lemma_total_awarded_prefix, lemma_total_awarded_uniform,
};
use crate::errors::Error;
use crate::lookup::{find_application, find_donor, lemma_app_index_spec, lemma_donor_index_spec};
use crate::ranking::rank_applications;
use crate::types::{
    allocation_feasible, award_fields_consistent, award_per_applicant, awarded_all, closed_pool,
    count_approved, credited, distinct_applicants, distinct_donors, donate_step, donor_count,
    donor_index, donor_record_valid, donor_total, fresh_pool, has_application, app_index,
    new_application, payout_instructions, pool_config_valid, ranked, total_awarded, valid_scores,
    with_award, Donor, ScholarshipPool, StudentApplication, TransferInstruction,
};

verus! {

/// Which error `init_pool` returns, by the order the checks run in: amounts,
/// then the award range, then each deadline.
pub open spec fn init_error(
    total_goal: i128,
    max_scholarship_amount: i128,
    min_scholarship_amount: i128,
    application_deadline: u64,
    distribution_deadline: u64,
    now: u64,
) -> Option<Error> {
    if total_goal <= 0 || max_scholarship_amount <= 0 || min_scholarship_amount <= 0 {
        Some(Error::InvalidAmount)
    } else if max_scholarship_amount < min_scholarship_amount {
        Some(Error::InvalidScholarshipRange)
    } else if application_deadline <= now {
        Some(Error::InvalidDeadline)
    } else if distribution_deadline <= application_deadline {
        Some(Error::InvalidDeadline)
    } else {
        None
    }
}

/// Which error `donate` returns: the amount is checked before the pool slot.
pub open spec fn donate_error(pool: Option<ScholarshipPool>, amount: i128) -> Option<Error> {
    if amount <= 0 {
        Some(Error::InvalidAmount)
    } else {
        match pool {
            None => Some(Error::PoolNotInitialized),
            Some(p) => if !p.is_active {
                Some(Error::PoolNotActive)
            } else {
                None
            },
        }
    }
}

/// Which error `apply_for_scholarship` returns: deadline, then scores, then
/// uniqueness.
pub open spec fn apply_error(
    pool: Option<ScholarshipPool>,
    apps: Seq<StudentApplication>,
    student: u64,
    gpa: i128,
    financial_need_score: i128,
    now: u64,
) -> Option<Error> {
    match pool {
        None => Some(Error::PoolNotInitialized),
        Some(p) => if now > p.application_deadline {
            Some(Error::ApplicationDeadlinePassed)
        } else if gpa < 0 || gpa > 400 || financial_need_score < 1 || financial_need_score > 100 {
            Some(Error::InvalidApplicationData)
        } else if has_application(apps, student) {
            Some(Error::AlreadyApplied)
        } else {
            None
        },
    }
}

/// Which error `approve_scholarships` returns: authority before timing, and
/// a refusal when the balance cannot cover the minimum award for everyone.
pub open spec fn approve_error(
    pool: Option<ScholarshipPool>,
    apps: Seq<StudentApplication>,
    caller: u64,
    now: u64,
) -> Option<Error> {
    match pool {
        None => Some(Error::PoolNotInitialized),
        Some(p) => if p.creator != caller {
            Some(Error::Unauthorized)
        } else if now < p.application_deadline {
            Some(Error::ApplicationsStillOpen)
        } else if apps.len() > 0 && !allocation_feasible(
            p.current_balance as int,
            p.min_scholarship_amount as int,
            apps.len() as int,
        ) {
            Some(Error::InsufficientFunds)
        } else {
            None
        },
    }
}

/// Which error `distribute_scholarships` returns: authority before timing,
/// and a closed pool distributes nothing further.
pub open spec fn distribute_error(
    pool: Option<ScholarshipPool>,
    caller: u64,
    now: u64,
) -> Option<Error> {
    match pool {
        None => Some(Error::PoolNotInitialized),
        Some(p) => if p.creator != caller {
            Some(Error::Unauthorized)
        } else if now < p.distribution_deadline {
            Some(Error::DistributionNotReady)
        } else if !p.is_active {
            Some(Error::PoolNotActive)
        } else {
            None
        },
    }
}

/// The instance invariant, stated over the persisted records themselves:
/// one application per identity with in-range scores and consistent award
/// fields, one ledger record per donor showing its donations, a validly
/// configured pool, and — while the pool is active — promised awards covered
/// by the balance.
pub open spec fn parts_well_formed(
    pool: Option<ScholarshipPool>,
    apps: Seq<StudentApplication>,
    donors: Seq<Donor>,
) -> bool {
    &&& distinct_applicants(apps)
    &&& forall|i: int| 0 <= i < apps.len() ==> valid_scores(#[trigger] apps[i])
    &&& forall|i: int| 0 <= i < apps.len() ==> award_fields_consistent(#[trigger] apps[i])
    &&& apps.len() <= u32::MAX
    &&& distinct_donors(donors)
    &&& forall|i: int| 0 <= i < donors.len() ==> donor_record_valid(#[trigger] donors[i])
    &&& donors.len() <= u32::MAX
    &&& match pool {
        Some(p) => pool_config_valid(p) && (p.is_active ==> total_awarded(apps)
            <= p.current_balance),
        None => true,
    }
}

/// One contract instance. Exactly one pool exists per instance; the counter
/// only records how many times the slot was initialized, for external
/// bookkeeping.
pub struct EduChainScholarships {
    pool: Option<ScholarshipPool>,
    applications: Vec<StudentApplication>,
    donors: Vec<Donor>,
    pool_counter: u32,
}

impl EduChainScholarships {
    /// The pool slot.
    pub closed spec fn spec_pool(self) -> Option<ScholarshipPool> {
        self.pool
    }

    /// The application registry, in storage order.
    pub closed spec fn apps(self) -> Seq<StudentApplication> {
        self.applications@
    }

    /// The donor ledger, in order of first contact.
    pub closed spec fn donor_ledger(self) -> Seq<Donor> {
        self.donors@
    }

    /// How many times a pool was initialized in this instance.
    pub closed spec fn counter(self) -> int {
        self.pool_counter as int
    }

    /// The instance invariant every operation preserves.
    pub open spec fn well_formed(self) -> bool {
        parts_well_formed(self.spec_pool(), self.apps(), self.donor_ledger())
    }

    /// A fresh instance: no pool yet, empty registries, counter at zero.
    pub fn new() -> (s: Self)
        ensures
            s.well_formed(),
            s.spec_pool() is None,
            s.apps() == Seq::<StudentApplication>::empty(),
            s.donor_ledger() == Seq::<Donor>::empty(),
            s.counter() == 0,
    {
        EduChainScholarships {
            pool: None,
            applications: Vec::new(),
            donors: Vec::new(),
            pool_counter: 0,
        }
    }

    /// Rebuild an instance from records read back through the storage
    /// facade. The facade sits outside the core's trust, so every piece of
    /// the instance invariant is re-checked here; records that violate one
    /// indicate a storage or collaborator bug and surface as
    /// `CorruptedState`, kept apart from the user-input errors.
    pub fn from_parts(
        pool: Option<ScholarshipPool>,
        applications: Vec<StudentApplication>,
        donors: Vec<Donor>,
        pool_counter: u32,
    ) -> (r: Result<Self, Error>)
        ensures
            match r {
                Ok(s) => {
                    &&& s.well_formed()
                    &&& s.spec_pool() == pool
                    &&& s.apps() == applications@
                    &&& s.donor_ledger() == donors@
                    &&& s.counter() == pool_counter as int
                },
                Err(e) => e == Error::CorruptedState && !parts_well_formed(
                    pool,
                    applications@,
                    donors@,
                ),
            },
    {
        let napps = applications.len();
        if napps > u32::MAX as usize {
            return Err(Error::CorruptedState);
        }
        for i in 0..napps
            invariant
                napps == applications@.len(),
                forall|k: int|
                    0 <= k < i ==> valid_scores(#[trigger] applications@[k])
                        && award_fields_consistent(applications@[k]),
        {
            let a = &applications[i];
            if a.gpa < 0 || a.gpa > 400 || a.financial_need_score < 1 || a.financial_need_score
                > 100 {
                return Err(Error::CorruptedState);
            }
            if a.is_approved && a.scholarship_amount <= 0 {
                return Err(Error::CorruptedState);
            }
            if !a.is_approved && a.scholarship_amount != 0 {
                return Err(Error::CorruptedState);
            }
        }
        for i in 0..napps
            invariant
                napps == applications@.len(),
                forall|a: int, b: int|
                    0 <= a < i && a < b < napps ==> (#[trigger] applications@[a]).student_address
                        != (#[trigger] applications@[b]).student_address,
        {
            for j in i + 1..napps
                invariant
                    napps == applications@.len(),
                    i < napps,
                    forall|a: int, b: int|
                        0 <= a < i && a < b < napps ==> (#[trigger] applications@[a]).student_address
                            != (#[trigger] applications@[b]).student_address,
                    forall|b: int|
                        i < b < j ==> applications@[i as int].student_address
                            != (#[trigger] applications@[b]).student_address,
            {
                if applications[i].student_address == applications[j].student_address {
                    return Err(Error::CorruptedState);
                }
            }
        }
        assert(distinct_applicants(applications@));
        let ndonors = donors.len();
        if ndonors > u32::MAX as usize {
            return Err(Error::CorruptedState);
        }
        for i in 0..ndonors
            invariant
                ndonors == donors@.len(),
                forall|k: int| 0 <= k < i ==> donor_record_valid(#[trigger] donors@[k]),
        {
            let d = &donors[i];
            if d.total_contributed <= 0 || d.contribution_count < 1 {
                return Err(Error::CorruptedState);
            }
        }
        for i in 0..ndonors
            invariant
                ndonors == donors@.len(),
                forall|a: int, b: int|
                    0 <= a < i && a < b < ndonors ==> (#[trigger] donors@[a]).address
                        != (#[trigger] donors@[b]).address,
        {
            for j in i + 1..ndonors
                invariant
                    ndonors == donors@.len(),
                    i < ndonors,
                    forall|a: int, b: int|
                        0 <= a < i && a < b < ndonors ==> (#[trigger] donors@[a]).address
                            != (#[trigger] donors@[b]).address,
                    forall|b: int|
                        i < b < j ==> donors@[i as int].address != (#[trigger] donors@[b]).address,
            {
                if donors[i].address == donors[j].address {
                    return Err(Error::CorruptedState);
                }
            }
        }
        assert(distinct_donors(donors@));
        match pool {
            None => {},
            Some(p) => {
                if p.total_goal <= 0 || p.min_scholarship_amount <= 0 || p.max_scholarship_amount
                    < p.min_scholarship_amount || p.current_balance < 0 || p.application_deadline
                    >= p.distribution_deadline {
                    return Err(Error::CorruptedState);
                }
                if p.is_active {
                    let mut total: i128 = 0;
                    assert(applications@.subrange(0, 0) =~= Seq::<StudentApplication>::empty());
                    for i in 0..napps
                        invariant
                            napps == applications@.len(),
                            pool == Some(p),
                            p.current_balance >= 0,
                            p.is_active,
                            total as int == total_awarded(applications@.subrange(0, i as int)),
                            0 <= total <= p.current_balance,
                    {
                        proof {
                            lemma_distribution_step(applications@, i as int);
                            lemma_total_awarded_nonneg(applications@.subrange(0, i as int));
                        }
                        let a = &applications[i];
                        if a.is_approved && a.scholarship_amount > 0 {
                            if a.scholarship_amount > p.current_balance - total {
                                proof {
                                    lemma_total_awarded_prefix(applications@, i as int + 1);
                                }
                                return Err(Error::CorruptedState);
                            }
                            total = total + a.scholarship_amount;
                        }
                    }
                    proof {
                        assert(applications@.subrange(0, napps as int) =~= applications@);
                    }
                }
            },
        }
        Ok(EduChainScholarships { pool, applications, donors, pool_counter })
    }

    /// Advance the pool-id counter and return the fresh id.
    fn get_next_pool_id(&mut self) -> (r: u32)
        requires
            old(self).counter() < u32::MAX,
        ensures
            r as int == old(self).counter() + 1,
            final(self).counter() == old(self).counter() + 1,
            final(self).spec_pool() == old(self).spec_pool(),
            final(self).apps() == old(self).apps(),
            final(self).donor_ledger() == old(self).donor_ledger(),
    {
        let next_id = self.pool_counter + 1;
        self.pool_counter = next_id;
        next_id
    }

    /// Set up the pool: validate the configuration, then fill the pool slot
    /// with an empty, active pool and reset both registries.
    ///
    /// Calling this on an instance that already holds a pool intentionally
    /// overwrites the slot and discards the registries; the advancing pool
    /// id is what lets external bookkeeping tell the incarnations apart.
    pub fn init_pool(
        &mut self,
        creator: u64,
        token: u64,
        total_goal: i128,
        max_scholarship_amount: i128,
        min_scholarship_amount: i128,
        application_deadline: u64,
        distribution_deadline: u64,
        now: u64,
    ) -> (r: Result<u32, Error>)
        requires
            old(self).well_formed(),
            old(self).counter() < u32::MAX,
        ensures
            final(self).well_formed(),
            match init_error(
                total_goal,
                max_scholarship_amount,
                min_scholarship_amount,
                application_deadline,
                distribution_deadline,
                now,
            ) {
                Some(e) => r == Err::<u32, Error>(e) && *final(self) == *old(self),
                None => {
                    &&& r == Ok::<u32, Error>(((old(self).counter() + 1) as u32))
                    &&& final(self).counter() == old(self).counter() + 1
                    &&& final(self).spec_pool() == Some(
                        fresh_pool(
                            creator,
                            token,
                            total_goal,
                            max_scholarship_amount,
                            min_scholarship_amount,
                            application_deadline,
                            distribution_deadline,
                        ),
                    )
                    &&& final(self).apps() == Seq::<StudentApplication>::empty()
                    &&& final(self).donor_ledger() == Seq::<Donor>::empty()
                },
            },
    {
        if total_goal <= 0 || max_scholarship_amount <= 0 || min_scholarship_amount <= 0 {
            return Err(Error::InvalidAmount);
        }
        if max_scholarship_amount < min_scholarship_amount {
            return Err(Error::InvalidScholarshipRange);
        }
        if application_deadline <= now {
            return Err(Error::InvalidDeadline);
        }
        if distribution_deadline <= application_deadline {
            return Err(Error::InvalidDeadline);
        }
        let pool_id = self.get_next_pool_id();
        self.pool = Some(
            ScholarshipPool {
                creator,
                token,
                total_goal,
                current_balance: 0,
                is_active: true,
                max_scholarship_amount,
                min_scholarship_amount,
                application_deadline,
                distribution_deadline,
            },
        );
        self.applications = Vec::new();
        self.donors = Vec::new();
        Ok(pool_id)
    }

    /// Record a donation: credit the pool balance and the donor's ledger
    /// record, creating the record on first contact.
    ///
    /// The host must have executed (or authorized) the matching token
    /// transfer into the pool's custody before this commits, so that the
    /// balance never credits an unfunded deposit.
    pub fn donate(&mut self, from: u64, amount: i128) -> (r: Result<(), Error>)
        requires
            old(self).well_formed(),
            match old(self).spec_pool() {
                Some(p) => p.current_balance + amount <= i128::MAX,
                None => true,
            },
            donor_total(old(self).donor_ledger(), from) + amount <= i128::MAX,
            donor_count(old(self).donor_ledger(), from) < u32::MAX,
            old(self).donor_ledger().len() < u32::MAX,
        ensures
            final(self).well_formed(),
            match donate_error(old(self).spec_pool(), amount) {
                Some(e) => r == Err::<(), Error>(e) && *final(self) == *old(self),
                None => {
                    &&& r == Ok::<(), Error>(())
                    &&& final(self).spec_pool() == Some(
                        credited(old(self).spec_pool()->Some_0, amount),
                    )
                    &&& final(self).donor_ledger() == donate_step(
                        old(self).donor_ledger(),
                        from,
                        amount,
                    )
                    &&& final(self).apps() == old(self).apps()
                    &&& final(self).counter() == old(self).counter()
                },
            },
    {
        if amount <= 0 {
            return Err(Error::InvalidAmount);
        }
        let p = match self.pool {
            Some(p) => p,
            None => {
                return Err(Error::PoolNotInitialized);
            },
        };
        if !p.is_active {
            return Err(Error::PoolNotActive);
        }
        self.pool = Some(
            ScholarshipPool {
                creator: p.creator,
                token: p.token,
                total_goal: p.total_goal,
                current_balance: p.current_balance + amount,
                is_active: p.is_active,
                max_scholarship_amount: p.max_scholarship_amount,
                min_scholarship_amount: p.min_scholarship_amount,
                application_deadline: p.application_deadline,
                distribution_deadline: p.distribution_deadline,
            },
        );
        match find_donor(&self.donors, from) {
            Some(i) => {
                proof {
                    lemma_donor_index_spec(self.donors@, from);
                }
                let d = self.donors[i];
                self.donors[i] = Donor {
                    address: from,
                    total_contributed: d.total_contributed + amount,
                    contribution_count: d.contribution_count + 1,
                };
                proof {
                    assert(final(self).donor_ledger() =~= donate_step(
                        old(self).donor_ledger(),
                        from,
                        amount,
                    ));
                }
            },
            None => {
                self.donors.push(
                    Donor { address: from, total_contributed: amount, contribution_count: 1 },
                );
                proof {
                    lemma_donor_index_spec(old(self).donor_ledger(), from);
                    assert(final(self).donor_ledger() =~= donate_step(
                        old(self).donor_ledger(),
                        from,
                        amount,
                    ));
                    assert forall|i: int, j: int|
                        0 <= i < j < self.donors@.len() implies (#[trigger] self.donors@[i]).address
                        != (#[trigger] self.donors@[j]).address by {
                        if j < self.donors@.len() - 1 {
                            assert(self.donors@[i] == old(self).donor_ledger()[i]);
                        }
                    }
                }
            },
        }
        proof {
            assert(total_awarded(self.applications@) <= old(self).spec_pool()->Some_0.current_balance
                + amount);
        }
        Ok(())
    }

    /// File an application: gate on the deadline, the score ranges, and
    /// one-application-per-identity, then append the record, unapproved and
    /// unawarded, stamped with the submission time.
    pub fn apply_for_scholarship(
        &mut self,
        student: u64,
        name: String,
        academic_level: String,
        field_of_study: String,
        gpa: i128,
        financial_need_score: i128,
        essay_hash: String,
        now: u64,
    ) -> (r: Result<(), Error>)
        requires
            old(self).well_formed(),
            old(self).apps().len() < u32::MAX,
        ensures
            final(self).well_formed(),
            match apply_error(
                old(self).spec_pool(),
                old(self).apps(),
                student,
                gpa,
                financial_need_score,
                now,
            ) {
                Some(e) => r == Err::<(), Error>(e) && *final(self) == *old(self),
                None => {
                    &&& r == Ok::<(), Error>(())
                    &&& final(self).apps() == old(self).apps().push(
                        new_application(
                            student,
                            name,
                            academic_level,
                            field_of_study,
                            gpa,
                            financial_need_score,
                            essay_hash,
                            now,
                        ),
                    )
                    &&& final(self).spec_pool() == old(self).spec_pool()
                    &&& final(self).donor_ledger() == old(self).donor_ledger()
                    &&& final(self).counter() == old(self).counter()
                },
            },
    {
        let p = match self.pool {
            Some(p) => p,
            None => {
                return Err(Error::PoolNotInitialized);
            },
        };
        if now > p.application_deadline {
            return Err(Error::ApplicationDeadlinePassed);
        }
        if gpa < 0 || gpa > 400 || financial_need_score < 1 || financial_need_score > 100 {
            return Err(Error::InvalidApplicationData);
        }
        match find_application(&self.applications, student) {
            Some(i) => {
                proof {
                    lemma_app_index_spec(self.applications@, student);
                }
                return Err(Error::AlreadyApplied);
            },
            None => {},
        }
        let application = StudentApplication {
            student_address: student,
            name,
            academic_level,
            field_of_study,
            gpa,
            financial_need_score,
            essay_hash,
            is_approved: false,
            scholarship_amount: 0,
            application_timestamp: now,
        };
        self.applications.push(application);
        proof {
            let post = self.applications@;
            let pre = old(self).apps();
            assert forall|i: int, j: int|
                0 <= i < j < post.len() implies (#[trigger] post[i]).student_address
                != (#[trigger] post[j]).student_address by {
                if j < post.len() - 1 {
                    assert(post[i] == pre[i] && post[j] == pre[j]);
                } else {
                    assert(post[i] == pre[i]);
                }
            }
            assert(post.drop_last() =~= pre);
            assert(total_awarded(post) == total_awarded(pre));
        }
        Ok(())
    }

    /// Allocate awards: after authority and deadline gates, rank the whole
    /// registry by merit and rewrite it in ranked order with every
    /// application approved at the tiered per-applicant amount. An empty
    /// registry succeeds as a no-op; a balance below the minimum award for
    /// every applicant is refused outright rather than promising more than
    /// the pool holds.
    pub fn approve_scholarships(&mut self, creator: u64, now: u64) -> (r: Result<(), Error>)
        requires
            old(self).well_formed(),
        ensures
            final(self).well_formed(),
            match approve_error(old(self).spec_pool(), old(self).apps(), creator, now) {
                Some(e) => r == Err::<(), Error>(e) && *final(self) == *old(self),
                None => if old(self).apps().len() == 0 {
                    r == Ok::<(), Error>(()) && *final(self) == *old(self)
                } else {
                    let p = old(self).spec_pool()->Some_0;
                    let amount = award_per_applicant(
                        p.current_balance as int,
                        p.max_scholarship_amount as int,
                        old(self).apps().len() as int,
                    );
                    &&& r == Ok::<(), Error>(())
                    &&& final(self).apps().to_multiset() == awarded_all(
                        old(self).apps(),
                        amount as i128,
                    ).to_multiset()
                    &&& ranked(final(self).apps())
                    &&& final(self).apps().len() == old(self).apps().len()
                    &&& forall|i: int|
                        0 <= i < final(self).apps().len() ==> (#[trigger] final(self).apps()[i]).is_approved
                            && final(self).apps()[i].scholarship_amount == amount
                    &&& final(self).spec_pool() == old(self).spec_pool()
                    &&& final(self).donor_ledger() == old(self).donor_ledger()
                    &&& final(self).counter() == old(self).counter()
                },
            },
    {
        let p = match self.pool {
            Some(p) => p,
            None => {
                return Err(Error::PoolNotInitialized);
            },
        };
        if p.creator != creator {
            return Err(Error::Unauthorized);
        }
        if now < p.application_deadline {
            return Err(Error::ApplicationsStillOpen);
        }
        let n = self.applications.len();
        if n == 0 {
            return Ok(());
        }
        let applicants = n as i128;
        let split = p.current_balance / applicants;
        proof {
            lemma_div_threshold(
                p.current_balance as int,
                applicants as int,
                p.max_scholarship_amount as int,
            );
            lemma_div_threshold(
                p.current_balance as int,
                applicants as int,
                p.min_scholarship_amount as int,
            );
        }
        let award = if split >= p.max_scholarship_amount {
            p.max_scholarship_amount
        } else if split >= p.min_scholarship_amount {
            split
        } else {
            return Err(Error::InsufficientFunds);
        };
        assert(award as int == award_per_applicant(
            p.current_balance as int,
            p.max_scholarship_amount as int,
            n as int,
        ));
        assert(award > 0);
        assert(n as int * award as int <= p.current_balance as int);
        let mut marked: Vec<StudentApplication> = Vec::new();
        for i in 0..n
            invariant
                n == self.applications@.len(),
                *self == *old(self),
                old(self).well_formed(),
                marked@.len() == i,
                forall|k: int|
                    0 <= k < i ==> marked@[k] == with_award(self.applications@[k], award),
        {
            let a = &self.applications[i];
            marked.push(
                StudentApplication {
                    student_address: a.student_address,
                    name: a.name.clone(),
                    academic_level: a.academic_level.clone(),
                    field_of_study: a.field_of_study.clone(),
                    gpa: a.gpa,
                    financial_need_score: a.financial_need_score,
                    essay_hash: a.essay_hash.clone(),
                    is_approved: true,
                    scholarship_amount: award,
                    application_timestamp: a.application_timestamp,
                },
            );
        }
        proof {
            assert(marked@ =~= awarded_all(old(self).apps(), award));
            assert(distinct_applicants(marked@));
            assert(forall|k: int| 0 <= k < marked@.len() ==> valid_scores(#[trigger] marked@[k]));
        }
        let ranked_apps = rank_applications(&marked);
        self.applications = ranked_apps;
        proof {
            let post = self.applications@;
            assert forall|i: int|
                0 <= i < post.len() implies (#[trigger] post[i]).is_approved
                && post[i].scholarship_amount == award && valid_scores(post[i])
                && award_fields_consistent(post[i]) by {
                assert(post.contains(post[i]));
                assert(marked@.contains(post[i]));
                let k = choose|k: int| 0 <= k < marked@.len() && marked@[k] == post[i];
                assert(marked@[k] == with_award(old(self).apps()[k], award));
            }
            lemma_total_awarded_uniform(post, award);
            assert(post.len() * award as int <= p.current_balance as int);
        }
        Ok(())
    }

    /// Pay out the pool: after authority, deadline, and activity gates, emit
    /// one transfer instruction per approved application, debit the balance
    /// by the aggregate, and close the pool for good.
    ///
    /// The caller executes the returned instructions against the token
    /// service within the same atomic invocation, so the payout is
    /// all-or-nothing: if any transfer fails, the host aborts the whole
    /// invocation and this state change is discarded with it.
    pub fn distribute_scholarships(&mut self, creator: u64, now: u64) -> (r: Result<
        Vec<TransferInstruction>,
        Error,
    >)
        requires
            old(self).well_formed(),
        ensures
            final(self).well_formed(),
            match distribute_error(old(self).spec_pool(), creator, now) {
                Some(e) => r == Err::<Vec<TransferInstruction>, Error>(e) && *final(self) == *old(
                    self,
                ),
                None => {
                    &&& r matches Ok(instructions) && instructions@ == payout_instructions(
                        old(self).apps(),
                    )
                    &&& final(self).spec_pool() == Some(
                        closed_pool(old(self).spec_pool()->Some_0, total_awarded(old(self).apps())),
                    )
                    &&& final(self).apps() == old(self).apps()
                    &&& final(self).donor_ledger() == old(self).donor_ledger()
                    &&& final(self).counter() == old(self).counter()
                },
            },
    {
        let p = match self.pool {
            Some(p) => p,
            None => {
                return Err(Error::PoolNotInitialized);
            },
        };
        if p.creator != creator {
            return Err(Error::Unauthorized);
        }
        if now < p.distribution_deadline {
            return Err(Error::DistributionNotReady);
        }
        if !p.is_active {
            return Err(Error::PoolNotActive);
        }
        let n = self.applications.len();
        let mut instructions: Vec<TransferInstruction> = Vec::new();
        let mut total_distributed: i128 = 0;
        assert(self.applications@.subrange(0, 0) =~= Seq::<StudentApplication>::empty());
        for i in 0..n
            invariant
                n == self.applications@.len(),
                *self == *old(self),
                old(self).well_formed(),
                old(self).spec_pool() == Some(p),
                p.is_active,
                total_distributed as int == total_awarded(
                    self.applications@.subrange(0, i as int),
                ),
                instructions@ == payout_instructions(self.applications@.subrange(0, i as int)),
        {
            proof {
                lemma_distribution_step(self.applications@, i as int);
                lemma_total_awarded_prefix(self.applications@, i as int + 1);
                lemma_total_awarded_nonneg(self.applications@.subrange(0, i as int));
            }
            let a = &self.applications[i];
            if a.is_approved && a.scholarship_amount > 0 {
                instructions.push(
                    TransferInstruction { to: a.student_address, amount: a.scholarship_amount },
                );
                total_distributed = total_distributed + a.scholarship_amount;
            }
        }
        proof {
            assert(self.applications@.subrange(0, n as int) =~= self.applications@);
            lemma_total_awarded_nonneg(self.applications@);
        }
        self.pool = Some(
            ScholarshipPool {
                creator: p.creator,
                token: p.token,
                total_goal: p.total_goal,
                current_balance: p.current_balance - total_distributed,
                is_active: false,
                max_scholarship_amount: p.max_scholarship_amount,
                min_scholarship_amount: p.min_scholarship_amount,
                application_deadline: p.application_deadline,
                distribution_deadline: p.distribution_deadline,
            },
        );
        Ok(instructions)
    }

    /// Read the pool, failing when none was initialized yet.
    pub fn get_pool(&self) -> (r: Result<ScholarshipPool, Error>)
        ensures
            r == match self.spec_pool() {
                Some(p) => Ok::<ScholarshipPool, Error>(p),
                None => Err::<ScholarshipPool, Error>(Error::PoolNotInitialized),
            },
    {
        match self.pool {
            Some(p) => Ok(p),
            None => Err(Error::PoolNotInitialized),
        }
    }

    /// Read the pool slot as an option.
    pub fn get_pool_opt(&self) -> (r: Option<ScholarshipPool>)
        ensures
            r == self.spec_pool(),
    {
        self.pool
    }

    /// Read one identity's application, if it filed one.
    pub fn get_application(&self, student: u64) -> (r: Option<StudentApplication>)
        ensures
            match r {
                Some(a) => has_application(self.apps(), student) && a == self.apps()[app_index(
                    self.apps(),
                    student,
                )],
                None => !has_application(self.apps(), student),
            },
    {
        match find_application(&self.applications, student) {
            Some(i) => {
                proof {
                    lemma_app_index_spec(self.applications@, student);
                }
                Some(self.applications[i].clone())
            },
            None => None,
        }
    }

    /// Copy out the whole application registry, in storage order.
    pub fn get_all_applications(&self) -> (r: Vec<StudentApplication>)
        ensures
            r@ == self.apps(),
    {
        let n = self.applications.len();
        let mut out: Vec<StudentApplication> = Vec::new();
        for i in 0..n
            invariant
                n == self.applications@.len(),
                out@.len() == i,
                forall|k: int| 0 <= k < i ==> out@[k] == self.applications@[k],
        {
            out.push(self.applications[i].clone());
        }
        proof {
            assert(out@ =~= self.applications@);
        }
        out
    }

    /// Read one identity's donor record, if it ever donated.
    pub fn get_donor(&self, donor: u64) -> (r: Option<Donor>)
        ensures
            match r {
                Some(d) => donor_index(self.donor_ledger(), donor) >= 0 && d == self.donor_ledger()[
                    donor_index(self.donor_ledger(), donor)
                ],
                None => donor_index(self.donor_ledger(), donor) == -1,
            },
    {
        match find_donor(&self.donors, donor) {
            Some(i) => Some(self.donors[i]),
            None => None,
        }
    }

    /// Counts over the current registries: total applications, approved
    /// applications, and donors.
    pub fn get_pool_stats(&self) -> (r: (u32, u32, u32))
        requires
            self.well_formed(),
        ensures
            r.0 as int == self.apps().len(),
            r.1 as int == count_approved(self.apps()),
            r.2 as int == self.donor_ledger().len(),
    {
        let n = self.applications.len();
        let total_applications = n as u32;
        let mut approved: u32 = 0;
        assert(self.applications@.subrange(0, 0) =~= Seq::<StudentApplication>::empty());
        for i in 0..n
            invariant
                n == self.applications@.len(),
                n <= u32::MAX,
                approved as int == count_approved(self.applications@.subrange(0, i as int)),
                approved <= i,
        {
            proof {
                lemma_distribution_step(self.applications@, i as int);
            }
            if self.applications[i].is_approved {
                approved = approved + 1;
            }
        }
        proof {
            assert(self.applications@.subrange(0, n as int) =~= self.applications@);
        }
        let total_donors = self.donors.len() as u32;
        (total_applications, approved, total_donors)
    }
}

} // verus!
