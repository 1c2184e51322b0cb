use scholarship_pool::errors::Error;
use scholarship_pool::pool::EduChainScholarships;
use scholarship_pool::types::{Donor, ScholarshipPool, StudentApplication};

fn pool(balance: i128, is_active: bool) -> ScholarshipPool {
    ScholarshipPool {
        creator: 1,
        token: 2,
        total_goal: 1_000_000,
        current_balance: balance,
        is_active,
        max_scholarship_amount: 200_000,
        min_scholarship_amount: 100_000,
        application_deadline: 100,
        distribution_deadline: 200,
    }
}

fn application(student: u64, approved: bool, award: i128) -> StudentApplication {
    StudentApplication {
        student_address: student,
        name: format!("Student {student}"),
        academic_level: String::from("Undergraduate"),
        field_of_study: String::from("Mathematics"),
        gpa: 300,
        financial_need_score: 50,
        essay_hash: format!("QmEssay{student}"),
        is_approved: approved,
        scholarship_amount: award,
        application_timestamp: 10,
    }
}

#[test]
fn loader_accepts_consistent_records() {
    let apps = vec![application(11, true, 150_000), application(12, true, 150_000)];
    let donors = vec![
        Donor { address: 7, total_contributed: 400_000, contribution_count: 2 },
    ];
    let core =
        EduChainScholarships::from_parts(Some(pool(400_000, true)), apps, donors, 3).unwrap();
    assert_eq!(core.get_pool_stats(), (2, 2, 1));
    assert_eq!(core.get_pool().unwrap().current_balance, 400_000);
    // the instance picks up where the records left off
    let mut core = core;
    let id = core
        .init_pool(1, 2, 1_000, 200, 100, 100, 200, 0)
        .unwrap();
    assert_eq!(id, 4);
}

#[test]
fn loader_rejects_duplicate_applicants() {
    let apps = vec![application(11, false, 0), application(11, false, 0)];
    let r = EduChainScholarships::from_parts(Some(pool(0, true)), apps, Vec::new(), 1);
    assert_eq!(r.err(), Some(Error::CorruptedState));
}

#[test]
fn loader_rejects_out_of_range_scores() {
    let mut app = application(11, false, 0);
    app.gpa = 401;
    let r = EduChainScholarships::from_parts(Some(pool(0, true)), vec![app], Vec::new(), 1);
    assert_eq!(r.err(), Some(Error::CorruptedState));
}

#[test]
fn loader_rejects_inconsistent_award_fields() {
    // an unapproved application must carry no award
    let r = EduChainScholarships::from_parts(
        Some(pool(500_000, true)),
        vec![application(11, false, 5)],
        Vec::new(),
        1,
    );
    assert_eq!(r.err(), Some(Error::CorruptedState));
    // an approved application must carry a positive one
    let r = EduChainScholarships::from_parts(
        Some(pool(500_000, true)),
        vec![application(11, true, 0)],
        Vec::new(),
        1,
    );
    assert_eq!(r.err(), Some(Error::CorruptedState));
}

#[test]
fn loader_rejects_awards_beyond_active_balance() {
    let apps = vec![application(11, true, 150_000), application(12, true, 150_000)];
    let r = EduChainScholarships::from_parts(Some(pool(200_000, true)), apps, Vec::new(), 1);
    assert_eq!(r.err(), Some(Error::CorruptedState));
    // the same records are fine once the pool is closed
    let apps = vec![application(11, true, 150_000), application(12, true, 150_000)];
    assert!(EduChainScholarships::from_parts(Some(pool(200_000, false)), apps, Vec::new(), 1)
        .is_ok());
}

#[test]
fn loader_rejects_bad_donor_records() {
    let donors = vec![Donor { address: 7, total_contributed: 0, contribution_count: 1 }];
    let r = EduChainScholarships::from_parts(None, Vec::new(), donors, 0);
    assert_eq!(r.err(), Some(Error::CorruptedState));
    let donors = vec![
        Donor { address: 7, total_contributed: 10, contribution_count: 1 },
        Donor { address: 7, total_contributed: 20, contribution_count: 2 },
    ];
    let r = EduChainScholarships::from_parts(None, Vec::new(), donors, 0);
    assert_eq!(r.err(), Some(Error::CorruptedState));
}

#[test]
fn loader_rejects_misconfigured_pool() {
    let mut p = pool(0, true);
    p.max_scholarship_amount = 50_000; // below the minimum award
    let r = EduChainScholarships::from_parts(Some(p), Vec::new(), Vec::new(), 1);
    assert_eq!(r.err(), Some(Error::CorruptedState));
    let mut p = pool(0, true);
    p.current_balance = -1;
    let r = EduChainScholarships::from_parts(Some(p), Vec::new(), Vec::new(), 1);
    assert_eq!(r.err(), Some(Error::CorruptedState));
}
