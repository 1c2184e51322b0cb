use scholarship_pool::pool::EduChainScholarships;
use scholarship_pool::ranking::rank_applications;
use scholarship_pool::types::StudentApplication;

fn application(student: u64, gpa: i128, need: i128, submitted_at: u64) -> StudentApplication {
    StudentApplication {
        student_address: student,
        name: format!("Student {student}"),
        academic_level: String::from("Undergraduate"),
        field_of_study: String::from("Mathematics"),
        gpa,
        financial_need_score: need,
        essay_hash: format!("QmEssay{student}"),
        is_approved: false,
        scholarship_amount: 0,
        application_timestamp: submitted_at,
    }
}

#[test]
fn ranking_orders_by_merit_descending() {
    let apps = vec![
        application(1, 200, 30, 5), // merit 230
        application(2, 400, 90, 6), // merit 490
        application(3, 0, 1, 7),    // merit 1
        application(4, 310, 40, 8), // merit 350
    ];
    let ranked = rank_applications(&apps);
    let order: Vec<u64> = ranked.iter().map(|a| a.student_address).collect();
    assert_eq!(order, vec![2, 4, 1, 3]);
    // A permutation: every application is still there, fields intact
    assert_eq!(ranked.len(), apps.len());
    for a in &apps {
        assert!(ranked.iter().any(|r| r.student_address == a.student_address
            && r.gpa == a.gpa
            && r.name == a.name));
    }
}

#[test]
fn ranking_breaks_merit_ties_by_submission_time() {
    let apps = vec![
        application(1, 300, 50, 40), // merit 350, later
        application(2, 250, 100, 10), // merit 350, earliest
        application(3, 340, 10, 20), // merit 350, middle
    ];
    let ranked = rank_applications(&apps);
    let order: Vec<u64> = ranked.iter().map(|a| a.student_address).collect();
    assert_eq!(order, vec![2, 3, 1]);
}

#[test]
fn ranking_of_empty_and_single_lists() {
    let empty: Vec<StudentApplication> = Vec::new();
    assert!(rank_applications(&empty).is_empty());
    let one = vec![application(1, 200, 30, 5)];
    let ranked = rank_applications(&one);
    assert_eq!(ranked.len(), 1);
    assert_eq!(ranked[0].student_address, 1);
}

#[test]
fn approval_rewrites_registry_in_ranked_order() {
    const DAY: u64 = 24 * 60 * 60;
    let mut contract = EduChainScholarships::new();
    contract
        .init_pool(1, 2, 100_000_000, 200_000, 100_000, 30 * DAY, 31 * DAY, 0)
        .unwrap();
    contract.donate(7, 900_000).unwrap();
    let mut submit = |student: u64, gpa: i128, need: i128, now: u64| {
        contract
            .apply_for_scholarship(
                student,
                format!("Student {student}"),
                String::from("Undergraduate"),
                String::from("Mathematics"),
                gpa,
                need,
                format!("QmEssay{student}"),
                now,
            )
            .unwrap();
    };
    submit(11, 200, 30, 5); // merit 230
    submit(12, 400, 90, 6); // merit 490
    submit(13, 390, 100, 7); // merit 490, later than 12
    contract.approve_scholarships(1, 30 * DAY).unwrap();

    let order: Vec<u64> = contract
        .get_all_applications()
        .iter()
        .map(|a| a.student_address)
        .collect();
    assert_eq!(order, vec![12, 13, 11]);
}
