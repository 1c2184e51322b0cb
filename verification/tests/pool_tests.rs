use scholarship_pool::errors::Error;
use scholarship_pool::pool::EduChainScholarships;

const DAY: u64 = 24 * 60 * 60;

#[test]
fn test_init_pool() {
    let mut contract = EduChainScholarships::new();
    let creator: u64 = 1;
    let token: u64 = 2;
    let total_goal: i128 = 100_000_000; // 10 XLM in stroops
    let max_scholarship: i128 = 20_000_000; // 2 XLM in stroops
    let min_scholarship: i128 = 10_000_000; // 1 XLM in stroops
    let now: u64 = 0;
    let app_deadline = now + 30 * DAY; // 30 days from now
    let dist_deadline = app_deadline + DAY; // 1 day after app deadline

    let pool_id = contract
        .init_pool(
            creator,
            token,
            total_goal,
            max_scholarship,
            min_scholarship,
            app_deadline,
            dist_deadline,
            now,
        )
        .unwrap();

    assert_eq!(pool_id, 1);

    let pool = contract.get_pool().unwrap();
    assert_eq!(pool.creator, creator);
    assert_eq!(pool.token, token);
    assert_eq!(pool.total_goal, total_goal);
    assert_eq!(pool.current_balance, 0);
    assert_eq!(pool.is_active, true);
    assert_eq!(pool.max_scholarship_amount, max_scholarship);
    assert_eq!(pool.min_scholarship_amount, min_scholarship);
    assert_eq!(pool.application_deadline, app_deadline);
    assert_eq!(pool.distribution_deadline, dist_deadline);
}

#[test]
fn test_apply_for_scholarship() {
    let mut contract = EduChainScholarships::new();
    let creator: u64 = 1;
    let token: u64 = 2;
    let total_goal: i128 = 100_000_000;
    let max_scholarship: i128 = 20_000_000;
    let min_scholarship: i128 = 10_000_000;
    let now: u64 = 0;
    let app_deadline = now + 30 * DAY;
    let dist_deadline = app_deadline + DAY;

    contract
        .init_pool(
            creator,
            token,
            total_goal,
            max_scholarship,
            min_scholarship,
            app_deadline,
            dist_deadline,
            now,
        )
        .unwrap();

    let student: u64 = 3;
    let name = String::from("John Doe");
    let academic_level = String::from("Undergraduate");
    let field_of_study = String::from("Computer Science");
    let gpa: i128 = 350; // 3.5 GPA * 100
    let financial_need_score: i128 = 75;
    let essay_hash = String::from("QmHash123456789");

    contract
        .apply_for_scholarship(
            student,
            name.clone(),
            academic_level.clone(),
            field_of_study.clone(),
            gpa,
            financial_need_score,
            essay_hash.clone(),
            now,
        )
        .unwrap();

    let application = contract.get_application(student).unwrap();
    assert_eq!(application.student_address, student);
    assert_eq!(application.name, name);
    assert_eq!(application.academic_level, academic_level);
    assert_eq!(application.field_of_study, field_of_study);
    assert_eq!(application.gpa, gpa);
    assert_eq!(application.financial_need_score, financial_need_score);
    assert_eq!(application.essay_hash, essay_hash);
    assert_eq!(application.is_approved, false);
    assert_eq!(application.scholarship_amount, 0);
}

#[test]
fn test_pool_stats() {
    let mut contract = EduChainScholarships::new();
    let creator: u64 = 1;
    let token: u64 = 2;
    let total_goal: i128 = 100_000_000;
    let max_scholarship: i128 = 20_000_000;
    let min_scholarship: i128 = 10_000_000;
    let now: u64 = 0;
    let app_deadline = now + 30 * DAY;
    let dist_deadline = app_deadline + DAY;

    contract
        .init_pool(
            creator,
            token,
            total_goal,
            max_scholarship,
            min_scholarship,
            app_deadline,
            dist_deadline,
            now,
        )
        .unwrap();

    // Add an application (no donations in this test)
    let student: u64 = 3;
    contract
        .apply_for_scholarship(
            student,
            String::from("Charlie"),
            String::from("PhD"),
            String::from("Physics"),
            390,
            85,
            String::from("Hash3"),
            now,
        )
        .unwrap();

    let (total_apps, approved_apps, total_donors) = contract.get_pool_stats();
    assert_eq!(total_apps, 1);
    assert_eq!(approved_apps, 0); // Not approved yet
    assert_eq!(total_donors, 0); // No donations in this test
}

#[test]
fn test_invalid_amounts() {
    let mut contract = EduChainScholarships::new();
    let creator: u64 = 1;
    let token: u64 = 2;
    let now: u64 = 0;
    let app_deadline = now + 30 * DAY;
    let dist_deadline = app_deadline + DAY;

    // Invalid total goal
    let result = contract.init_pool(
        creator,
        token,
        0, // Invalid: zero goal
        20_000_000,
        10_000_000,
        app_deadline,
        dist_deadline,
        now,
    );
    assert!(result.is_err());

    // Invalid scholarship range
    let result = contract.init_pool(
        creator,
        token,
        100_000_000,
        5_000_000, // Invalid: max < min
        10_000_000,
        app_deadline,
        dist_deadline,
        now,
    );
    assert!(result.is_err());
}

#[test]
fn test_invalid_deadlines() {
    let mut contract = EduChainScholarships::new();
    let creator: u64 = 1;
    let token: u64 = 2;
    let current_time: u64 = 0;

    // Past application deadline - use a safe past time
    let result = contract.init_pool(
        creator,
        token,
        100_000_000,
        20_000_000,
        10_000_000,
        current_time.saturating_sub(1), // Safe subtraction
        current_time + 30 * DAY,
        current_time,
    );
    assert!(result.is_err());

    // Distribution deadline before application deadline
    let result = contract.init_pool(
        creator,
        token,
        100_000_000,
        20_000_000,
        10_000_000,
        current_time + 30 * DAY,
        current_time + 20 * DAY, // Invalid: before app deadline
        current_time,
    );
    assert!(result.is_err());
}
