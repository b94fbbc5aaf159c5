use baglama2::control::{backfill_done, groups_to_deactivate, next_month, scheduler_step,
    JobCounter, RetryBudget, SchedulerAction, MAX_QUERY_ATTEMPTS};
use baglama2::group_id::GroupId;
use baglama2::records::RowGroup;
use baglama2::subcat::SubcatWalk;

#[test]
fn test_subcat_walk() {
    // Category "Blue sky in Berlin" walked to depth 3: each frontier answers
    // with its subcategories, already-seen titles are not asked again.
    let mut walk = SubcatWalk::new(vec!["Blue_sky_in_Berlin".to_string()], 3);
    assert!(!walk.is_finished());
    assert_eq!(walk.todo(), vec!["Blue_sky_in_Berlin".to_string()]);
    walk.advance(vec!["Blue_sky_in_Pankow".to_string(), "Blue_sky_in_Mitte".to_string()]);
    assert!(!walk.is_finished());
    assert_eq!(
        walk.todo(),
        vec!["Blue_sky_in_Pankow".to_string(), "Blue_sky_in_Mitte".to_string()]
    );
    // The next frontier repeats a known title; only that one is dropped.
    walk.advance(vec!["Blue_sky_in_Mitte".to_string(), "Blue_sky_in_Karow".to_string()]);
    assert_eq!(walk.todo(), vec!["Blue_sky_in_Karow".to_string()]);
    walk.advance(vec![]);
    assert!(walk.is_finished());
    assert_eq!(
        walk.subcats(),
        &vec![
            "Blue_sky_in_Berlin".to_string(),
            "Blue_sky_in_Pankow".to_string(),
            "Blue_sky_in_Mitte".to_string(),
            "Blue_sky_in_Karow".to_string(),
        ]
    );
}

#[test]
fn test_subcat_walk_depth_exhausted() {
    let mut walk = SubcatWalk::new(vec!["Root".to_string()], 1);
    walk.advance(vec!["Child".to_string()]);
    assert!(walk.is_finished(), "depth one allows a single frontier");
    assert_eq!(walk.subcats().len(), 2);
}

// The closure is the category plus its reachable subcategories, so a
// depth-zero walk yields just the roots, deduplicated.
#[test]
fn test_subcat_walk_depth_zero_keeps_roots() {
    let walk = SubcatWalk::new(vec!["Root".to_string(), "Root".to_string()], 0);
    assert!(walk.is_finished(), "depth zero asks no frontier");
    assert_eq!(walk.subcats(), &vec!["Root".to_string()]);
}

#[test]
fn test_sort_strings() {
    let sorted = baglama2::text::sort_strings(vec![
        "Zoo".to_string(),
        "Alpha".to_string(),
        "Museum f\u{fc}r Kunst".to_string(),
        "Alpha".to_string(),
        "Beta".to_string(),
    ]);
    assert_eq!(sorted, vec!["Alpha", "Alpha", "Beta", "Museum f\u{fc}r Kunst", "Zoo"]);
}

#[test]
fn test_retry_budget() {
    let mut budget = RetryBudget::new(MAX_QUERY_ATTEMPTS);
    let mut taken = 0;
    while budget.take_attempt() {
        taken += 1;
    }
    assert_eq!(taken, 5, "a batched read retries up to five times");
    assert!(budget.exhausted());
}

#[test]
fn test_scheduler_step() {
    let g = GroupId::try_from(7).unwrap();
    assert!(matches!(scheduler_step(4, 4, Some(g)), SchedulerAction::Wait));
    match scheduler_step(1, 4, Some(g)) {
        SchedulerAction::Launch(l) => assert_eq!(l.get(), 7),
        _ => panic!("expected a launch"),
    }
    assert!(matches!(scheduler_step(2, 4, None), SchedulerAction::Drain));
    assert!(matches!(scheduler_step(0, 4, None), SchedulerAction::Done));
}

#[test]
fn test_job_counter() {
    let mut counter = JobCounter::new();
    counter.launch(4);
    counter.launch(4);
    assert_eq!(counter.running(), 2);
    counter.finish();
    assert_eq!(counter.running(), 1);
}

#[test]
fn test_backfill_calendar() {
    assert_eq!(next_month(2022, 10), (2022, 11));
    assert_eq!(next_month(2022, 12), (2023, 1));
    assert!(backfill_done(2024, 6, 2024, 6), "the current month is exclusive");
    assert!(!backfill_done(2024, 5, 2024, 6));
    assert!(backfill_done(2025, 1, 2024, 6));
}

// A category title with multi-byte characters survives the round trip
// through the group record unchanged.
#[test]
fn test_group_category_utf8() {
    let category = "Files of Museum f\u{fc}r Kunst und Gewerbe Hamburg uploaded by RKBot";
    let g = RowGroup::new(292, category.to_string(), 0, "x".to_string(), 0, 1, 1);
    assert_eq!(g.category(), category);
    assert!(g.is_user_name());
}

#[test]
fn test_groups_to_deactivate() {
    let groups = vec![
        RowGroup::new(1, "Kept".to_string(), 3, "x".to_string(), 0, 1, 0),
        RowGroup::new(2, "Gone".to_string(), 3, "x".to_string(), 0, 1, 0),
    ];
    let existing = vec!["Kept".to_string()];
    assert_eq!(groups_to_deactivate(&groups, &existing), vec![2]);
}
