use notia::activity::{effective_day, level_for};
use notia::dates::timestamp_day;
use notia::{calculate_activity, record_day, ActivityData, Note, Reminder};

fn create_dummy_note(
    id: &str,
    title: &str,
    content: Option<&str>,
    tags: Option<Vec<&str>>,
    reminders: Option<Vec<Reminder>>,
) -> Note {
    Note {
        id: id.to_string(),
        title: title.to_string(),
        content: content.map(|s| s.to_string()),
        tags: tags.map(|v| v.into_iter().map(|s| s.to_string()).collect()),
        reminders,
    }
}

fn create_dummy_reminder(
    completed: bool,
    updated_at: Option<&str>,
    reminder_time: Option<&str>,
) -> Reminder {
    Reminder {
        completed,
        updated_at: updated_at.map(|s| s.to_string()),
        reminder_time: reminder_time.map(|s| s.to_string()),
    }
}

fn series(result: &notia::ActivityResult) -> Vec<(String, u128, usize)> {
    result.activityData.iter().map(|a| (a.date.clone(), a.count, a.level)).collect()
}

fn done_at(stamp: &str) -> Reminder {
    create_dummy_reminder(true, Some(stamp), None)
}

#[test]
fn test_calculate_activity() {
    let notes = vec![create_dummy_note(
        "1",
        "Note 1",
        Some("Content"),
        Some(vec!["tag1"]),
        Some(vec![create_dummy_reminder(true, Some("2023-10-27T10:00:00Z"), None)]),
    )];
    let result = calculate_activity(notes);
    assert_eq!(result.stats.totalNotes, 1);
}

#[test]
fn single_completed_reminder_counts_once_on_its_day() {
    let notes = vec![create_dummy_note(
        "1",
        "Note 1",
        Some("Content"),
        Some(vec!["tag1"]),
        Some(vec![create_dummy_reminder(true, Some("2023-10-27T10:00:00Z"), None)]),
    )];
    let result = calculate_activity(notes);
    assert_eq!(result.stats.totalNotes, 1);
    assert_eq!(result.stats.totalReminders, 1);
    assert_eq!(result.stats.completedReminders, 1);
    assert_eq!(result.stats.tagsUsed, 1);
    assert_eq!(series(&result), vec![("2023-10-27".to_string(), 1, 1)]);
}

#[test]
fn empty_collection_gives_zeroes() {
    let result = calculate_activity(Vec::new());
    assert_eq!(result.stats.totalNotes, 0);
    assert_eq!(result.stats.totalReminders, 0);
    assert_eq!(result.stats.completedReminders, 0);
    assert_eq!(result.stats.tagsUsed, 0);
    assert!(result.activityData.is_empty());
}

#[test]
fn two_on_one_day_give_count_two_level_one() {
    let notes = vec![
        create_dummy_note("1", "a", None, None, Some(vec![done_at("2024-01-05T08:00:00Z")])),
        create_dummy_note("2", "b", None, None, Some(vec![done_at("2024-01-05T21:30:00Z")])),
    ];
    let result = calculate_activity(notes);
    assert_eq!(series(&result), vec![("2024-01-05".to_string(), 2, 1)]);
}

#[test]
fn eight_on_one_day_are_capped_at_level_four() {
    let mut reminders = Vec::new();
    for hour in 10..18 {
        reminders.push(done_at(&format!("2024-02-02T{}:00:00Z", hour)));
    }
    let notes = vec![create_dummy_note("1", "a", None, None, Some(reminders))];
    let result = calculate_activity(notes);
    assert_eq!(result.stats.totalReminders, 8);
    assert_eq!(result.stats.completedReminders, 8);
    assert_eq!(series(&result), vec![("2024-02-02".to_string(), 8, 4)]);
}

#[test]
fn levels_follow_half_the_count_rounded_up() {
    let expected = [0usize, 1, 1, 2, 2, 3, 3, 4, 4, 4, 4];
    for count in 0..expected.len() {
        assert_eq!(level_for(count as u128), expected[count]);
    }
    assert_eq!(level_for(u128::MAX), 4);
}

#[test]
fn series_is_ascending_by_date() {
    let notes = vec![
        create_dummy_note("1", "a", None, None, Some(vec![
            done_at("2023-12-31T10:00:00Z"),
            done_at("2023-01-15T10:00:00Z"),
        ])),
        create_dummy_note("2", "b", None, None, Some(vec![
            done_at("2024-03-01T10:00:00Z"),
            done_at("2023-01-15T11:00:00Z"),
            done_at("2023-06-30T10:00:00Z"),
        ])),
    ];
    let result = calculate_activity(notes);
    assert_eq!(
        series(&result),
        vec![
            ("2023-01-15".to_string(), 2, 1),
            ("2023-06-30".to_string(), 1, 1),
            ("2023-12-31".to_string(), 1, 1),
            ("2024-03-01".to_string(), 1, 1),
        ]
    );
    for pair in result.activityData.windows(2) {
        assert!(pair[0].date < pair[1].date);
    }
    for entry in &result.activityData {
        assert!(entry.count >= 1);
        assert_eq!(entry.level as u128, std::cmp::min(4, (entry.count + 1) / 2));
    }
}

#[test]
fn counts_cover_notes_and_reminders() {
    let notes = vec![
        create_dummy_note("1", "a", None, None, Some(vec![
            create_dummy_reminder(true, Some("2023-10-27T10:00:00Z"), None),
            create_dummy_reminder(false, Some("2023-10-28T10:00:00Z"), None),
        ])),
        create_dummy_note("2", "b", None, None, None),
        create_dummy_note("3", "c", None, None, Some(vec![
            create_dummy_reminder(false, None, None),
            create_dummy_reminder(true, None, None),
            create_dummy_reminder(true, Some("garbage"), None),
        ])),
    ];
    let result = calculate_activity(notes);
    assert_eq!(result.stats.totalNotes, 3);
    assert_eq!(result.stats.totalReminders, 5);
    assert_eq!(result.stats.completedReminders, 3);
    assert!(result.stats.completedReminders <= result.stats.totalReminders);
    assert_eq!(series(&result), vec![("2023-10-27".to_string(), 1, 1)]);
}

#[test]
fn tags_are_counted_once_and_by_exact_text() {
    let notes = vec![
        create_dummy_note("1", "a", None, Some(vec!["work", "home", "work"]), None),
        create_dummy_note("2", "b", None, Some(vec!["work", "Work", " work"]), None),
        create_dummy_note("3", "c", None, None, None),
        create_dummy_note("4", "d", None, Some(vec![]), None),
    ];
    let result = calculate_activity(notes);
    assert_eq!(result.stats.tagsUsed, 4);
}

#[test]
fn updated_at_is_preferred_to_reminder_time() {
    let r = create_dummy_reminder(true, Some("2023-10-27T10:00:00Z"), Some("2022-01-01T00:00:00Z"));
    assert_eq!(effective_day(&r), Some("2023-10-27".to_string()));
    let r = create_dummy_reminder(true, None, Some("2022-01-01T00:00:00Z"));
    assert_eq!(effective_day(&r), Some("2022-01-01".to_string()));
}

#[test]
fn unreadable_updated_at_does_not_fall_back() {
    let r = create_dummy_reminder(true, Some("yesterday"), Some("2022-01-01T00:00:00Z"));
    assert_eq!(effective_day(&r), None);
}

#[test]
fn open_reminder_has_no_day() {
    let r = create_dummy_reminder(false, Some("2023-10-27T10:00:00Z"), None);
    assert_eq!(effective_day(&r), None);
    let r = create_dummy_reminder(true, None, None);
    assert_eq!(effective_day(&r), None);
}

#[test]
fn timestamp_with_offset_keeps_its_own_day() {
    assert_eq!(timestamp_day("2023-10-27T23:30:00-05:00"), Some("2023-10-27".to_string()));
    assert_eq!(timestamp_day("2023-10-27T00:30:00+09:00"), Some("2023-10-27".to_string()));
    assert_eq!(timestamp_day("2023-10-27T10:00:00.250Z"), Some("2023-10-27".to_string()));
}

#[test]
fn timestamp_without_offset_is_read_second() {
    assert_eq!(timestamp_day("2023-10-27T10:00:00"), Some("2023-10-27".to_string()));
    assert_eq!(timestamp_day("2023-10-27T10:00:00.123"), Some("2023-10-27".to_string()));
}

#[test]
fn other_texts_are_no_timestamps() {
    assert_eq!(timestamp_day(""), None);
    assert_eq!(timestamp_day("2023-10-27"), None);
    assert_eq!(timestamp_day("2023-13-01T10:00:00Z"), None);
    assert_eq!(timestamp_day("2023-02-30T10:00:00"), None);
    assert_eq!(timestamp_day("27/10/2023 10:00"), None);
}

#[test]
fn record_day_keeps_the_order_of_dates() {
    let mut acts: Vec<ActivityData> = Vec::new();
    for day in ["2023-10-28", "2023-10-27", "2023-11-01", "2023-10-27", "2023-10-28", "2023-10-27"] {
        record_day(&mut acts, day.to_string());
    }
    let got: Vec<(String, u128, usize)> =
        acts.iter().map(|a| (a.date.clone(), a.count, a.level)).collect();
    assert_eq!(
        got,
        vec![
            ("2023-10-27".to_string(), 3, 2),
            ("2023-10-28".to_string(), 2, 1),
            ("2023-11-01".to_string(), 1, 1),
        ]
    );
}
