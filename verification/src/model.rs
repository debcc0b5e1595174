//! The notes handed in by the caller and the values handed back.

use vstd::prelude::*;

verus! {

/// A reminder attached to a note.
#[derive(Debug, Clone)]
pub struct Reminder {
    pub completed: bool,
    pub updated_at: Option<String>,
    pub reminder_time: Option<String>,
}

/// A note as the caller owns it.
#[derive(Debug, Clone)]
pub struct Note {
    pub id: String,
    pub title: String,
    pub content: Option<String>,
    pub tags: Option<Vec<String>>,
    pub reminders: Option<Vec<Reminder>>,
}

/// Counts over a whole collection of notes. The completion rate is the ratio
/// of `completedReminders` to `totalReminders`; callers that want it as a
/// percentage derive it from these two counts. Reminders are counted in
/// `u128`, which holds the sum of the lengths of any number of lists.
#[allow(non_snake_case)]
#[derive(Debug, Clone)]
pub struct Stats {
    pub totalNotes: usize,
    pub totalReminders: u128,
    pub completedReminders: u128,
    pub tagsUsed: usize,
}

/// One calendar day of the activity series.
#[derive(Debug, Clone)]
pub struct ActivityData {
    pub date: String,
    pub count: u128,
    pub level: usize,
}

/// Statistics and activity series of one collection of notes.
#[allow(non_snake_case)]
#[derive(Debug, Clone)]
pub struct ActivityResult {
    pub stats: Stats,
    pub activityData: Vec<ActivityData>,
}

} // verus!
