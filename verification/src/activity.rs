//! Completion statistics and the per-day activity series of a collection of
//! notes.

use crate::dates::{day_of, opt_text, timestamp_day};
use crate::model::{ActivityData, ActivityResult, Note, Reminder, Stats};
use crate::text::{
    lemma_text_lt_irreflexive, lemma_text_lt_total, lemma_text_lt_transitive, text_less, text_lt,
};
use vstd::prelude::*;

verus! {

/// The intensity of a day with `count` completed reminders: half the count,
/// rounded up, and at most 4.
pub open spec fn level_of(count: nat) -> nat {
    if (count + 1) / 2 >= 4 {
        4
    } else {
        (count + 1) / 2
    }
}

/// An entry counts at least one reminder and carries the level of its count.
pub open spec fn entry_ok(e: ActivityData) -> bool {
    e.count >= 1 && e.level == level_of(e.count as nat)
}

/// Each entry's date comes strictly before the next one's.
pub open spec fn ascending(acts: Seq<ActivityData>) -> bool {
    forall|i: int, j: int|
        0 <= i && j == i + 1 && j < acts.len() ==> text_lt(
            (#[trigger] acts[i]).date@,
            (#[trigger] acts[j]).date@,
        )
}

/// Every entry's date comes strictly before the date of every later entry, so
/// that no date stands twice.
pub open spec fn strictly_sorted(acts: Seq<ActivityData>) -> bool {
    forall|i: int, j: int|
        0 <= i < j < acts.len() ==> text_lt(
            (#[trigger] acts[i]).date@,
            (#[trigger] acts[j]).date@,
        )
}

/// An activity series is strictly ascending by date and every entry is sound.
pub open spec fn well_formed(acts: Seq<ActivityData>) -> bool {
    ascending(acts) && forall|i: int| 0 <= i < acts.len() ==> entry_ok(#[trigger] acts[i])
}

/// What an entry says of day `d`: its count if it is the entry of that day.
pub open spec fn weight(e: ActivityData, d: Seq<char>) -> nat {
    if e.date@ == d {
        e.count as nat
    } else {
        0
    }
}

/// The count that a series records for day `d`; 0 where it has no entry.
pub open spec fn count_in(acts: Seq<ActivityData>, d: Seq<char>) -> nat
    decreases acts.len(),
{
    if acts.len() == 0 {
        0
    } else {
        count_in(acts.drop_last(), d) + weight(acts.last(), d)
    }
}

/// How often `d` occurs in `days`.
pub open spec fn occurrences(days: Seq<Seq<char>>, d: Seq<char>) -> nat
    decreases days.len(),
{
    if days.len() == 0 {
        0
    } else {
        occurrences(days.drop_last(), d) + if days.last() == d {
            1nat
        } else {
            0nat
        }
    }
}

/// The day that a reminder adds to the series: none unless it is completed;
/// else the day of `updated_at` where that is present, of `reminder_time`
/// where only that is present.
pub open spec fn reminder_day(r: Reminder) -> Option<Seq<char>> {
    if !r.completed {
        None
    } else {
        match r.updated_at {
            Some(s) => day_of(s@),
            None => match r.reminder_time {
                Some(s) => day_of(s@),
                None => None,
            },
        }
    }
}

/// The days that a sequence of reminders adds, in order.
pub open spec fn reminder_days(rs: Seq<Reminder>) -> Seq<Seq<char>>
    decreases rs.len(),
{
    if rs.len() == 0 {
        Seq::empty()
    } else {
        match reminder_day(rs.last()) {
            Some(d) => reminder_days(rs.drop_last()).push(d),
            None => reminder_days(rs.drop_last()),
        }
    }
}

/// The number of completed reminders in a sequence.
pub open spec fn completed_in(rs: Seq<Reminder>) -> nat
    decreases rs.len(),
{
    if rs.len() == 0 {
        0
    } else {
        completed_in(rs.drop_last()) + if rs.last().completed {
            1nat
        } else {
            0nat
        }
    }
}

/// The reminders of one note; none where the note has no list.
pub open spec fn note_reminders(n: Note) -> Seq<Reminder> {
    match n.reminders {
        Some(rs) => rs@,
        None => Seq::empty(),
    }
}

/// The tags of one note; none where the note has no list.
pub open spec fn note_tags(n: Note) -> Seq<String> {
    match n.tags {
        Some(ts) => ts@,
        None => Seq::empty(),
    }
}

/// The reminders of all notes, note after note.
pub open spec fn all_reminders(notes: Seq<Note>) -> Seq<Reminder>
    decreases notes.len(),
{
    if notes.len() == 0 {
        Seq::empty()
    } else {
        all_reminders(notes.drop_last()) + note_reminders(notes.last())
    }
}

/// The tags of all notes, note after note, repetitions included.
pub open spec fn all_tags(notes: Seq<Note>) -> Seq<String>
    decreases notes.len(),
{
    if notes.len() == 0 {
        Seq::empty()
    } else {
        all_tags(notes.drop_last()) + note_tags(notes.last())
    }
}

/// The sum of the lengths of the notes' reminder lists.
pub open spec fn reminder_total(notes: Seq<Note>) -> nat
    decreases notes.len(),
{
    if notes.len() == 0 {
        0
    } else {
        reminder_total(notes.drop_last()) + note_reminders(notes.last()).len()
    }
}

/// The texts of a sequence of strings.
pub open spec fn texts(v: Seq<String>) -> Seq<Seq<char>> {
    v.map_values(|s: String| s@)
}

/// In an ascending series every earlier entry's date comes strictly before
/// every later entry's date.
pub proof fn lemma_ascending_pairwise(acts: Seq<ActivityData>, i: int, j: int)
    requires
        ascending(acts),
        0 <= i < j < acts.len(),
    ensures
        text_lt(acts[i].date@, acts[j].date@),
    decreases j - i,
{
    if j > i + 1 {
        lemma_ascending_pairwise(acts, i, j - 1);
        assert(text_lt(acts[j - 1].date@, acts[j].date@));
        lemma_text_lt_transitive(acts[i].date@, acts[j - 1].date@, acts[j].date@);
    }
}

/// In an ascending series no date stands twice.
pub proof fn lemma_ascending_distinct(acts: Seq<ActivityData>, i: int, j: int)
    requires
        ascending(acts),
        0 <= i < j < acts.len(),
    ensures
        acts[i].date@ != acts[j].date@,
{
    lemma_ascending_pairwise(acts, i, j);
    lemma_text_lt_irreflexive(acts[i].date@);
}

/// The reminders of all notes are as many as the lengths of the notes'
/// reminder lists add up to.
pub proof fn lemma_reminder_total(notes: Seq<Note>)
    ensures
        all_reminders(notes).len() == reminder_total(notes),
    decreases notes.len(),
{
    if notes.len() != 0 {
        lemma_reminder_total(notes.drop_last());
    }
}

/// The completed reminders are no more than the reminders, and the days they
/// add no more than the completed ones.
pub proof fn lemma_days_bound(rs: Seq<Reminder>)
    ensures
        reminder_days(rs).len() <= completed_in(rs) <= rs.len(),
    decreases rs.len(),
{
    if rs.len() != 0 {
        lemma_days_bound(rs.drop_last());
    }
}

proof fn lemma_count_insert(acts: Seq<ActivityData>, p: int, e: ActivityData, d: Seq<char>)
    requires
        0 <= p <= acts.len(),
    ensures
        count_in(acts.insert(p, e), d) == count_in(acts, d) + weight(e, d),
    decreases acts.len(),
{
    let s = acts.insert(p, e);
    if p == acts.len() {
        assert(s.drop_last() =~= acts);
        assert(s.last() == e);
    } else {
        assert(s.drop_last() =~= acts.drop_last().insert(p, e));
        assert(s.last() == acts.last());
        lemma_count_insert(acts.drop_last(), p, e, d);
    }
}

proof fn lemma_count_update(acts: Seq<ActivityData>, p: int, e: ActivityData, d: Seq<char>)
    requires
        0 <= p < acts.len(),
    ensures
        count_in(acts.update(p, e), d) + weight(acts[p], d) == count_in(acts, d) + weight(e, d),
    decreases acts.len(),
{
    let s = acts.update(p, e);
    if p == acts.len() - 1 {
        assert(s.drop_last() =~= acts.drop_last());
    } else {
        assert(s.drop_last() =~= acts.drop_last().update(p, e));
        lemma_count_update(acts.drop_last(), p, e, d);
    }
}

proof fn lemma_occurrences_bound(days: Seq<Seq<char>>, d: Seq<char>)
    ensures
        occurrences(days, d) <= days.len(),
    decreases days.len(),
{
    if days.len() != 0 {
        lemma_occurrences_bound(days.drop_last(), d);
    }
}

/// Fewer than `n` lists of at most `m` items each, and one more such list,
/// hold no more items than `u128` can count, for `n` and `m` within `usize`.
proof fn lemma_counts_fit(i: int, n: int, m: int)
    requires
        0 <= i < n <= m <= 0xFFFF_FFFF_FFFF_FFFF,
    ensures
        i * m + m == (i + 1) * m,
        0 <= i * m,
        (i + 1) * m <= u128::MAX,
{
    assert(i * m + m == (i + 1) * m) by (nonlinear_arith);
    assert(0 <= i * m && (i + 1) * m <= m * m) by (nonlinear_arith)
        requires
            0 <= i < n <= m,
    ;
    assert(m * m <= 0xFFFF_FFFF_FFFF_FFFF * 0xFFFF_FFFF_FFFF_FFFF) by (nonlinear_arith)
        requires
            0 <= m <= 0xFFFF_FFFF_FFFF_FFFF,
    ;
}

/// The level of a day with `count` completed reminders.
pub fn level_for(count: u128) -> (level: usize)
    ensures
        level == level_of(count as nat),
{
    let half: u128 = count / 2 + count % 2;
    if half >= 4 {
        4
    } else {
        half as usize
    }
}

/// Adds one completed reminder on `day` to an activity series: the entry of
/// that day counts one more, or a new entry with count 1 takes its place in
/// the order of dates. No other day's count changes.
pub fn record_day(acts: &mut Vec<ActivityData>, day: String)
    requires
        well_formed(old(acts)@),
        count_in(old(acts)@, day@) < u128::MAX,
    ensures
        well_formed(final(acts)@),
        forall|d: Seq<char>|
            #[trigger] count_in(final(acts)@, d) == count_in(old(acts)@, d) + if d == day@ {
                1nat
            } else {
                0nat
            },
{
    let mut p: usize = 0;
    while p < acts.len() && text_less(acts[p].date.as_str(), day.as_str())
        invariant
            p <= acts.len(),
            acts@ == old(acts)@,
            forall|k: int| 0 <= k < p ==> text_lt((#[trigger] acts@[k]).date@, day@),
        decreases acts.len() - p,
    {
        p += 1;
    }
    let ghost before = acts@;
    if p < acts.len() && acts[p].date == day {
        let c: u128 = acts[p].count;
        proof {
            let zero = ActivityData { date: before[p as int].date, count: 0, level: 0 };
            lemma_count_update(before, p as int, zero, day@);
        }
        let e = ActivityData { date: day, count: c + 1, level: level_for(c + 1) };
        proof {
            assert forall|d: Seq<char>|
                #[trigger] count_in(before.update(p as int, e), d) == count_in(before, d) + if d
                    == day@ {
                    1nat
                } else {
                    0nat
                } by {
                lemma_count_update(before, p as int, e, d);
            }
        }
        acts.set(p, e);
    } else {
        let e = ActivityData { date: day, count: 1, level: 1 };
        proof {
            if p < before.len() {
                lemma_text_lt_total(before[p as int].date@, day@);
            }
            assert forall|d: Seq<char>|
                #[trigger] count_in(before.insert(p as int, e), d) == count_in(before, d) + if d
                    == day@ {
                    1nat
                } else {
                    0nat
                } by {
                lemma_count_insert(before, p as int, e, d);
            }
        }
        acts.insert(p, e);
    }
}

/// The day that a reminder adds to the series, if any.
pub fn effective_day(r: &Reminder) -> (day: Option<String>)
    ensures
        opt_text(day) == reminder_day(*r),
{
    if !r.completed {
        return None;
    }
    match &r.updated_at {
        Some(s) => timestamp_day(s.as_str()),
        None => match &r.reminder_time {
            Some(s) => timestamp_day(s.as_str()),
            None => None,
        },
    }
}

/// Whether `tag` is among `seen`.
fn has_tag(seen: &Vec<String>, tag: &String) -> (found: bool)
    ensures
        found == texts(seen@).contains(tag@),
{
    let mut k: usize = 0;
    while k < seen.len()
        invariant
            k <= seen.len(),
            forall|m: int| 0 <= m < k ==> texts(seen@)[m] != tag@,
        decreases seen.len() - k,
    {
        if seen[k] == *tag {
            assert(texts(seen@)[k as int] == tag@);
            return true;
        }
        k += 1;
    }
    false
}

/// Adds to `seen` each tag of `tags` that it does not hold yet.
fn absorb_tags(seen: &mut Vec<String>, tags: &Vec<String>)
    requires
        texts(old(seen)@).no_duplicates(),
    ensures
        texts(final(seen)@).no_duplicates(),
        texts(final(seen)@).to_set() == texts(old(seen)@).to_set().union(texts(tags@).to_set()),
{
    let ghost start = texts(seen@).to_set();
    let mut j: usize = 0;
    assert(texts(tags@.take(0)) =~= Seq::<Seq<char>>::empty());
    assert(texts(tags@.take(0)).to_set() =~= Set::<Seq<char>>::empty());
    assert(texts(seen@).to_set() =~= start.union(texts(tags@.take(0)).to_set()));
    while j < tags.len()
        invariant
            j <= tags.len(),
            texts(seen@).no_duplicates(),
            texts(seen@).to_set() == start.union(texts(tags@.take(j as int)).to_set()),
        decreases tags.len() - j,
    {
        let tag = &tags[j];
        let ghost prev = texts(seen@);
        let ghost done = texts(tags@.take(j as int));
        proof {
            assert(texts(tags@.take(j + 1)) =~= done.push(tag@));
            done.lemma_push_to_set_commute(tag@);
        }
        if !has_tag(seen, tag) {
            let fresh = tag.clone();
            seen.push(fresh);
            proof {
                assert(texts(seen@) =~= prev.push(tag@));
                prev.lemma_push_to_set_commute(tag@);
            }
        }
        assert(texts(seen@).to_set() =~= start.union(texts(tags@.take(j + 1)).to_set()));
        j += 1;
    }
    assert(tags@.take(tags.len() as int) =~= tags@);
}

/// Counts the completed reminders of `rs` and records the day of each one that
/// has a day. `prior` holds the reminders that `acts` has taken in before.
fn absorb_reminders(acts: &mut Vec<ActivityData>, rs: &Vec<Reminder>, Ghost(prior): Ghost<
    Seq<Reminder>,
>) -> (completed: usize)
    requires
        well_formed(old(acts)@),
        prior.len() + rs@.len() <= u128::MAX,
        forall|d: Seq<char>| #[trigger]
            count_in(old(acts)@, d) == occurrences(reminder_days(prior), d),
    ensures
        well_formed(final(acts)@),
        completed_in(prior + rs@) == completed_in(prior) + completed,
        completed <= rs@.len(),
        forall|d: Seq<char>| #[trigger]
            count_in(final(acts)@, d) == occurrences(reminder_days(prior + rs@), d),
{
    let mut completed: usize = 0;
    let mut j: usize = 0;
    assert(prior + rs@.take(0) =~= prior);
    while j < rs.len()
        invariant
            j <= rs.len(),
            prior.len() + rs@.len() <= u128::MAX,
            well_formed(acts@),
            completed <= j,
            completed_in(prior + rs@.take(j as int)) == completed_in(prior) + completed,
            forall|d: Seq<char>| #[trigger]
                count_in(acts@, d) == occurrences(reminder_days(prior + rs@.take(j as int)), d),
        decreases rs.len() - j,
    {
        let r = &rs[j];
        let ghost cur = prior + rs@.take(j as int);
        let ghost next = prior + rs@.take(j + 1);
        proof {
            assert(next =~= cur.push(*r));
            assert(next.drop_last() =~= cur);
            lemma_days_bound(cur);
        }
        if r.completed {
            completed += 1;
        }
        match effective_day(r) {
            Some(day) => {
                proof {
                    lemma_occurrences_bound(reminder_days(cur), day@);
                    assert(reminder_days(next) == reminder_days(cur).push(day@));
                    assert(reminder_days(next).drop_last() =~= reminder_days(cur));
                }
                record_day(acts, day);
            },
            None => {},
        }
        j += 1;
    }
    assert(rs@.take(rs.len() as int) =~= rs@);
    completed
}

/// Statistics and activity series of a collection of notes.
///
/// The notes are counted, and so are their reminders and the completed ones
/// among them. `tagsUsed` is the number of different tags, compared letter by
/// letter. The series has one entry for each day on which a completed reminder
/// falls, in strictly ascending order of the dates, with the number of those
/// reminders and its level.
pub fn calculate_activity(notes: Vec<Note>) -> (res: ActivityResult)
    ensures
        res.stats.totalNotes == notes@.len(),
        res.stats.totalReminders == reminder_total(notes@),
        res.stats.completedReminders == completed_in(all_reminders(notes@)),
        res.stats.completedReminders <= res.stats.totalReminders,
        res.stats.tagsUsed == texts(all_tags(notes@)).to_set().len(),
        well_formed(res.activityData@),
        strictly_sorted(res.activityData@),
        forall|d: Seq<char>| #[trigger]
            count_in(res.activityData@, d) == occurrences(
                reminder_days(all_reminders(notes@)),
                d,
            ),
{
    let mut acts: Vec<ActivityData> = Vec::new();
    let mut seen: Vec<String> = Vec::new();
    let mut total: u128 = 0;
    let mut completed: u128 = 0;
    let mut i: usize = 0;
    assert(notes@.take(0) =~= Seq::<Note>::empty());
    assert(texts(seen@) =~= texts(all_tags(notes@.take(0))));
    while i < notes.len()
        invariant
            i <= notes.len(),
            total == all_reminders(notes@.take(i as int)).len(),
            total <= i * usize::MAX,
            completed == completed_in(all_reminders(notes@.take(i as int))),
            completed <= total,
            well_formed(acts@),
            forall|d: Seq<char>| #[trigger]
                count_in(acts@, d) == occurrences(
                    reminder_days(all_reminders(notes@.take(i as int))),
                    d,
                ),
            texts(seen@).no_duplicates(),
            texts(seen@).to_set() == texts(all_tags(notes@.take(i as int))).to_set(),
        decreases notes.len() - i,
    {
        let note = &notes[i];
        let ghost prior = all_reminders(notes@.take(i as int));
        let ghost prior_tags = all_tags(notes@.take(i as int));
        proof {
            assert(notes@.take(i + 1).drop_last() =~= notes@.take(i as int));
            assert(notes@.take(i + 1).last() == *note);
            lemma_counts_fit(i as int, notes.len() as int, usize::MAX as int);
            assert(texts(prior_tags + note_tags(*note)) =~= texts(prior_tags) + texts(
                note_tags(*note),
            ));
            vstd::seq_lib::seq_to_set_distributes_over_add(
                texts(prior_tags),
                texts(note_tags(*note)),
            );
        }
        match &note.tags {
            Some(tags) => {
                absorb_tags(&mut seen, tags);
            },
            None => {
                assert(texts(note_tags(*note)).to_set() =~= Set::<Seq<char>>::empty());
                assert(texts(seen@).to_set() =~= texts(seen@).to_set().union(
                    Set::<Seq<char>>::empty(),
                ));
            },
        }
        match &note.reminders {
            Some(rs) => {
                let more: usize = rs.len();
                let done: usize = absorb_reminders(&mut acts, rs, Ghost(prior));
                total += more as u128;
                completed += done as u128;
            },
            None => {
                assert(prior + note_reminders(*note) =~= prior);
            },
        }
        i += 1;
    }
    assert(notes@.take(notes.len() as int) =~= notes@);
    proof {
        texts(seen@).unique_seq_to_set();
        lemma_reminder_total(notes@);
        assert forall|i: int, j: int| 0 <= i < j < acts@.len() implies text_lt(
            (#[trigger] acts@[i]).date@,
            (#[trigger] acts@[j]).date@,
        ) by {
            lemma_ascending_pairwise(acts@, i, j);
        }
    }
    ActivityResult {
        stats: Stats {
            totalNotes: notes.len(),
            totalReminders: total,
            completedReminders: completed,
            tagsUsed: seen.len(),
        },
        activityData: acts,
    }
}

} // verus!
