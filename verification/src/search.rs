//! Search over a collection of notes by the words of a query.

use crate::activity::{note_tags, texts};
use crate::model::Note;
use crate::text::{char_is_space, contains_text, is_space, is_substring, lowercase, lowered};
use vstd::prelude::*;
use vstd::string::{StrSliceExecFns, StringExecFns};

verus! {

/// The number of characters of `s` before its first white space.
pub open spec fn word_len(s: Seq<char>) -> nat
    decreases s.len(),
{
    if s.len() == 0 || is_space(s[0]) {
        0
    } else {
        1 + word_len(s.drop_first())
    }
}

/// The words of a text: its longest runs of characters without white space,
/// from left to right.
pub open spec fn words(s: Seq<char>) -> Seq<Seq<char>>
    decreases s.len(),
{
    if s.len() == 0 {
        Seq::empty()
    } else if is_space(s[0]) {
        words(s.drop_first())
    } else {
        proof {
            lemma_word_len_bound(s);
        }
        seq![s.take(word_len(s) as int)] + words(s.skip(word_len(s) as int))
    }
}

/// A text of white space alone; the empty text is one.
pub open spec fn is_blank(s: Seq<char>) -> bool {
    forall|k: int| 0 <= k < s.len() ==> is_space(#[trigger] s[k])
}

/// The content of a note as text; empty where the note has none.
pub open spec fn content_text(note: Note) -> Seq<char> {
    match note.content {
        Some(c) => c@,
        None => Seq::empty(),
    }
}

/// One of `tags`, in lower case, holds `needle`.
pub open spec fn tag_hit(tags: Seq<String>, needle: Seq<char>) -> bool {
    exists|k: int| 0 <= k < tags.len() && is_substring(lowered((#[trigger] tags[k])@), needle)
}

/// A note meets a term. A term that begins with `#` asks for a tag that holds
/// the rest of the term; any other term asks for the title or the content to
/// hold it. Tags, title and content are compared in lower case.
pub open spec fn term_matches(note: Note, term: Seq<char>) -> bool {
    if term.len() > 0 && term[0] == '#' {
        tag_hit(note_tags(note), term.skip(1))
    } else {
        is_substring(lowered(note.title@), term) || is_substring(
            lowered(content_text(note)),
            term,
        )
    }
}

/// A note meets every term.
pub open spec fn note_matches(note: Note, terms: Seq<Seq<char>>) -> bool {
    forall|k: int| 0 <= k < terms.len() ==> term_matches(note, #[trigger] terms[k])
}

/// The ids of the notes that meet every term, in the order of the notes.
pub open spec fn matching_ids(notes: Seq<Note>, terms: Seq<Seq<char>>) -> Seq<String>
    decreases notes.len(),
{
    if notes.len() == 0 {
        Seq::empty()
    } else if note_matches(notes.last(), terms) {
        matching_ids(notes.drop_last(), terms).push(notes.last().id)
    } else {
        matching_ids(notes.drop_last(), terms)
    }
}

/// The ids of all notes, in order.
pub open spec fn all_ids(notes: Seq<Note>) -> Seq<String> {
    notes.map_values(|n: Note| n.id)
}

/// A word is no longer than its text, and not empty where the text begins
/// with a character that is no white space.
pub proof fn lemma_word_len_bound(s: Seq<char>)
    ensures
        word_len(s) <= s.len(),
        s.len() > 0 && !is_space(s[0]) ==> word_len(s) >= 1,
    decreases s.len(),
{
    if s.len() != 0 && !is_space(s[0]) {
        lemma_word_len_bound(s.drop_first());
    }
}

/// A text of white space alone has no words.
pub proof fn lemma_blank_has_no_words(s: Seq<char>)
    requires
        is_blank(s),
    ensures
        words(s) == Seq::<Seq<char>>::empty(),
    decreases s.len(),
{
    if s.len() != 0 {
        assert(is_space(s[0]));
        assert forall|k: int| 0 <= k < s.drop_first().len() implies is_space(
            #[trigger] s.drop_first()[k],
        ) by {
            assert(s.drop_first()[k] == s[k + 1]);
        }
        lemma_blank_has_no_words(s.drop_first());
    }
}

/// Without terms every note matches: the result is the ids of all notes in
/// their order.
pub proof fn lemma_no_terms_match_all(notes: Seq<Note>)
    ensures
        matching_ids(notes, Seq::empty()) == all_ids(notes),
    decreases notes.len(),
{
    if notes.len() == 0 {
        assert(all_ids(notes) =~= Seq::<String>::empty());
    } else {
        lemma_no_terms_match_all(notes.drop_last());
        assert(note_matches(notes.last(), Seq::empty()));
        assert(all_ids(notes) =~= all_ids(notes.drop_last()).push(notes.last().id));
    }
}

/// The words of a text.
pub fn split_words(s: &str) -> (r: Vec<String>)
    ensures
        texts(r@) == words(s@),
{
    let n: usize = s.unicode_len();
    let mut out: Vec<String> = Vec::new();
    let mut i: usize = 0;
    assert(s@.skip(0) =~= s@);
    assert(texts(out@) + words(s@) =~= words(s@));
    while i < n
        invariant
            i <= n,
            n == s@.len(),
            words(s@) == texts(out@) + words(s@.skip(i as int)),
        decreases n - i,
    {
        let ghost rest = s@.skip(i as int);
        assert(rest.drop_first() =~= s@.skip(i + 1));
        if char_is_space(s.get_char(i)) {
            i += 1;
        } else {
            let mut j: usize = i + 1;
            while j < n && !char_is_space(s.get_char(j))
                invariant
                    i < j <= n,
                    n == s@.len(),
                    word_len(rest) == (j - i) + word_len(s@.skip(j as int)),
                decreases n - j,
            {
                assert(s@.skip(j as int).drop_first() =~= s@.skip(j + 1));
                j += 1;
            }
            let word = String::from_str(s.substring_char(i, j));
            proof {
                assert(word_len(rest) == j - i);
                assert(rest.take(j - i) =~= word@);
                assert(rest.skip(j - i) =~= s@.skip(j as int));
                assert(texts(out@.push(word)) =~= texts(out@).push(word@));
                assert(texts(out@) + (seq![word@] + words(s@.skip(j as int))) =~= texts(
                    out@,
                ).push(word@) + words(s@.skip(j as int)));
            }
            out.push(word);
            i = j;
        }
    }
    assert(words(s@.skip(n as int)) =~= Seq::<Seq<char>>::empty());
    assert(texts(out@) + Seq::<Seq<char>>::empty() =~= texts(out@));
    out
}

/// Whether one of `tags`, in lower case, holds `needle`.
fn any_tag_has(tags: &Vec<String>, needle: &str) -> (r: bool)
    ensures
        r == tag_hit(tags@, needle@),
{
    let mut k: usize = 0;
    while k < tags.len()
        invariant
            k <= tags.len(),
            forall|m: int| 0 <= m < k ==> !is_substring(lowered((#[trigger] tags@[m])@), needle@),
        decreases tags.len() - k,
    {
        let low = lowercase(tags[k].as_str());
        if contains_text(low.as_str(), needle) {
            return true;
        }
        k += 1;
    }
    false
}

/// Whether a note meets one term, given its title and content in lower case.
fn note_has_term(note: &Note, title_low: &str, content_low: &str, term: &str) -> (r: bool)
    requires
        title_low@ == lowered(note.title@),
        content_low@ == lowered(content_text(*note)),
    ensures
        r == term_matches(*note, term@),
{
    let n: usize = term.unicode_len();
    if n > 0 && term.get_char(0) == '#' {
        let needle = term.substring_char(1, n);
        assert(needle@ =~= term@.skip(1));
        match &note.tags {
            Some(tags) => any_tag_has(tags, needle),
            None => false,
        }
    } else {
        contains_text(title_low, term) || contains_text(content_low, term)
    }
}

/// Whether a note meets every one of `terms`.
pub fn note_matches_terms(note: &Note, terms: &Vec<String>) -> (r: bool)
    ensures
        r == note_matches(*note, texts(terms@)),
{
    let title_low = lowercase(note.title.as_str());
    let content_low = match &note.content {
        Some(c) => lowercase(c.as_str()),
        None => {
            let none = String::new();
            lowercase(none.as_str())
        },
    };
    let mut k: usize = 0;
    while k < terms.len()
        invariant
            k <= terms.len(),
            title_low@ == lowered(note.title@),
            content_low@ == lowered(content_text(*note)),
            forall|m: int| 0 <= m < k ==> term_matches(*note, #[trigger] texts(terms@)[m]),
        decreases terms.len() - k,
    {
        if !note_has_term(note, title_low.as_str(), content_low.as_str(), terms[k].as_str()) {
            assert(!term_matches(*note, texts(terms@)[k as int]));
            return false;
        }
        k += 1;
    }
    true
}

/// The ids of the notes that meet every one of `terms`, in the order of the
/// notes.
pub fn filter_notes(notes: &Vec<Note>, terms: &Vec<String>) -> (r: Vec<String>)
    ensures
        r@ == matching_ids(notes@, texts(terms@)),
{
    let mut out: Vec<String> = Vec::new();
    let mut i: usize = 0;
    assert(notes@.take(0) =~= Seq::<Note>::empty());
    while i < notes.len()
        invariant
            i <= notes.len(),
            out@ == matching_ids(notes@.take(i as int), texts(terms@)),
        decreases notes.len() - i,
    {
        assert(notes@.take(i + 1).drop_last() =~= notes@.take(i as int));
        if note_matches_terms(&notes[i], terms) {
            let id = notes[i].id.clone();
            out.push(id);
        }
        i += 1;
    }
    assert(notes@.take(notes.len() as int) =~= notes@);
    out
}

/// Whether a text is white space alone.
pub fn text_is_blank(s: &str) -> (r: bool)
    ensures
        r == is_blank(s@),
{
    let n: usize = s.unicode_len();
    let mut k: usize = 0;
    while k < n
        invariant
            k <= n,
            n == s@.len(),
            forall|m: int| 0 <= m < k ==> is_space(#[trigger] s@[m]),
        decreases n - k,
    {
        if !char_is_space(s.get_char(k)) {
            return false;
        }
        k += 1;
    }
    true
}

/// Searches the notes for a query.
///
/// A query that is empty or white space alone asks for nothing: the result
/// holds the ids of all notes in their order. Any other query is put in lower
/// case and split into words at white space, and the result holds the id of
/// each note that meets every word, in the order of the notes.
pub fn search_notes(notes: Vec<Note>, query: String) -> (r: Vec<String>)
    ensures
        is_blank(query@) ==> r@ == all_ids(notes@),
        !is_blank(query@) ==> r@ == matching_ids(notes@, words(lowered(query@))),
{
    if text_is_blank(query.as_str()) {
        let none: Vec<String> = Vec::new();
        proof {
            assert(texts(none@) =~= Seq::<Seq<char>>::empty());
            lemma_no_terms_match_all(notes@);
        }
        return filter_notes(&notes, &none);
    }
    let low = lowercase(query.as_str());
    let terms = split_words(low.as_str());
    filter_notes(&notes, &terms)
}

} // verus!
