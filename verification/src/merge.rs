//! Turning imported roster information into student records.
//!
//! Imported information carries raw note texts; a student record carries
//! numbered notes. The conversion numbers every text with the student's own
//! counter, walking the login, note and behaviour lists in order, so the
//! identifiers are the consecutive values the counter hands out.
use vstd::prelude::*;

use crate::counter::Counter;
use crate::records::{Note, Student, StudentImportedInfo};

verus! {

/// Number a list of raw note texts: each text becomes a note whose
/// identifier is the next value of `counter`, with empty date and author.
pub fn notes_from_texts(texts: &Vec<String>, counter: &mut Counter) -> (r: Vec<Note>)
    requires
        old(counter)@ + texts@.len() <= u32::MAX,
    ensures
        final(counter)@ == old(counter)@ + texts@.len(),
        r@.len() == texts@.len(),
        forall|j: int|
            0 <= j < r@.len() ==> {
                &&& (#[trigger] r@[j])@.id == old(counter)@ + j + 1
                &&& r@[j]@.content == texts@[j]@
                &&& r@[j]@.date == Seq::<char>::empty()
                &&& r@[j]@.user == Seq::<char>::empty()
            },
{
    let mut out: Vec<Note> = Vec::new();
    let mut i: usize = 0;
    while i < texts.len()
        invariant
            i <= texts.len(),
            old(counter)@ + texts@.len() <= u32::MAX,
            counter@ == old(counter)@ + i,
            out@.len() == i,
            forall|j: int|
                0 <= j < i ==> {
                    &&& (#[trigger] out@[j])@.id == old(counter)@ + j + 1
                    &&& out@[j]@.content == texts@[j]@
                    &&& out@[j]@.date == Seq::<char>::empty()
                    &&& out@[j]@.user == Seq::<char>::empty()
                },
        decreases texts.len() - i,
    {
        let id = counter.inc();
        out.push(
            Note { id, date: String::new(), user: String::new(), content: texts[i].clone() },
        );
        i = i + 1;
    }
    out
}

/// Build a student record from imported information: the note texts of the
/// three lists are numbered consecutively by one fresh counter — logins
/// first, then notes, then behaviours — and the counter's final value is
/// persisted with the record. The student has no generated identifier yet,
/// no attendance date or time, and no assignment.
pub fn student_from_imported(info: &StudentImportedInfo, first_name: &str, last_name: &str) -> (r:
    Student)
    requires
        info@.logins.len() + info@.notes.len() + info@.behaviours.len() <= u32::MAX,
    ensures
        r@.first_name == first_name@,
        r@.last_name == last_name@,
        r@.id == Seq::<char>::empty(),
        r@.name == info@.name,
        r@.date is None,
        r@.time is None,
        r@.belt == info@.belt,
        r@.assigned is None,
        r@.logins.len() == info@.logins.len(),
        r@.notes.len() == info@.notes.len(),
        r@.behaviours.len() == info@.behaviours.len(),
        forall|j: int|
            0 <= j < r@.logins.len() ==> (#[trigger] r@.logins[j]).id == j + 1
                && r@.logins[j].content == info@.logins[j],
        forall|j: int|
            0 <= j < r@.notes.len() ==> (#[trigger] r@.notes[j]).id == info@.logins.len() + j + 1
                && r@.notes[j].content == info@.notes[j],
        forall|j: int|
            0 <= j < r@.behaviours.len() ==> (#[trigger] r@.behaviours[j]).id == info@.logins.len()
                + info@.notes.len() + j + 1 && r@.behaviours[j].content == info@.behaviours[j],
        r@.note_counter == info@.logins.len() + info@.notes.len() + info@.behaviours.len(),
{
    let mut counter = Counter::new();
    let logins = notes_from_texts(&info.logins, &mut counter);
    let notes = notes_from_texts(&info.notes, &mut counter);
    let behaviours = notes_from_texts(&info.behaviours, &mut counter);
    Student {
        first_name: first_name.to_owned(),
        last_name: last_name.to_owned(),
        id: String::new(),
        name: info.name.clone(),
        date: None,
        time: None,
        belt: info.belt.clone(),
        logins,
        notes,
        behaviours,
        assigned: None,
        note_counter: counter,
    }
}

} // verus!
