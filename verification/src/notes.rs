//! Editing a student's note lists.
//!
//! These are the mutations that callers hand to the cache's update
//! operations: append a note numbered by the record's own counter, remove a
//! note by its identifier, or replace a note's text by its identifier.
//! Removal and editing address the first note carrying the identifier;
//! under the counter discipline identifiers are unique, so that is the note.
use vstd::prelude::*;

use crate::codec::views_of;
use crate::counter::Counter;
use crate::records::{Note, NoteView, Student, StudentView};

verus! {

/// The index of the first note with identifier `id`, or `-1` if none has it.
pub open spec fn note_index(ns: Seq<NoteView>, id: u32) -> int
    decreases ns.len(),
{
    if ns.len() == 0 {
        -1
    } else if ns[0].id == id {
        0
    } else {
        let rest = note_index(ns.subrange(1, ns.len() as int), id);
        if rest == -1 {
            -1
        } else {
            rest + 1
        }
    }
}

/// What `note_index` finds: a valid position holding `id` with no earlier
/// match, or `-1` when no note has it.
pub proof fn lemma_note_index(ns: Seq<NoteView>, id: u32)
    ensures
        note_index(ns, id) >= -1,
        note_index(ns, id) == -1 ==> forall|j: int| 0 <= j < ns.len() ==> ns[j].id != id,
        note_index(ns, id) >= 0 ==> note_index(ns, id) < ns.len() && ns[note_index(ns, id)].id
            == id && (forall|j: int| 0 <= j < note_index(ns, id) ==> ns[j].id != id),
    decreases ns.len(),
{
    if ns.len() > 0 && ns[0].id != id {
        let rest = ns.subrange(1, ns.len() as int);
        lemma_note_index(rest, id);
        assert forall|j: int| 0 <= j < ns.len() implies (j == 0 || rest[j - 1] == ns[j]) by {}
    }
}

/// Conversely, a position holding `id` with no earlier match is what
/// `note_index` finds.
pub proof fn lemma_note_index_at(ns: Seq<NoteView>, id: u32, i: int)
    requires
        0 <= i < ns.len(),
        ns[i].id == id,
        forall|j: int| 0 <= j < i ==> ns[j].id != id,
    ensures
        note_index(ns, id) == i,
    decreases ns.len(),
{
    if i > 0 {
        let rest = ns.subrange(1, ns.len() as int);
        assert forall|j: int| 0 <= j < i - 1 implies rest[j].id != id by {
            assert(rest[j] == ns[j + 1]);
        }
        assert(rest[i - 1] == ns[i]);
        lemma_note_index_at(rest, id, i - 1);
    }
}

/// The first position in `ns` whose note has identifier `id`, if any.
fn find_note_index(ns: &Vec<Note>, id: u32) -> (r: Option<usize>)
    ensures
        match r {
            Some(i) => note_index(views_of(ns@), id) == i as int,
            None => note_index(views_of(ns@), id) == -1,
        },
{
    let mut i: usize = 0;
    while i < ns.len()
        invariant
            i <= ns.len(),
            forall|j: int| 0 <= j < i ==> views_of(ns@)[j].id != id,
        decreases ns.len() - i,
    {
        if ns[i].id == id {
            proof {
                assert(views_of(ns@)[i as int] == ns@[i as int]@);
                lemma_note_index_at(views_of(ns@), id, i as int);
            }
            return Some(i);
        }
        proof {
            assert(views_of(ns@)[i as int] == ns@[i as int]@);
        }
        i = i + 1;
    }
    proof {
        lemma_note_index(views_of(ns@), id);
        if note_index(views_of(ns@), id) >= 0 {
            assert(views_of(ns@)[note_index(views_of(ns@), id)].id == id);
        }
    }
    None
}

/// Append a note numbered by `counter`: the new note carries the counter's
/// next value, and returns that identifier.
pub fn push_numbered_note(
    list: &mut Vec<Note>,
    counter: &mut Counter,
    date: String,
    user: String,
    content: String,
) -> (id: u32)
    requires
        old(counter)@ < u32::MAX,
    ensures
        final(counter)@ == old(counter)@ + 1,
        id == old(counter)@ + 1,
        views_of(final(list)@) == views_of(old(list)@).push(
            (NoteView { id: (old(counter)@ + 1) as u32, date: date@, user: user@, content: content@ }),
        ),
{
    let id = counter.inc();
    let ghost before = list@;
    list.push(Note { id, date, user, content });
    proof {
        crate::codec::lemma_views_of_push(before, list@.last());
    }
    id
}

/// Remove the first note with identifier `id`, if any; report whether one
/// was there.
pub fn remove_note_by_id(list: &mut Vec<Note>, id: u32) -> (removed: bool)
    ensures
        ({
            let i = note_index(views_of(old(list)@), id);
            if i >= 0 {
                removed && views_of(final(list)@) == views_of(old(list)@).remove(i)
            } else {
                !removed && final(list)@ == old(list)@
            }
        }),
{
    proof {
        lemma_note_index(views_of(list@), id);
    }
    match find_note_index(list, id) {
        Some(i) => {
            let ghost before = list@;
            list.remove(i);
            proof {
                assert(views_of(list@) =~= views_of(before).remove(i as int));
            }
            true
        },
        None => false,
    }
}

/// Replace the text of the first note with identifier `id`, if any; report
/// whether one was there. The note's identifier, date and author stay.
pub fn edit_note_by_id(list: &mut Vec<Note>, id: u32, content: &str) -> (found: bool)
    ensures
        ({
            let i = note_index(views_of(old(list)@), id);
            if i >= 0 {
                found && views_of(final(list)@) == views_of(old(list)@).update(
                    i,
                    (NoteView { content: content@, ..views_of(old(list)@)[i] }),
                )
            } else {
                !found && final(list)@ == old(list)@
            }
        }),
{
    proof {
        lemma_note_index(views_of(list@), id);
    }
    match find_note_index(list, id) {
        Some(i) => {
            let ghost before = list@;
            let old_note = list.remove(i);
            list.insert(
                i,
                Note {
                    id: old_note.id,
                    date: old_note.date,
                    user: old_note.user,
                    content: content.to_owned(),
                },
            );
            proof {
                assert(views_of(list@) =~= views_of(before).update(
                    i as int,
                    (NoteView { content: content@, ..views_of(before)[i as int] }),
                ));
            }
            true
        },
        None => false,
    }
}

/// Which of a student's note lists an edit addresses.
#[derive(Clone, Copy, PartialEq, Eq, Structural, Debug)]
pub enum NoteKind {
    Logins,
    Notes,
    Behaviours,
}

/// The addressed note list of a student value.
pub open spec fn notes_of(v: StudentView, kind: NoteKind) -> Seq<NoteView> {
    match kind {
        NoteKind::Logins => v.logins,
        NoteKind::Notes => v.notes,
        NoteKind::Behaviours => v.behaviours,
    }
}

/// The student value with the addressed note list replaced.
pub open spec fn with_notes(v: StudentView, kind: NoteKind, l: Seq<NoteView>) -> StudentView {
    match kind {
        NoteKind::Logins => StudentView { logins: l, ..v },
        NoteKind::Notes => StudentView { notes: l, ..v },
        NoteKind::Behaviours => StudentView { behaviours: l, ..v },
    }
}

impl Student {
    /// Append a note to the addressed list, numbered by this record's own
    /// counter, and return its identifier. Nothing else changes.
    pub fn add_note(&mut self, kind: NoteKind, date: String, user: String, content: String) -> (id:
        u32)
        requires
            old(self)@.note_counter < u32::MAX,
        ensures
            id == old(self)@.note_counter + 1,
            final(self)@ == (StudentView {
                note_counter: (old(self)@.note_counter + 1) as u32,
                ..with_notes(
                    old(self)@,
                    kind,
                    notes_of(old(self)@, kind).push(
                        (NoteView {
                            id: (old(self)@.note_counter + 1) as u32,
                            date: date@,
                            user: user@,
                            content: content@,
                        }),
                    ),
                )
            }),
    {
        match kind {
            NoteKind::Logins => push_numbered_note(
                &mut self.logins,
                &mut self.note_counter,
                date,
                user,
                content,
            ),
            NoteKind::Notes => push_numbered_note(
                &mut self.notes,
                &mut self.note_counter,
                date,
                user,
                content,
            ),
            NoteKind::Behaviours => push_numbered_note(
                &mut self.behaviours,
                &mut self.note_counter,
                date,
                user,
                content,
            ),
        }
    }

    /// Remove the first note with identifier `id` from the addressed list,
    /// if any; report whether one was there. Nothing else changes.
    pub fn remove_note(&mut self, kind: NoteKind, id: u32) -> (removed: bool)
        ensures
            ({
                let ns = notes_of(old(self)@, kind);
                let i = note_index(ns, id);
                if i >= 0 {
                    removed && final(self)@ == with_notes(old(self)@, kind, ns.remove(i))
                } else {
                    !removed && final(self)@ == old(self)@
                }
            }),
    {
        match kind {
            NoteKind::Logins => remove_note_by_id(&mut self.logins, id),
            NoteKind::Notes => remove_note_by_id(&mut self.notes, id),
            NoteKind::Behaviours => remove_note_by_id(&mut self.behaviours, id),
        }
    }

    /// Replace the text of the first note with identifier `id` in the
    /// addressed list, if any; report whether one was there. The note keeps
    /// its identifier, date and author; nothing else changes.
    pub fn edit_note(&mut self, kind: NoteKind, id: u32, content: &str) -> (found: bool)
        ensures
            ({
                let ns = notes_of(old(self)@, kind);
                let i = note_index(ns, id);
                if i >= 0 {
                    found && final(self)@ == with_notes(
                        old(self)@,
                        kind,
                        ns.update(i, (NoteView { content: content@, ..ns[i] })),
                    )
                } else {
                    !found && final(self)@ == old(self)@
                }
            }),
    {
        match kind {
            NoteKind::Logins => edit_note_by_id(&mut self.logins, id, content),
            NoteKind::Notes => edit_note_by_id(&mut self.notes, id, content),
            NoteKind::Behaviours => edit_note_by_id(&mut self.behaviours, id, content),
        }
    }
}

} // verus!
