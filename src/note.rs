//! Notes and the checklist items they hold.
use vstd::prelude::*;
use std::collections::{BTreeMap, BTreeSet};
use crate::tag::TagID;

verus! {

/// One checklist entry of a note.
#[derive(Clone, Debug)]
pub struct ToDo {
    /// Nesting depth.
    pub indent: usize,
    pub complete: bool,
    /// The payload text, without marker or indentation.
    pub data: String,
}

/// What a checklist entry stands for.
pub struct ToDoModel {
    pub indent: nat,
    pub complete: bool,
    pub data: Seq<char>,
}

impl View for ToDo {
    type V = ToDoModel;

    open spec fn view(&self) -> ToDoModel {
        ToDoModel { indent: self.indent as nat, complete: self.complete, data: self.data@ }
    }
}

impl ToDo {
    /// An entry with the given payload, completion flag and depth.
    pub fn from(data: String, complete: bool, indent: usize) -> (r: ToDo)
        ensures
            r.data == data,
            r.complete == complete,
            r.indent == indent,
    {
        ToDo { complete, data, indent }
    }
}

/// The identifier of a note.
#[derive(Clone, Copy, PartialEq, Eq, Structural, PartialOrd, Ord, Hash, Debug)]
pub struct NoteID(pub u16);

impl NoteID {
    /// Advances to the next identifier and returns it.
    pub fn next(&mut self) -> (r: NoteID)
        requires
            old(self).0 < u16::MAX,
        ensures
            final(self).0 == old(self).0 + 1,
            r == *final(self),
    {
        self.0 = self.0 + 1;
        NoteID(self.0)
    }
}

/// A note: a title and its checklist.
#[derive(Debug)]
pub struct Note {
    pub title: String,
    pub id: NoteID,
    pub items: Vec<ToDo>,
    pub focused: bool,
    pub displayed: bool,
    /// The identifiers of the note's tags, if it has any.
    pub tag: Option<BTreeSet<u8>>,
}

impl Note {
    /// Whether the note has the focus.
    pub fn is_focused(&self) -> (r: bool)
        ensures
            r == self.focused,
    {
        self.focused
    }

    /// Gives the note the focus.
    pub fn focus(&mut self)
        ensures
            final(self).focused,
            final(self).title == old(self).title,
            final(self).id == old(self).id,
            final(self).items == old(self).items,
            final(self).displayed == old(self).displayed,
            final(self).tag == old(self).tag,
    {
        self.focused = true;
    }

    /// Adds a tag; returns whether the note did not have it yet.
    pub fn add_tag(&mut self, id: TagID) -> (r: bool)
        ensures
            final(self).tag matches Some(set) && set@ == match old(self).tag {
                Some(old_set) => old_set@.insert(id.0),
                None => Set::empty().insert(id.0),
            },
            r == match old(self).tag {
                Some(old_set) => !old_set@.contains(id.0),
                None => true,
            },
            final(self).title == old(self).title,
            final(self).id == old(self).id,
            final(self).items == old(self).items,
            final(self).focused == old(self).focused,
            final(self).displayed == old(self).displayed,
    {
        broadcast use vstd::std_specs::btree::group_btree_axioms, vstd::laws_cmp::group_laws_cmp;

        match self.tag.take() {
            Some(mut set) => {
                let added = set.insert(id.0);
                self.tag = Some(set);
                added
            },
            None => {
                let mut set = BTreeSet::new();
                set.insert(id.0);
                self.tag = Some(set);
                true
            },
        }
    }

    /// Whether the note is shown.
    pub fn displayed(&self) -> (r: bool)
        ensures
            r == self.displayed,
    {
        self.displayed
    }

    /// Takes the focus from the note.
    pub fn unfocus(&mut self)
        ensures
            !final(self).focused,
            final(self).title == old(self).title,
            final(self).id == old(self).id,
            final(self).items == old(self).items,
            final(self).displayed == old(self).displayed,
            final(self).tag == old(self).tag,
    {
        self.focused = false;
    }
}

/// Every note, by identifier.
#[derive(Debug)]
pub struct NoteCollection {
    pub notes: BTreeMap<u16, Note>,
}

/// Relies on `BTreeMap::last_key_value`: the greatest key of the map, `None` when it is empty.
#[verifier::external_body]
fn last_note_key(m: &BTreeMap<u16, Note>) -> (r: Option<u16>)
    ensures
        r matches Some(k) ==> m@.contains_key(k) && forall|j: u16| #[trigger]
            m@.contains_key(j) ==> j <= k,
        r is None ==> m@.dom() =~= Set::empty(),
{
    m.last_key_value().map(|(k, _)| *k)
}

/// Every note of the collection is stored under its own identifier.
pub open spec fn notes_keyed(m: Map<u16, Note>) -> bool {
    forall|k: u16| #[trigger] m.contains_key(k) ==> m[k].id.0 == k
}

impl NoteCollection {
    /// An empty collection.
    pub fn new() -> (r: NoteCollection)
        ensures
            r.notes@ == Map::<u16, Note>::empty(),
    {
        NoteCollection { notes: BTreeMap::new() }
    }

    /// Stores `note` under its identifier, replacing any note stored there.
    pub fn add(&mut self, note: Note)
        ensures
            final(self).notes@ == old(self).notes@.insert(note.id.0, note),
    {
        broadcast use vstd::std_specs::btree::group_btree_axioms, vstd::laws_cmp::group_laws_cmp;

        self.notes.insert(note.id.0, note);
    }

    /// Removes the note stored under `id`, if any.
    pub fn remove(&mut self, id: &NoteID)
        ensures
            final(self).notes@ == old(self).notes@.remove(id.0),
    {
        broadcast use vstd::std_specs::btree::group_btree_axioms, vstd::laws_cmp::group_laws_cmp;

        self.notes.remove(&id.0);
    }

    /// The greatest identifier in use, if any note is stored.
    pub fn max_id(&self) -> (r: Option<NoteID>)
        ensures
            r matches Some(id) ==> self.notes@.contains_key(id.0) && forall|j: u16| #[trigger]
                self.notes@.contains_key(j) ==> j <= id.0,
            r is None ==> self.notes@.dom() =~= Set::empty(),
    {
        match last_note_key(&self.notes) {
            Some(k) => Some(NoteID(k)),
            None => None,
        }
    }
}

/// Hands out fresh note identifiers, counting up from a start.
pub struct NoteFactory {
    pub note_id: NoteID,
}

impl NoteFactory {
    /// A factory counting up from `start_id`, or from 0.
    pub fn new(start_id: Option<NoteID>) -> (r: NoteFactory)
        ensures
            r.note_id == match start_id {
                Some(id) => id,
                None => NoteID(0),
            },
    {
        match start_id {
            Some(id) => NoteFactory { note_id: id },
            None => NoteFactory { note_id: NoteID(0) },
        }
    }

    /// A new, empty, displayed and unfocused note with the next identifier, carrying the
    /// given tag if any.
    pub fn create(&mut self, title: String, tag: Option<TagID>) -> (r: Note)
        requires
            old(self).note_id.0 < u16::MAX,
        ensures
            final(self).note_id.0 == old(self).note_id.0 + 1,
            r.id == final(self).note_id,
            r.title == title,
            r.items@.len() == 0,
            !r.focused,
            r.displayed,
            match tag {
                Some(t) => r.tag matches Some(set) && set@ == Set::empty().insert(t.0),
                None => r.tag is None,
            },
    {
        broadcast use vstd::std_specs::btree::group_btree_axioms, vstd::laws_cmp::group_laws_cmp;

        let tags = match tag {
            Some(t) => {
                let mut set = BTreeSet::new();
                set.insert(t.0);
                Some(set)
            },
            None => None,
        };
        Note {
            title,
            id: self.note_id.next(),
            items: Vec::new(),
            focused: false,
            displayed: true,
            tag: tags,
        }
    }

    /// A new note with the next identifier and no tag.
    pub fn create_note(&mut self, title: String) -> (r: Note)
        requires
            old(self).note_id.0 < u16::MAX,
        ensures
            final(self).note_id.0 == old(self).note_id.0 + 1,
            r.id == final(self).note_id,
            r.title == title,
            r.items@.len() == 0,
            !r.focused,
            r.displayed,
            r.tag is None,
    {
        self.create(title, None)
    }
}

} // verus!
