//! The application's state: the notes, which of them are shown and in what order,
//! which one has the focus, and the tags.
use vstd::prelude::*;
use vstd::arithmetic::div_mod::{lemma_mod_self_0, lemma_small_mod};
use crate::note::{Note, NoteCollection, NoteFactory, NoteID};
use crate::screen::CurrentScreen;
use crate::tag::{value_mut, Tag, TagCollection, TagID};

verus! {

/// The first index at or after `k` where `s` holds `x`.
pub open spec fn index_from(s: Seq<NoteID>, x: NoteID, k: int) -> Option<int>
    decreases s.len() - k,
{
    if k < 0 || k >= s.len() {
        None
    } else if s[k] == x {
        Some(k)
    } else {
        index_from(s, x, k + 1)
    }
}

/// The first index where `s` holds `x`.
pub open spec fn index_of(s: Seq<NoteID>, x: NoteID) -> Option<int> {
    index_from(s, x, 0)
}

/// The position of `x` in `s`.
fn position(s: &Vec<NoteID>, x: NoteID) -> (r: Option<usize>)
    ensures
        r matches Some(i) ==> index_of(s@, x) == Some(i as int) && i < s@.len(),
        r is None ==> index_of(s@, x) is None,
{
    let mut k: usize = 0;
    while k < s.len()
        invariant
            k <= s@.len(),
            index_of(s@, x) == index_from(s@, x, k as int),
        decreases s.len() - k,
    {
        if s[k] == x {
            return Some(k);
        }
        k += 1;
    }
    None
}

/// The note map with the note under `id`, if any, marked focused or not.
pub open spec fn with_focus(m: Map<u16, Note>, id: u16, focused: bool) -> Map<u16, Note> {
    if m.contains_key(id) {
        m.insert(id, Note { focused, ..m[id] })
    } else {
        m
    }
}

/// The note shown after the one at `i` in `s`, wrapping round to the first.
pub open spec fn after(s: Seq<NoteID>, i: Option<int>) -> Option<NoteID> {
    match i {
        Some(i) => if i + 1 < s.len() {
            Some(s[i + 1])
        } else if s.len() > 0 {
            Some(s[0])
        } else {
            None
        },
        None => if s.len() > 0 {
            Some(s[0])
        } else {
            None
        },
    }
}

/// The note shown before the one at `i` in `s`, wrapping round to the last.
pub open spec fn before(s: Seq<NoteID>, i: Option<int>) -> Option<NoteID> {
    match i {
        Some(i) => if i > 0 {
            Some(s[i - 1])
        } else if s.len() > 0 {
            Some(s.last())
        } else {
            None
        },
        None => if s.len() > 0 {
            Some(s.last())
        } else {
            None
        },
    }
}

/// `s` with the entries at `i` and `j` exchanged.
pub open spec fn swapped(s: Seq<NoteID>, i: int, j: int) -> Seq<NoteID> {
    s.update(i, s[j]).update(j, s[i])
}

/// The application's state.
pub struct App {
    pub current_screen: CurrentScreen,
    pub notes: NoteCollection,
    /// The notes shown, in the order they are shown.
    pub displaying: Vec<NoteID>,
    pub tags: TagCollection,
    pub note_focus: Option<NoteID>,
    pub clipboard: String,
    pub modified: bool,
    pub note_factory: NoteFactory,
}

impl App {
    /// The state for stored notes and tags: every displayed note shown, in identifier
    /// order, nothing focused, new identifiers after the greatest one in use.
    pub fn new(notes: NoteCollection, tags: TagCollection) -> (r: App)
        ensures
            r.current_screen == CurrentScreen::Main,
            r.notes.notes@ == notes.notes@,
            r.note_focus is None,
            r.clipboard@ == Seq::<char>::empty(),
            !r.modified,
            forall|i: int| 0 <= i < r.displaying@.len() ==> notes.notes@.contains_key(
                #[trigger] r.displaying@[i].0,
            ) && notes.notes@[r.displaying@[i].0].displayed,
            forall|k: u16| #[trigger] notes.notes@.contains_key(k) && notes.notes@[k].displayed
                ==> exists|i: int| 0 <= i < r.displaying@.len() && r.displaying@[i].0 == k,
            forall|i: int, j: int| 0 <= i < j < r.displaying@.len() ==> r.displaying@[i].0
                < r.displaying@[j].0,
            notes.notes@.dom().is_empty() ==> r.note_factory.note_id == NoteID(0),
            !notes.notes@.dom().is_empty() ==> notes.notes@.contains_key(r.note_factory.note_id.0)
                && forall|j: u16| #[trigger]
                notes.notes@.contains_key(j) ==> j <= r.note_factory.note_id.0,
    {
        broadcast use vstd::std_specs::btree::group_btree_axioms, vstd::laws_cmp::group_laws_cmp;

        let mut displaying: Vec<NoteID> = Vec::new();
        let mut k: u32 = 0;
        while k <= 65535
            invariant
                k <= 65536,
                forall|i: int| 0 <= i < displaying@.len() ==> notes.notes@.contains_key(
                    #[trigger] displaying@[i].0,
                ) && notes.notes@[displaying@[i].0].displayed && (displaying@[i].0 as u32) < k,
                forall|j: u16| #[trigger] notes.notes@.contains_key(j) && notes.notes@[j].displayed
                    && (j as u32) < k ==> exists|i: int|
                    0 <= i < displaying@.len() && displaying@[i].0 == j,
                forall|i: int, j: int| 0 <= i < j < displaying@.len() ==> displaying@[i].0
                    < displaying@[j].0,
            decreases 65536 - k,
        {
            let key = k as u16;
            let ghost prior = displaying@;
            match notes.notes.get(&key) {
                Some(n) => {
                    if n.displayed {
                        displaying.push(NoteID(key));
                    }
                },
                None => {},
            }
            proof {
                assert forall|j: u16| #[trigger] notes.notes@.contains_key(j)
                    && notes.notes@[j].displayed && (j as u32) < k + 1 implies exists|i: int|
                    0 <= i < displaying@.len() && displaying@[i].0 == j by {
                    if (j as u32) < k {
                        let i = choose|i: int| 0 <= i < prior.len() && prior[i].0 == j;
                        assert(displaying@[i] == prior[i]);
                    } else {
                        assert(j == key);
                        assert(displaying@[displaying@.len() - 1].0 == j);
                    }
                }
            }
            k = k + 1;
        }
        let ghost shown = displaying@;
        let max_id = notes.max_id();
        proof {
            if let Some(m) = max_id {
                assert(notes.notes@.dom().contains(m.0));
            }
        }
        let app = App {
            current_screen: CurrentScreen::Main,
            notes,
            displaying,
            tags,
            note_focus: None,
            clipboard: String::new(),
            modified: false,
            note_factory: NoteFactory::new(max_id),
        };
        assert forall|k: u16| #[trigger] app.notes.notes@.contains_key(k)
            && app.notes.notes@[k].displayed implies exists|i: int|
            0 <= i < app.displaying@.len() && app.displaying@[i].0 == k by {
            assert((k as u32) < 65536);
            let i = choose|i: int| 0 <= i < shown.len() && shown[i].0 == k;
            assert(app.displaying@[i].0 == k);
        }
        app
    }

    /// The focused note, if any.
    pub fn focused(&self) -> (r: Option<NoteID>)
        ensures
            r == self.note_focus,
    {
        self.note_focus
    }

    /// The note stored under `id`, if any.
    pub fn get_note(&self, id: &NoteID) -> (r: Option<&Note>)
        ensures
            match r {
                Some(n) => self.notes.notes@.contains_key(id.0) && *n == self.notes.notes@[id.0],
                None => !self.notes.notes@.contains_key(id.0),
            },
    {
        broadcast use vstd::std_specs::btree::group_btree_axioms, vstd::laws_cmp::group_laws_cmp;

        self.notes.notes.get(&id.0)
    }

    /// The note stored under `id`, for changing in place, if there is one.
    pub fn get_mut_note(&mut self, id: &NoteID) -> (r: Option<&mut Note>)
        ensures
            final(self).displaying == old(self).displaying,
            final(self).note_focus == old(self).note_focus,
            match r {
                Some(n) => old(self).notes.notes@.contains_key(id.0) && *n
                    == old(self).notes.notes@[id.0] && final(self).notes.notes@
                    == old(self).notes.notes@.insert(id.0, *final(n)),
                None => !old(self).notes.notes@.contains_key(id.0) && final(self).notes.notes@
                    == old(self).notes.notes@,
            },
    {
        broadcast use vstd::laws_cmp::group_laws_cmp;

        value_mut(&mut self.notes.notes, id.0)
    }

    /// Marks the note under `id` focused or not, if it exists.
    fn set_focus(&mut self, id: NoteID, focused: bool)
        ensures
            final(self).notes.notes@ == with_focus(old(self).notes.notes@, id.0, focused),
            final(self).displaying == old(self).displaying,
            final(self).note_focus == old(self).note_focus,
            final(self).tags == old(self).tags,
            final(self).note_factory == old(self).note_factory,
    {
        broadcast use vstd::std_specs::btree::group_btree_axioms, vstd::laws_cmp::group_laws_cmp;

        if let Some(n) = self.notes.notes.remove(&id.0) {
            self.notes.notes.insert(id.0, Note { focused, ..n });
            assert(self.notes.notes@ =~= with_focus(old(self).notes.notes@, id.0, focused));
        }
    }

    /// Gives the focus to `id` (or to nothing), marking that note focused.
    pub fn focus(&mut self, id: Option<NoteID>)
        ensures
            final(self).note_focus == id,
            final(self).notes.notes@ == match id {
                Some(i) => with_focus(old(self).notes.notes@, i.0, true),
                None => old(self).notes.notes@,
            },
            final(self).displaying == old(self).displaying,
            final(self).tags == old(self).tags,
    {
        self.note_focus = id;
        if let Some(i) = id {
            self.set_focus(i, true);
        }
    }

    /// Takes the focus away, marking the focused note unfocused; returns what had it.
    pub fn unfocus(&mut self) -> (r: Option<NoteID>)
        ensures
            r == old(self).note_focus,
            final(self).note_focus is None,
            final(self).notes.notes@ == match old(self).note_focus {
                Some(i) => with_focus(old(self).notes.notes@, i.0, false),
                None => old(self).notes.notes@,
            },
            final(self).displaying == old(self).displaying,
            final(self).tags == old(self).tags,
    {
        let prev = self.note_focus;
        if let Some(i) = prev {
            self.set_focus(i, false);
        }
        self.note_focus = None;
        prev
    }

    /// Moves the focus to the next shown note, wrapping round; with nothing focused, to
    /// the first.
    pub fn focus_right(&mut self)
        ensures
            final(self).displaying == old(self).displaying,
            old(self).note_focus is None ==> final(self).note_focus == after(
                old(self).displaying@,
                None,
            ),
            old(self).note_focus matches Some(f) ==> final(self).note_focus == after(
                old(self).displaying@,
                index_of(old(self).displaying@, f),
            ),
            old(self).note_focus is None ==> final(self).notes.notes@ == match after(
                old(self).displaying@,
                None,
            ) {
                Some(n) => with_focus(old(self).notes.notes@, n.0, true),
                None => old(self).notes.notes@,
            },
            old(self).note_focus matches Some(f) ==> final(self).notes.notes@ == match after(
                old(self).displaying@,
                index_of(old(self).displaying@, f),
            ) {
                Some(n) => with_focus(with_focus(old(self).notes.notes@, f.0, false), n.0, true),
                None => with_focus(old(self).notes.notes@, f.0, false),
            },
    {
        match self.note_focus {
            None => {
                let first = if self.displaying.len() > 0 {
                    Some(self.displaying[0])
                } else {
                    None
                };
                self.focus(first);
            },
            Some(_) => {
                let prev = self.unfocus();
                let at = position(&self.displaying, prev.unwrap());
                let next = match at {
                    Some(i) => if i < self.displaying.len() - 1 {
                        Some(self.displaying[i + 1])
                    } else {
                        Some(self.displaying[0])
                    },
                    None => if self.displaying.len() > 0 {
                        Some(self.displaying[0])
                    } else {
                        None
                    },
                };
                self.focus(next);
            },
        }
    }

    /// Moves the focus to the previous shown note, wrapping round; with nothing focused,
    /// to the last.
    pub fn focus_left(&mut self)
        ensures
            final(self).displaying == old(self).displaying,
            old(self).note_focus is None ==> final(self).note_focus == before(
                old(self).displaying@,
                None,
            ),
            old(self).note_focus matches Some(f) ==> final(self).note_focus == before(
                old(self).displaying@,
                index_of(old(self).displaying@, f),
            ),
            old(self).note_focus is None ==> final(self).notes.notes@ == match before(
                old(self).displaying@,
                None,
            ) {
                Some(n) => with_focus(old(self).notes.notes@, n.0, true),
                None => old(self).notes.notes@,
            },
            old(self).note_focus matches Some(f) ==> final(self).notes.notes@ == match before(
                old(self).displaying@,
                index_of(old(self).displaying@, f),
            ) {
                Some(n) => with_focus(with_focus(old(self).notes.notes@, f.0, false), n.0, true),
                None => with_focus(old(self).notes.notes@, f.0, false),
            },
    {
        let n = self.displaying.len();
        match self.note_focus {
            None => {
                let last = if n > 0 {
                    Some(self.displaying[n - 1])
                } else {
                    None
                };
                self.focus(last);
            },
            Some(_) => {
                let prev = self.unfocus();
                let at = position(&self.displaying, prev.unwrap());
                let next = match at {
                    Some(i) => if i > 0 {
                        Some(self.displaying[i - 1])
                    } else {
                        Some(self.displaying[n - 1])
                    },
                    None => if n > 0 {
                        Some(self.displaying[n - 1])
                    } else {
                        None
                    },
                };
                self.focus(next);
            },
        }
    }

    /// Moves the focused note one place later in the shown order, wrapping round to the
    /// front; with nothing focused, focuses the first shown note.
    pub fn move_right(&mut self)
        ensures
            old(self).note_focus is None ==> final(self).note_focus == after(
                old(self).displaying@,
                None,
            ) && final(self).displaying == old(self).displaying,
            old(self).note_focus matches Some(f) ==> final(self).note_focus == Some(f)
                && final(self).displaying@ == match index_of(old(self).displaying@, f) {
                Some(i) => swapped(old(self).displaying@, i, (i + 1) % (old(self).displaying@.len() as int)),
                None => old(self).displaying@,
            },
    {
        match self.note_focus {
            None => {
                let first = if self.displaying.len() > 0 {
                    Some(self.displaying[0])
                } else {
                    None
                };
                self.focus(first);
            },
            Some(f) => {
                if let Some(c) = position(&self.displaying, f) {
                    let len = self.displaying.len();
                    let n = if c < len - 1 {
                        proof {
                            lemma_small_mod((c + 1) as nat, len as nat);
                        }
                        c + 1
                    } else {
                        proof {
                            lemma_mod_self_0(len as int);
                        }
                        0
                    };
                    assert(n == (c + 1) % (len as int));
                    let a = self.displaying[c];
                    let b = self.displaying[n];
                    self.displaying.set(c, b);
                    self.displaying.set(n, a);
                }
            },
        }
    }

    /// Moves the focused note one place earlier in the shown order, wrapping round to the
    /// back; with nothing focused, focuses the first shown note.
    pub fn move_left(&mut self)
        ensures
            old(self).note_focus is None ==> final(self).note_focus == after(
                old(self).displaying@,
                None,
            ) && final(self).displaying == old(self).displaying,
            old(self).note_focus matches Some(f) ==> final(self).note_focus == Some(f)
                && final(self).displaying@ == match index_of(old(self).displaying@, f) {
                Some(i) => swapped(
                    old(self).displaying@,
                    i,
                    if i > 0 {
                        i - 1
                    } else {
                        old(self).displaying@.len() - 1
                    },
                ),
                None => old(self).displaying@,
            },
    {
        match self.note_focus {
            None => {
                let first = if self.displaying.len() > 0 {
                    Some(self.displaying[0])
                } else {
                    None
                };
                self.focus(first);
            },
            Some(f) => {
                if let Some(c) = position(&self.displaying, f) {
                    let p = if c > 0 {
                        c - 1
                    } else {
                        self.displaying.len() - 1
                    };
                    let a = self.displaying[c];
                    let b = self.displaying[p];
                    self.displaying.set(c, b);
                    self.displaying.set(p, a);
                }
            },
        }
    }
}

/// The tag map after the notes referring to the tags in `released` let go of them: each
/// such tag counts one reference less, never going below zero.
pub open spec fn released(tags: Map<u8, Tag>, released: Set<u8>) -> Map<u8, Tag> {
    Map::new(
        |k: u8| tags.contains_key(k),
        |k: u8|
            if released.contains(k) && tags[k].refs > 0 {
                Tag { refs: (tags[k].refs - 1) as u8, ..tags[k] }
            } else {
                tags[k]
            },
    )
}

impl App {
    /// Adds a new note titled `title`, carrying `tag` if given, at the end of the shown
    /// notes, and counts a reference to the tag. Returns `false`, changing nothing, once
    /// the note identifiers are used up.
    pub fn add_note(&mut self, title: String, tag: Option<TagID>) -> (r: bool)
        ensures
            r == (old(self).note_factory.note_id.0 < u16::MAX),
            !r ==> final(self).notes.notes@ == old(self).notes.notes@ && final(self).displaying
                == old(self).displaying,
            r ==> {
                let id = (old(self).note_factory.note_id.0 + 1) as u16;
                &&& final(self).note_factory.note_id == NoteID(id)
                &&& final(self).displaying@ == old(self).displaying@.push(NoteID(id))
                &&& final(self).notes.notes@.dom() == old(self).notes.notes@.dom().insert(id)
                &&& final(self).notes.notes@[id].title == title
                &&& final(self).notes.notes@[id].id == NoteID(id)
                &&& final(self).notes.notes@[id].displayed
                &&& !final(self).notes.notes@[id].focused
                &&& final(self).notes.notes@[id].items@.len() == 0
                &&& match tag {
                    Some(t) => final(self).notes.notes@[id].tag matches Some(set) && set@ == Set::<
                        u8,
                    >::empty().insert(t.0),
                    None => final(self).notes.notes@[id].tag is None,
                }
                &&& forall|k: u16| k != id && old(self).notes.notes@.contains_key(k)
                    ==> #[trigger] final(self).notes.notes@[k] == old(self).notes.notes@[k]
            },
            tag is None || !r ==> final(self).tags == old(self).tags,
            r && tag is Some ==> {
                let t = tag->Some_0.0;
                &&& final(self).tags.max_id == old(self).tags.max_id
                &&& old(self).tags.tags@.contains_key(t) ==> final(self).tags.tags@
                    == old(self).tags.tags@.insert(
                    t,
                    Tag {
                        refs: if old(self).tags.tags@[t].refs < 255 {
                            (old(self).tags.tags@[t].refs + 1) as u8
                        } else {
                            255
                        },
                        ..old(self).tags.tags@[t]
                    },
                )
                &&& !old(self).tags.tags@.contains_key(t) ==> final(self).tags.tags@
                    == old(self).tags.tags@
            },
    {
        broadcast use vstd::std_specs::btree::group_btree_axioms, vstd::laws_cmp::group_laws_cmp;

        if self.note_factory.note_id.0 == u16::MAX {
            return false;
        }
        let note = self.note_factory.create(title, tag);
        if let Some(t) = tag {
            self.tags.increase_ref(&t);
        }
        let id = note.id;
        self.displaying.push(id);
        self.notes.add(note);
        true
    }

    /// Deletes the note under `id`: it is no longer shown, its tags count one reference
    /// less, and it leaves the collection.
    pub fn delete(&mut self, id: NoteID)
        ensures
            final(self).displaying@ == old(self).displaying@.filter(|x: NoteID| x != id),
            final(self).notes.notes@ == old(self).notes.notes@.remove(id.0),
            final(self).tags.max_id == old(self).tags.max_id,
            final(self).tags.tags@ == match (if old(self).notes.notes@.contains_key(id.0) {
                old(self).notes.notes@[id.0].tag
            } else {
                None
            }) {
                Some(set) => released(old(self).tags.tags@, set@),
                None => old(self).tags.tags@,
            },
    {
        broadcast use vstd::std_specs::btree::group_btree_axioms, vstd::laws_cmp::group_laws_cmp;

        let mut kept: Vec<NoteID> = Vec::new();
        let mut k: usize = 0;
        while k < self.displaying.len()
            invariant
                k <= self.displaying@.len(),
                self.displaying == old(self).displaying,
                kept@ == self.displaying@.take(k as int).filter(|x: NoteID| x != id),
            decreases self.displaying.len() - k,
        {
            let x = self.displaying[k];
            proof {
                reveal(Seq::filter);
                assert(self.displaying@.take(k + 1).drop_last() =~= self.displaying@.take(
                    k as int,
                ));
            }
            if x != id {
                kept.push(x);
            }
            k += 1;
        }
        assert(self.displaying@.take(k as int) =~= self.displaying@);
        self.displaying = kept;
        let ghost shown = self.displaying@;
        let tags_of_note: Option<Vec<u8>> = match self.notes.notes.get(&id.0) {
            Some(n) => match &n.tag {
                Some(set) => Some(tag_ids_in(set)),
                None => None,
            },
            None => None,
        };
        let ghost set_view = if old(self).notes.notes@.contains_key(id.0) {
            old(self).notes.notes@[id.0].tag
        } else {
            None
        };
        if let Some(ids) = tags_of_note {
            let ghost start = self.tags.tags@;
            let mut i: usize = 0;
            while i < ids.len()
                invariant
                    i <= ids@.len(),
                    set_view matches Some(set) && forall|j: int| 0 <= j < ids@.len() ==> set@.contains(
                        #[trigger] ids@[j],
                    ) && forall|t: u8| set@.contains(t) ==> exists|j: int|
                        0 <= j < ids@.len() && ids@[j] == t,
                    forall|a: int, b: int| 0 <= a < b < ids@.len() ==> ids@[a] < ids@[b],
                    start == old(self).tags.tags@,
                    self.tags.max_id == old(self).tags.max_id,
                    self.displaying@ == shown,
                    self.notes.notes@ == old(self).notes.notes@,
                    self.tags.tags@ == released(
                        start,
                        Set::new(|t: u8| exists|j: int| 0 <= j < i && ids@[j] == t),
                    ),
                decreases ids.len() - i,
            {
                let t = ids[i];
                self.tags.decrease_ref(&TagID(t));
                i += 1;
                proof {
                    let prev = Set::new(|u: u8| exists|j: int| 0 <= j < i - 1 && ids@[j] == u);
                    let next = Set::new(|u: u8| exists|j: int| 0 <= j < i && ids@[j] == u);
                    assert(next.contains(t));
                    assert(!prev.contains(t));
                    assert forall|u: u8| u != t implies prev.contains(u) == next.contains(u) by {
                        if next.contains(u) {
                            let j = choose|j: int| 0 <= j < i && ids@[j] == u;
                            assert(j < i - 1);
                        }
                    }
                    assert(self.tags.tags@ =~= released(start, next));
                }
            }
            proof {
                let all = Set::new(|u: u8| exists|j: int| 0 <= j < i && ids@[j] == u);
                let set = set_view->Some_0;
                assert(all =~= set@);
            }
        } else {
            proof {
                if set_view matches Some(set) {
                    assert(false);
                }
            }
        }
        self.notes.remove(&id);
    }
}

/// The tag identifiers in `set`, in increasing order.
fn tag_ids_in(set: &std::collections::BTreeSet<u8>) -> (r: Vec<u8>)
    ensures
        forall|j: int| 0 <= j < r@.len() ==> set@.contains(#[trigger] r@[j]),
        forall|t: u8| set@.contains(t) ==> exists|j: int| 0 <= j < r@.len() && r@[j] == t,
        forall|a: int, b: int| 0 <= a < b < r@.len() ==> r@[a] < r@[b],
{
    broadcast use vstd::std_specs::btree::group_btree_axioms, vstd::laws_cmp::group_laws_cmp;

    let mut r: Vec<u8> = Vec::new();
    let mut k: u16 = 0;
    while k < 256
        invariant
            k <= 256,
            forall|j: int| 0 <= j < r@.len() ==> set@.contains(#[trigger] r@[j]) && (r@[j] as u16)
                < k,
            forall|t: u8| #[trigger] set@.contains(t) && (t as u16) < k ==> exists|j: int|
                0 <= j < r@.len() && r@[j] == t,
            forall|a: int, b: int| 0 <= a < b < r@.len() ==> r@[a] < r@[b],
        decreases 256 - k,
    {
        let key = k as u8;
        let ghost prior = r@;
        if set.contains(&key) {
            r.push(key);
        }
        proof {
            assert forall|t: u8| #[trigger] set@.contains(t) && (t as u16) < k + 1 implies exists|
                j: int,
            | 0 <= j < r@.len() && r@[j] == t by {
                if (t as u16) < k {
                    let j = choose|j: int| 0 <= j < prior.len() && prior[j] == t;
                    assert(r@[j] == prior[j]);
                } else {
                    assert(r@[r@.len() - 1] == t);
                }
            }
        }
        k = k + 1;
    }
    let ghost all = r@;
    assert forall|t: u8| set@.contains(t) implies exists|j: int| 0 <= j < all.len() && all[j] == t by {
        assert(set@.contains(t) && (t as u16) < k);
    }
    r
}

} // verus!
