use keep::app::App;
use keep::note::{NoteCollection, NoteFactory, NoteID};
use keep::tag::{TagCollection, TagID};

fn app_with(n: usize) -> App {
    let mut notes = NoteCollection::new();
    let mut f = NoteFactory::new(None);
    for i in 0..n {
        let mut note = f.create_note(format!("note {}", i));
        if i == 1 {
            note.displayed = false;
        }
        notes.add(note);
    }
    App::new(notes, TagCollection::new())
}

#[test]
fn new_shows_displayed_notes_in_id_order() {
    let app = app_with(4);
    assert_eq!(app.displaying, vec![NoteID(1), NoteID(3), NoteID(4)]);
    assert_eq!(app.focused(), None);
    assert_eq!(app.note_factory.note_id, NoteID(4));
}

#[test]
fn focus_right_and_left_wrap_round() {
    let mut app = app_with(4);
    app.focus_right();
    assert_eq!(app.focused(), Some(NoteID(1)));
    assert!(app.get_note(&NoteID(1)).unwrap().is_focused());
    app.focus_right();
    app.focus_right();
    assert_eq!(app.focused(), Some(NoteID(4)));
    assert!(!app.get_note(&NoteID(1)).unwrap().is_focused());
    app.focus_right();
    assert_eq!(app.focused(), Some(NoteID(1)));
    app.focus_left();
    assert_eq!(app.focused(), Some(NoteID(4)));
    let mut fresh = app_with(4);
    fresh.focus_left();
    assert_eq!(fresh.focused(), Some(NoteID(4)));
}

#[test]
fn move_right_and_left_swap_neighbours() {
    let mut app = app_with(4);
    app.move_right();
    assert_eq!(app.focused(), Some(NoteID(1)));
    app.move_right();
    assert_eq!(app.displaying, vec![NoteID(3), NoteID(1), NoteID(4)]);
    app.move_left();
    assert_eq!(app.displaying, vec![NoteID(1), NoteID(3), NoteID(4)]);
    app.move_left();
    assert_eq!(app.displaying, vec![NoteID(4), NoteID(3), NoteID(1)]);
    app.focus(Some(NoteID(1)));
    app.move_right();
    assert_eq!(app.displaying, vec![NoteID(1), NoteID(3), NoteID(4)]);
}

#[test]
fn add_and_delete_track_tag_references() {
    let mut app = app_with(0);
    assert!(app.tags.add("work".to_string()));
    assert!(app.add_note("a".to_string(), Some(TagID(0))));
    assert!(app.add_note("b".to_string(), None));
    assert_eq!(app.displaying, vec![NoteID(1), NoteID(2)]);
    assert_eq!(app.tags.get(TagID(0)).unwrap().refs, 1);
    app.delete(NoteID(1));
    assert_eq!(app.displaying, vec![NoteID(2)]);
    assert!(app.get_note(&NoteID(1)).is_none());
    assert_eq!(app.tags.get(TagID(0)).unwrap().refs, 0);
    app.delete(NoteID(9));
    assert_eq!(app.displaying, vec![NoteID(2)]);
}

#[test]
fn unfocus_returns_previous_focus() {
    let mut app = app_with(3);
    app.focus(Some(NoteID(3)));
    assert_eq!(app.unfocus(), Some(NoteID(3)));
    assert_eq!(app.focused(), None);
    assert!(!app.get_note(&NoteID(3)).unwrap().is_focused());
}

#[test]
fn get_mut_note_changes_in_place() {
    let mut app = app_with(3);
    if let Some(n) = app.get_mut_note(&NoteID(2)) {
        n.title = "renamed".to_string();
    }
    assert_eq!(app.get_note(&NoteID(2)).unwrap().title, "renamed");
    assert!(app.get_mut_note(&NoteID(7)).is_none());
}

#[test]
fn tag_get_mut_changes_in_place() {
    let mut tags = TagCollection::new();
    tags.add("x".to_string());
    tags.get_mut(TagID(0)).unwrap().refs = 5;
    assert_eq!(tags.get(TagID(0)).unwrap().refs, 5);
    assert!(tags.get_mut(TagID(1)).is_none());
}

#[test]
fn add_note_counts_tag_reference() {
    let mut app = app_with(0);
    app.tags.add("t".to_string());
    assert!(app.add_note("n".to_string(), Some(TagID(0))));
    let note = app.get_note(&NoteID(1)).unwrap();
    assert!(note.items.is_empty());
    assert!(note.tag.as_ref().unwrap().contains(&0));
    assert_eq!(app.tags.get(TagID(0)).unwrap().refs, 1);
}
