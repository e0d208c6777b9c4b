use keep::codec::{decode_line, decode_lines, encode_item, encode_items};
use keep::config::EditConfig;
use keep::line::{indent_level_of, indent_line, marker_position_of, toggle_marker, unindent_line};
use keep::note::{NoteCollection, NoteFactory, NoteID, ToDo};
use keep::screen::CurrentScreen;
use keep::tag::{TagCollection, TagID};
use keep::utils::{complete_item, note_from_line};

fn config(complete: &str, todo: &str) -> EditConfig {
    EditConfig::new(4, complete.to_string(), todo.to_string())
}

fn chars(s: &str) -> Vec<char> {
    s.chars().collect()
}

fn text(cs: &[char]) -> String {
    cs.iter().collect()
}

#[test]
fn encode_writes_indent_marker_text() {
    let cfg = config("[x]", "[ ]");
    assert_eq!(encode_item(&ToDo::from("milk".to_string(), false, 0), &cfg), "[ ]milk");
    assert_eq!(encode_item(&ToDo::from(" eggs".to_string(), true, 2), &cfg), "        [x] eggs");
}

#[test]
fn round_trip_of_records() {
    let cfg = config("[x]", "[ ]");
    let items = vec![
        ToDo::from(" one".to_string(), false, 0),
        ToDo::from(" two".to_string(), true, 1),
        ToDo::from("".to_string(), false, 3),
        ToDo::from(" four  ".to_string(), true, 0),
    ];
    let lines = encode_items(&items, &cfg);
    let back = decode_lines(&lines, &cfg);
    assert_eq!(back.len(), items.len());
    for (a, b) in items.iter().zip(back.iter()) {
        assert_eq!((a.indent, a.complete, &a.data), (b.indent, b.complete, &b.data));
    }
}

#[test]
fn round_trip_of_empty_sequence() {
    let cfg = config("[x]", "[ ]");
    let lines = encode_items(&[], &cfg);
    assert!(lines.is_empty());
    assert!(decode_lines(&lines, &cfg).is_empty());
}

#[test]
fn decode_counts_tabs_and_full_space_runs() {
    let cfg = config("[x]", "[ ]");
    let t = decode_line("\t      [x]done", &cfg);
    assert_eq!((t.indent, t.complete, t.data.as_str()), (2, true, "done"));
    let t = decode_line("   [ ]x", &cfg);
    assert_eq!((t.indent, t.complete, t.data.as_str()), (0, false, "x"));
}

#[test]
fn decode_without_marker_is_incomplete_whole_text() {
    let cfg = config("[x]", "[ ]");
    let t = decode_line("    plain words", &cfg);
    assert_eq!((t.indent, t.complete, t.data.as_str()), (1, false, "plain words"));
}

#[test]
fn decode_removes_first_marker_only() {
    let cfg = config("[x]", "[ ]");
    let t = decode_line("a [x] b [x]", &cfg);
    assert_eq!((t.complete, t.data.as_str()), (true, "a  b [x]"));
    let t = decode_line("[ ][ ]", &cfg);
    assert_eq!((t.complete, t.data.as_str()), (false, "[ ]"));
}

#[test]
fn decode_drops_blank_lines() {
    let cfg = config("[x]", "[ ]");
    let lines = vec!["".to_string(), "   ".to_string(), "\t".to_string(), "[ ]a".to_string()];
    let back = decode_lines(&lines, &cfg);
    assert_eq!(back.len(), 1);
    assert_eq!(back[0].data, "a");
}

#[test]
fn marker_position_takes_earliest_marker() {
    let cfg = config("[x]", "[ ]");
    assert_eq!(marker_position_of(&chars("  [ ] a [x]"), &cfg), 2);
    assert_eq!(marker_position_of(&chars("[x] a [ ]"), &cfg), 0);
    assert_eq!(marker_position_of(&chars("no marker"), &cfg), 0);
}

#[test]
fn indent_level_examples() {
    assert_eq!(indent_level_of(&chars("        [ ]"), 4), 2);
    assert_eq!(indent_level_of(&chars("      [ ]"), 4), 1);
    assert_eq!(indent_level_of(&chars("\t\t[ ]"), 4), 2);
    assert_eq!(indent_level_of(&chars(""), 4), 0);
}

#[test]
fn toggle_marker_examples() {
    let cfg = config("[x]", "[ ]");
    assert_eq!(text(&toggle_marker(&chars("[ ] buy milk"), &cfg)), "[x] buy milk");
    assert_eq!(text(&toggle_marker(&chars("[x] buy milk"), &cfg)), "[ ] buy milk");
    assert_eq!(text(&toggle_marker(&chars("nothing"), &cfg)), "nothing");
    assert_eq!(text(&toggle_marker(&chars("[x] a [ ]"), &cfg)), "[ ] a [ ]");
    assert_eq!(text(&toggle_marker(&chars("[ ] a [x]"), &cfg)), "[x] a [x]");
}

#[test]
fn indent_unindent_anchor_examples() {
    let cfg = config("[x]", "[ ]");
    let unit = chars("    ");
    for k in 0..6 {
        let line = chars("  [ ] ab");
        let (l1, c1) = indent_line(&line, 2 + k, &unit, &cfg);
        assert_eq!(text(&l1), "      [ ] ab");
        assert_eq!(c1, 6 + k);
        let (l2, c2) = unindent_line(&l1, c1, &cfg);
        assert_eq!(text(&l2), "  [ ] ab");
        assert_eq!(c2, 2 + k);
    }
}

#[test]
fn unindent_removes_leading_spaces_before_a_tab() {
    let cfg = config("[x]", "[ ]");
    let (l, c) = unindent_line(&chars("  \t[ ] a"), 5, &cfg);
    assert_eq!(text(&l), "\t[ ] a");
    assert_eq!(c, 3);
    let (l, _) = unindent_line(&chars("    \t[ ] a"), 0, &cfg);
    assert_eq!(text(&l), "\t[ ] a");
}

#[test]
fn unindent_removes_one_leading_tab() {
    let cfg = config("[x]", "[ ]");
    let (l, _) = unindent_line(&chars("\t\t[ ] a"), 0, &cfg);
    assert_eq!(text(&l), "\t[ ] a");
}

#[test]
fn indent_then_unindent_restores_tabbed_line() {
    let cfg = config("[x]", "[ ]");
    let unit = chars("    ");
    let line = chars("\t[ ] a");
    let (l1, c1) = indent_line(&line, 3, &unit, &cfg);
    let (l2, c2) = unindent_line(&l1, c1, &cfg);
    assert_eq!(text(&l2), "\t[ ] a");
    assert_eq!(c2, 3);
}

#[test]
fn note_from_line_splits_fields() {
    let n = note_from_line("shopping;milk;;eggs".to_string());
    assert_eq!(n.title, "shopping");
    let items: Vec<&str> = n.items.iter().map(|t| t.data.as_str()).collect();
    assert_eq!(items, vec!["milk", "", "eggs"]);
    assert!(n.items.iter().all(|t| !t.complete && t.indent == 0));
    let n = note_from_line("alone".to_string());
    assert_eq!(n.title, "alone");
    assert!(n.items.is_empty());
    assert_eq!(n.id, NoteID(0));
}

#[test]
fn complete_item_toggles_plain_boxes() {
    assert_eq!(complete_item("[ ] a [ ] b".to_string()), "[x] a [x] b");
    assert_eq!(complete_item("[x] a".to_string()), "[ ] a");
    assert_eq!(complete_item("none".to_string()), "none");
}

#[test]
fn screen_texts() {
    assert_eq!(CurrentScreen::Main.navigation_text(), "Normal Mode");
    assert_eq!(CurrentScreen::NoteSearch.navigation_text(), "NoteSearch");
    assert_eq!(CurrentScreen::NoteEdit.key_hints(), "VIM keybinds");
    assert_eq!(CurrentScreen::Exiting.content(), "Save changes? (y/n)");
    assert!(CurrentScreen::Help.content().starts_with("Main View:\n"));
    assert_eq!(CurrentScreen::Main.content(), "");
}

#[test]
fn note_ids_count_up() {
    let mut id = NoteID(4);
    assert_eq!(id.next(), NoteID(5));
    assert_eq!(id, NoteID(5));
    let mut f = NoteFactory::new(None);
    let a = f.create_note("a".to_string());
    let b = f.create("b".to_string(), Some(TagID(3)));
    assert_eq!((a.id, b.id), (NoteID(1), NoteID(2)));
    assert!(b.tag.as_ref().unwrap().contains(&3));
    assert!(a.displayed() && !a.is_focused());
}

#[test]
fn note_collection_max_id() {
    let mut c = NoteCollection::new();
    assert_eq!(c.max_id(), None);
    let mut f = NoteFactory::new(Some(NoteID(9)));
    c.add(f.create_note("x".to_string()));
    c.add(f.create_note("y".to_string()));
    assert_eq!(c.max_id(), Some(NoteID(11)));
    c.remove(&NoteID(11));
    assert_eq!(c.max_id(), Some(NoteID(10)));
}

#[test]
fn note_focus_and_tags() {
    let mut f = NoteFactory::new(None);
    let mut n = f.create_note("t".to_string());
    n.focus();
    assert!(n.is_focused());
    n.unfocus();
    assert!(!n.is_focused());
    assert!(n.add_tag(TagID(2)));
    assert!(!n.add_tag(TagID(2)));
    assert!(n.add_tag(TagID(1)));
    assert_eq!(n.tag.as_ref().unwrap().len(), 2);
}

#[test]
fn tag_collection_add_iter_remove() {
    let mut t = TagCollection::new();
    assert!(t.add("work".to_string()));
    assert!(t.add("home".to_string()));
    let mut it = t.iter();
    assert_eq!(it.next(), Some(TagID(0)));
    assert_eq!(it.next(), Some(TagID(1)));
    assert_eq!(it.next(), None);
    t.increase_ref(&TagID(1));
    assert_eq!(t.get(TagID(1)).unwrap().refs, 1);
    t.max_id = TagID(1);
    t.remove_by_id(&TagID(1));
    assert_eq!(t.max_id, TagID(0));
    assert!(t.get(TagID(1)).is_none());
    assert_eq!(t.get(TagID(0)).unwrap().name, "work");
}

#[test]
fn tag_ids_stop_at_255() {
    let mut t = TagCollection::new();
    for _ in 0..256 {
        assert!(t.add("t".to_string()));
    }
    assert!(!t.add("one too many".to_string()));
    assert_eq!(t.tags.len(), 256);
}
