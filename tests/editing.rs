use keep::config::EditConfig;
use keep::editor::Session;
use keep::input::{KeyCode, Keystroke};
use keep::note::ToDo;
use keep::vim::{Command, Mode, Transition, Vim};

fn config(complete: &str, todo: &str) -> EditConfig {
    EditConfig::new(4, complete.to_string(), todo.to_string())
}

fn session(lines: &[&str], cfg: EditConfig) -> Session {
    Session::open_lines(lines.iter().map(|s| s.to_string()).collect(), cfg, String::new())
}

fn press(s: &mut Session, c: char) -> bool {
    s.feed(Keystroke::char(c))
}

fn enter() -> Keystroke {
    Keystroke::key(KeyCode::Enter)
}

#[test]
fn toggle_checkbox_both_ways() {
    let mut s = session(&["[ ] buy milk"], config("[x]", "[ ]"));
    assert!(s.feed(enter()));
    assert_eq!(s.lines(), vec!["[x] buy milk".to_string()]);
    assert!(s.feed(enter()));
    assert_eq!(s.lines(), vec!["[ ] buy milk".to_string()]);
}

#[test]
fn toggle_keeps_cursor_column_anywhere_on_line() {
    for moves in 0..12 {
        let mut s = session(&["[ ] buy milk"], config("[x]", "[ ]"));
        press(&mut s, '0');
        for _ in 0..moves {
            press(&mut s, 'l');
        }
        let before = s.cursor();
        s.feed(enter());
        assert_eq!(s.lines(), vec!["[x] buy milk".to_string()]);
        assert_eq!(s.cursor(), before);
        s.feed(enter());
        assert_eq!(s.lines(), vec!["[ ] buy milk".to_string()]);
    }
}

#[test]
fn open_below_inherits_depth_zero() {
    let mut s = session(&["[ ] parent"], config("[x] ", "[ ] "));
    assert!(press(&mut s, 'o'));
    assert_eq!(s.mode, Mode::Insert);
    assert_eq!(s.lines(), vec!["[ ] parent".to_string(), "[ ] ".to_string()]);
    assert_eq!(s.cursor(), (1, 4));
}

#[test]
fn open_below_and_above_inherit_nesting() {
    let mut s = session(&["[ ] parent", "    [ ] child"], config("[x] ", "[ ] "));
    press(&mut s, 'j');
    press(&mut s, 'o');
    assert_eq!(s.lines()[2], "    [ ] ".to_string());
    assert_eq!(s.cursor(), (2, 8));
    s.feed(Keystroke::key(KeyCode::Esc));
    assert_eq!(s.mode, Mode::Normal);
    press(&mut s, 'O');
    assert_eq!(s.lines()[2], "    [ ] ".to_string());
    assert_eq!(s.lines().len(), 4);
}

#[test]
fn enter_in_insert_mode_opens_item() {
    let mut s = session(&["[ ] a"], config("[x]", "[ ]"));
    press(&mut s, 'A');
    assert_eq!(s.mode, Mode::Insert);
    s.feed(enter());
    assert_eq!(s.lines(), vec!["[ ] a".to_string(), "[ ]".to_string()]);
    press(&mut s, 'b');
    assert_eq!(s.lines()[1], "[ ]b".to_string());
}

#[test]
fn quit_returns_decoded_lines() {
    let cfg = config("[x]", "[ ]");
    let mut s = session(&["[ ] one", "    [x] two", "", "loose"], cfg);
    assert!(!press(&mut s, 'q'));
    let lines = s.lines();
    let (items, clip) = s.close();
    assert_eq!(lines.len(), 4);
    assert_eq!(items.len(), 3);
    assert_eq!((items[0].indent, items[0].complete, items[0].data.as_str()), (0, false, " one"));
    assert_eq!((items[1].indent, items[1].complete, items[1].data.as_str()), (1, true, " two"));
    assert_eq!((items[2].indent, items[2].complete, items[2].data.as_str()), (0, false, "loose"));
    assert_eq!(clip, "");
}

#[test]
fn quit_from_visual_and_operator_modes() {
    let mut s = session(&["[ ] a"], config("[x]", "[ ]"));
    press(&mut s, 'v');
    assert_eq!(s.mode, Mode::Visual);
    assert!(!press(&mut s, 'q'));
    let mut s = session(&["[ ] a"], config("[x]", "[ ]"));
    press(&mut s, 'd');
    assert_eq!(s.mode, Mode::Operator('d'));
    assert!(!press(&mut s, 'q'));
}

#[test]
fn dd_removes_middle_line() {
    let mut s = session(&["[ ] a", "[ ] b", "[ ] c"], config("[x]", "[ ]"));
    press(&mut s, 'j');
    assert_eq!(s.cursor().0, 1);
    press(&mut s, 'd');
    press(&mut s, 'd');
    assert_eq!(s.lines(), vec!["[ ] a".to_string(), "[ ] c".to_string()]);
    assert_eq!(s.cursor().0, 1);
    assert_eq!(s.mode, Mode::Normal);
}

#[test]
fn dd_on_last_line_cuts_its_text() {
    let mut s = session(&["[ ] a", "[ ] b"], config("[x]", "[ ]"));
    press(&mut s, 'j');
    press(&mut s, 'd');
    press(&mut s, 'd');
    assert_eq!(s.lines(), vec!["[ ] a".to_string(), "".to_string()]);
    let (_, clip) = s.close();
    assert_eq!(clip, "[ ] b\n");
}

#[test]
fn yy_then_p_duplicates_line_below() {
    let mut s = session(&["[ ] a", "[ ] b", "[ ] c"], config("[x]", "[ ]"));
    press(&mut s, 'j');
    press(&mut s, 'y');
    press(&mut s, 'y');
    assert_eq!(s.lines().len(), 3);
    press(&mut s, 'p');
    assert_eq!(
        s.lines(),
        vec!["[ ] a".to_string(), "[ ] b".to_string(), "[ ] b".to_string(), "[ ] c".to_string()]
    );
}

#[test]
fn dd_on_single_empty_line_is_harmless() {
    let mut s = session(&[], config("[x]", "[ ]"));
    press(&mut s, 'd');
    press(&mut s, 'd');
    assert_eq!(s.lines(), vec!["".to_string()]);
}

#[test]
fn lone_g_does_not_move_and_is_not_replayed() {
    let mut s = session(&["[ ] a", "[ ] b", "[ ] c"], config("[x]", "[ ]"));
    press(&mut s, 'j');
    let before = s.cursor();
    assert!(press(&mut s, 'g'));
    assert_eq!(s.cursor(), before);
    assert_eq!(s.mode, Mode::Normal);
    press(&mut s, 'x');
    assert_eq!(before, (1, 3));
    assert_eq!(s.lines()[1], "[ ]b".to_string());
    assert_eq!(s.cursor().0, 1);
}

#[test]
fn g_then_j_moves_like_j() {
    let mut s = session(&["[ ] a", "[ ] b", "[ ] c"], config("[x]", "[ ]"));
    press(&mut s, 'g');
    press(&mut s, 'j');
    assert_eq!(s.cursor().0, 1);
}

#[test]
fn gg_goes_to_top_row_column_zero() {
    let mut s = session(&["[ ] a", "[ ] b", "[ ] c"], config("[x]", "[ ]"));
    press(&mut s, 'G');
    assert_eq!(s.cursor().0, 2);
    press(&mut s, 'g');
    press(&mut s, 'g');
    assert_eq!(s.cursor(), (0, 0));
}

#[test]
fn indent_then_unindent_keeps_offset_past_marker() {
    let mut s = session(&["[ ] task"], config("[x]", "[ ]"));
    press(&mut s, '$');
    let (_, col) = s.cursor();
    press(&mut s, '>');
    press(&mut s, '>');
    assert_eq!(s.lines(), vec!["    [ ] task".to_string()]);
    assert_eq!(s.cursor(), (0, col + 4));
    press(&mut s, '<');
    press(&mut s, '<');
    assert_eq!(s.lines(), vec!["[ ] task".to_string()]);
    assert_eq!(s.cursor(), (0, col));
}

#[test]
fn unindent_removes_a_leading_tab() {
    let mut s = session(&["\t[ ] task"], config("[x]", "[ ]"));
    press(&mut s, '<');
    press(&mut s, '<');
    assert_eq!(s.lines(), vec!["[ ] task".to_string()]);
}

#[test]
fn unindent_at_depth_zero_changes_nothing() {
    let mut s = session(&["[ ] task"], config("[x]", "[ ]"));
    press(&mut s, '<');
    press(&mut s, '<');
    assert_eq!(s.lines(), vec!["[ ] task".to_string()]);
}

#[test]
fn n_puts_marker_at_line_start() {
    let mut s = session(&["milk"], config("[x]", "[ ]"));
    press(&mut s, 'n');
    assert_eq!(s.mode, Mode::Insert);
    assert_eq!(s.lines(), vec!["[ ]milk".to_string()]);
    assert_eq!(s.cursor(), (0, 3));
}

#[test]
fn checked_motions_stay_on_line() {
    let mut s = session(&["ab", "cd"], config("[x]", "[ ]"));
    press(&mut s, '0');
    press(&mut s, 'h');
    assert_eq!(s.cursor(), (0, 0));
    press(&mut s, '$');
    press(&mut s, 'l');
    assert_eq!(s.cursor(), (0, 2));
    press(&mut s, 'w');
    assert_eq!(s.cursor().0, 0);
}

#[test]
fn capital_d_and_x_delete() {
    let mut s = session(&["[ ] abc"], config("[x]", "[ ]"));
    press(&mut s, '0');
    press(&mut s, 'x');
    assert_eq!(s.lines(), vec![" ] abc".to_string()]);
    press(&mut s, 'l');
    press(&mut s, 'D');
    assert_eq!(s.lines(), vec![" ".to_string()]);
}

#[test]
fn undo_restores_and_redo_repeats() {
    let mut s = session(&["[ ] abc"], config("[x]", "[ ]"));
    press(&mut s, '0');
    press(&mut s, 'x');
    press(&mut s, 'u');
    assert_eq!(s.lines(), vec!["[ ] abc".to_string()]);
    s.feed(Keystroke::ctrl('r'));
    assert_eq!(s.lines(), vec![" ] abc".to_string()]);
}

#[test]
fn visual_yank_and_cancel() {
    let mut s = session(&["[ ] abc"], config("[x]", "[ ]"));
    press(&mut s, 'V');
    assert_eq!(s.mode, Mode::Visual);
    press(&mut s, 'y');
    assert_eq!(s.mode, Mode::Normal);
    let mut t = session(&["[ ] abc"], config("[x]", "[ ]"));
    press(&mut t, 'v');
    assert_eq!(t.mode, Mode::Visual);
    press(&mut t, 'v');
    assert_eq!(t.mode, Mode::Normal);
    press(&mut t, 'v');
    t.feed(Keystroke::key(KeyCode::Esc));
    assert_eq!(t.mode, Mode::Normal);
    let (_, clip) = s.close();
    assert_eq!(clip, "[ ] abc");
}

#[test]
fn scroll_keys_leave_text_and_mode() {
    let mut s = session(&["[ ] a", "[ ] b"], config("[x]", "[ ]"));
    for c in ['e', 'y', 'd', 'u', 'f', 'b'] {
        assert!(s.feed(Keystroke::ctrl(c)));
        assert_eq!(s.mode, Mode::Normal);
    }
    assert_eq!(s.lines(), vec!["[ ] a".to_string(), "[ ] b".to_string()]);
}

#[test]
fn every_key_in_every_mode_has_a_step() {
    let cfg = config("[x]", "[ ]");
    let modes = [Mode::Normal, Mode::Insert, Mode::Visual, Mode::Operator('y'), Mode::Operator('d'), Mode::Operator('c')];
    let keys: Vec<Keystroke> = (32u8..127)
        .map(|b| Keystroke::char(b as char))
        .chain((32u8..127).map(|b| Keystroke::ctrl(b as char)))
        .chain([Keystroke::key(KeyCode::Enter), Keystroke::key(KeyCode::Esc), Keystroke::null()])
        .collect();
    for m in modes {
        for k in &keys {
            let vim = Vim::new(m, &cfg);
            let step = vim.step(*k);
            match step.transition {
                Transition::Quit => assert_ne!(m, Mode::Insert),
                Transition::Mode(Mode::Operator(c)) => assert!("ydc".contains(c)),
                _ => {}
            }
            let mut s = session(&["[ ] a", "    [x] b"], cfg.clone());
            s.mode = m;
            s.feed(*k);
        }
    }
}

#[test]
fn null_key_is_nop() {
    let cfg = config("[x]", "[ ]");
    let vim = Vim::new(Mode::Normal, &cfg);
    let step = vim.step(Keystroke::null());
    assert!(matches!(step.transition, Transition::Nop));
    assert!(matches!(step.command, Command::Nothing));
}

#[test]
fn unknown_key_becomes_pending() {
    let cfg = config("[x]", "[ ]");
    let vim = Vim::new(Mode::Normal, &cfg);
    let step = vim.step(Keystroke::char('z'));
    assert!(matches!(step.transition, Transition::Pending(_)));
    let vim = Vim::new(Mode::Normal, &cfg).with_pending(Keystroke::char('>'));
    let step = vim.step(Keystroke::char('>'));
    assert!(matches!(step.command, Command::Indent));
    let vim = vim.without_pending();
    assert!(matches!(vim.step(Keystroke::char('>')).transition, Transition::Pending(_)));
}

#[test]
fn operator_then_motion_applies_operator() {
    let mut s = session(&["[ ] a", "[ ] b", "[ ] c"], config("[x]", "[ ]"));
    press(&mut s, 'c');
    assert_eq!(s.mode, Mode::Operator('c'));
    press(&mut s, '$');
    assert_eq!(s.mode, Mode::Insert);
    assert_eq!(s.lines(), vec!["[ ]".to_string(), "[ ] b".to_string(), "[ ] c".to_string()]);
}

#[test]
fn open_restores_clipboard_and_close_keeps_it() {
    let cfg = config("[x]", "[ ]");
    let items = vec![ToDo::from("milk".to_string(), false, 0)];
    let s = Session::open(&items, cfg, "kept".to_string());
    assert_eq!(s.lines(), vec!["[ ]milk".to_string()]);
    assert_eq!(s.cursor(), (0, 3));
    let (back, clip) = s.close();
    assert_eq!(back.len(), 1);
    assert_eq!(back[0].data, "milk");
    assert_eq!(clip, "kept");
}

#[test]
fn close_returns_final_register_even_when_empty() {
    let cfg = config("[x]", "[ ]");
    let s = Session::open_lines(vec!["a".to_string()], cfg, String::new());
    let (_, clip) = s.close();
    assert_eq!(clip, "");
    let mut s = Session::open_lines(vec!["[ ] a".to_string(), "[ ] b".to_string()], config("[x]", "[ ]"), "old".to_string());
    press(&mut s, 'y');
    press(&mut s, 'y');
    let (_, clip) = s.close();
    assert_eq!(clip, "[ ] a\n");
}

#[test]
fn word_motions_land_on_word_starts() {
    let mut s = session(&["foo.bar baz", "next"], config("[x]", "[ ]"));
    press(&mut s, '0');
    press(&mut s, 'w');
    assert_eq!(s.cursor(), (0, 3));
    press(&mut s, 'w');
    assert_eq!(s.cursor(), (0, 4));
    press(&mut s, 'w');
    assert_eq!(s.cursor(), (0, 8));
    press(&mut s, 'w');
    assert_eq!(s.cursor(), (0, 8));
    press(&mut s, 'b');
    assert_eq!(s.cursor(), (0, 4));
    press(&mut s, '0');
    press(&mut s, 'b');
    assert_eq!(s.cursor(), (0, 0));
}

#[test]
fn toggle_keeps_register() {
    let mut s = Session::open_lines(vec!["[ ] a".to_string()], config("[x]", "[ ]"), "keep\r".to_string());
    let before = s.register();
    s.feed(enter());
    assert_eq!(s.lines(), vec!["[x] a".to_string()]);
    assert_eq!(s.register(), before);
}

#[test]
fn paste_in_visual_mode_replaces_selection() {
    let mut s = Session::open_lines(vec!["abcd".to_string()], config("[x]", "[ ]"), "Z".to_string());
    press(&mut s, '0');
    press(&mut s, 'v');
    press(&mut s, 'l');
    press(&mut s, 'p');
    assert_eq!(s.lines(), vec!["Zbcd".to_string()]);
    assert_eq!(s.mode, Mode::Normal);
}

#[test]
fn paste_of_two_lines_splits_the_line() {
    let mut s = Session::open_lines(vec!["ab".to_string()], config("[x]", "[ ]"), "X\nY".to_string());
    press(&mut s, '0');
    press(&mut s, 'l');
    press(&mut s, 'p');
    assert_eq!(s.lines(), vec!["aX".to_string(), "Yb".to_string()]);
    assert_eq!(s.cursor(), (1, 1));
}

#[test]
fn paste_uses_clipboard_from_open() {
    let cfg = config("[x]", "[ ]");
    let mut s = Session::open_lines(vec!["ab".to_string()], cfg, "Z".to_string());
    press(&mut s, '0');
    press(&mut s, 'p');
    assert_eq!(s.lines(), vec!["Zab".to_string()]);
}

#[test]
fn yy_then_p_on_last_line_adds_copy_below() {
    let mut s = session(&["[ ] a", "[ ] b"], config("[x]", "[ ]"));
    press(&mut s, 'j');
    press(&mut s, 'y');
    press(&mut s, 'y');
    assert_eq!(s.cursor(), (1, 0));
    press(&mut s, 'p');
    assert_eq!(
        s.lines(),
        vec!["[ ] a".to_string(), "[ ] b".to_string(), "[ ] b".to_string()]
    );
    let mut one = session(&["solo"], config("[x]", "[ ]"));
    press(&mut one, 'y');
    press(&mut one, 'y');
    press(&mut one, 'p');
    assert_eq!(one.lines(), vec!["solo".to_string(), "solo".to_string()]);
}

#[test]
fn dd_then_p_moves_line_down() {
    let mut s = session(&["[ ] a", "[ ] b", "[ ] c"], config("[x]", "[ ]"));
    press(&mut s, 'd');
    press(&mut s, 'd');
    press(&mut s, 'p');
    assert_eq!(
        s.lines(),
        vec!["[ ] b".to_string(), "[ ] a".to_string(), "[ ] c".to_string()]
    );
}

#[test]
fn scroll_in_operator_mode_applies_nothing() {
    let mut s = session(&["[ ] a", "[ ] b"], config("[x]", "[ ]"));
    press(&mut s, 'd');
    assert!(s.feed(Keystroke::ctrl('e')));
    assert_eq!(s.mode, Mode::Operator('d'));
    assert_eq!(s.lines(), vec!["[ ] a".to_string(), "[ ] b".to_string()]);
}

#[test]
fn enter_in_operator_mode_toggles_and_cuts_nothing() {
    let mut s = session(&["[ ] a", "[ ] b"], config("[x]", "[ ]"));
    press(&mut s, 'd');
    s.feed(enter());
    assert_eq!(s.mode, Mode::Normal);
    assert_eq!(s.lines(), vec!["[x] a".to_string(), "[ ] b".to_string()]);
}

#[test]
fn open_drops_carriage_returns_from_clipboard() {
    let s = Session::open_lines(vec!["a".to_string()], config("[x]", "[ ]"), "x\r\ny\r".to_string());
    assert_eq!(s.register(), "x\ny");
}
