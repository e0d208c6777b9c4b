//! Turning a note's checklist entries into editable lines, and edited lines back
//! into entries.
use vstd::prelude::*;
use vstd::arithmetic::div_mod::lemma_div_by_multiple;
use crate::config::EditConfig;
use crate::line::{
    append_range, blank_run, count, indent_level, indent_unit, indent_unit_chars, lemma_blank_run,
    scan_blanks,
};
use crate::note::{ToDo, ToDoModel};
use crate::text::{
    all_white, chars_of, contains, find, find_chars, is_blank, is_white, is_white_char,
    lemma_find_contains, lemma_find_first, matches_at, remove_at, repeat, string_of, string_views,
};

verus! {

/// The marker that begins the line of an entry.
pub open spec fn marker_of(complete: bool, cfg: EditConfig) -> Seq<char> {
    if complete {
        cfg.complete()
    } else {
        cfg.todo()
    }
}

/// The line of one entry: one indentation unit per level, the marker, then the text.
pub open spec fn encoded_line(item: ToDoModel, cfg: EditConfig) -> Seq<char> {
    repeat(indent_unit(cfg), item.indent) + marker_of(item.complete, cfg) + item.data
}

/// The lines of a sequence of entries, one line each.
pub open spec fn encoded(items: Seq<ToDoModel>, cfg: EditConfig) -> Seq<Seq<char>> {
    items.map_values(|item: ToDoModel| encoded_line(item, cfg))
}

/// The entry read from a non-blank line. After the leading blanks, a line that holds the
/// complete marker is complete and loses the first occurrence of it; any other line is
/// to do and loses the first occurrence of the to-do marker, if it has one.
pub open spec fn decoded_line(line: Seq<char>, cfg: EditConfig) -> ToDoModel {
    let indent = indent_level(line, cfg.tab_width as nat);
    let rest = line.skip(blank_run(line) as int);
    match find(rest, cfg.complete()) {
        Some(i) => ToDoModel {
            indent,
            complete: true,
            data: remove_at(rest, i, cfg.complete().len() as int),
        },
        None => match find(rest, cfg.todo()) {
            Some(i) => ToDoModel {
                indent,
                complete: false,
                data: remove_at(rest, i, cfg.todo().len() as int),
            },
            None => ToDoModel { indent, complete: false, data: rest },
        },
    }
}

/// The entries read from edited lines: blank lines are dropped, each other line gives
/// one entry, in order.
pub open spec fn decoded(lines: Seq<Seq<char>>, cfg: EditConfig) -> Seq<ToDoModel>
    decreases lines.len(),
{
    if lines.len() == 0 {
        Seq::empty()
    } else {
        let before = decoded(lines.drop_last(), cfg);
        if all_white(lines.last()) {
            before
        } else {
            before.push(decoded_line(lines.last(), cfg))
        }
    }
}

/// The views of a sequence of entries.
pub open spec fn views_of_items(s: Seq<ToDo>) -> Seq<ToDoModel> {
    s.map_values(|x: ToDo| x@)
}

/// The line of one entry.
pub fn encode_item(item: &ToDo, cfg: &EditConfig) -> (r: String)
    ensures
        r@ == encoded_line(item@, *cfg),
{
    let unit = indent_unit_chars(cfg);
    let mut out: Vec<char> = Vec::new();
    let mut n: usize = 0;
    while n < item.indent
        invariant
            n <= item.indent,
            unit@ == indent_unit(*cfg),
            out@ == repeat(indent_unit(*cfg), n as nat),
        decreases item.indent - n,
    {
        append_range(&mut out, unit.as_slice(), 0, unit.len());
        assert(unit@.subrange(0, unit@.len() as int) =~= unit@);
        n += 1;
    }
    let marker = if item.complete {
        chars_of(cfg.complete_str.as_str())
    } else {
        chars_of(cfg.todo_str.as_str())
    };
    append_range(&mut out, marker.as_slice(), 0, marker.len());
    let data = chars_of(item.data.as_str());
    append_range(&mut out, data.as_slice(), 0, data.len());
    assert(marker@.subrange(0, marker@.len() as int) =~= marker@);
    assert(data@.subrange(0, data@.len() as int) =~= data@);
    string_of(out.as_slice())
}

/// The lines of a sequence of entries.
pub fn encode_items(items: &[ToDo], cfg: &EditConfig) -> (r: Vec<String>)
    ensures
        string_views(r@) == encoded(views_of_items(items@), *cfg),
{
    let mut r: Vec<String> = Vec::new();
    let mut i: usize = 0;
    while i < items.len()
        invariant
            i <= items@.len(),
            r@.len() == i,
            string_views(r@) == encoded(views_of_items(items@.take(i as int)), *cfg),
        decreases items.len() - i,
    {
        let ghost before = r@;
        let line = encode_item(&items[i], cfg);
        r.push(line);
        assert(r@ == before.push(line));
        i += 1;
        assert forall|j: int| 0 <= j < i implies string_views(r@)[j] == encoded(
            views_of_items(items@.take(i as int)),
            *cfg,
        )[j] by {
            if j < i - 1 {
                assert(r@[j] == before[j]);
                assert(string_views(before)[j] == encoded(
                    views_of_items(items@.take(i - 1)),
                    *cfg,
                )[j]);
            }
        }
        assert(string_views(r@) =~= encoded(views_of_items(items@.take(i as int)), *cfg));
    }
    assert(items@.take(i as int) =~= items@);
    r
}

/// `s` with `len` characters removed at `at`.
fn remove_range(s: &[char], at: usize, len: usize) -> (r: Vec<char>)
    requires
        at + len <= s@.len(),
    ensures
        r@ == remove_at(s@, at as int, len as int),
{
    let n = s.len();
    let mut r: Vec<char> = Vec::new();
    append_range(&mut r, s, 0, at);
    append_range(&mut r, s, at + len, n);
    r
}

/// Whether every character of `s` is white space.
fn is_all_white(s: &[char]) -> (r: bool)
    ensures
        r == all_white(s@),
{
    let mut i: usize = 0;
    while i < s.len()
        invariant
            i <= s@.len(),
            forall|j: int| 0 <= j < i ==> is_white(#[trigger] s@[j]),
        decreases s.len() - i,
    {
        if !is_white_char(s[i]) {
            return false;
        }
        i += 1;
    }
    true
}

/// The entry read from one non-blank line.
pub fn decode_line(line: &str, cfg: &EditConfig) -> (r: ToDo)
    requires
        cfg.tab_width >= 1,
    ensures
        r@ == decoded_line(line@, *cfg),
{
    let cs = chars_of(line);
    let (run, tabs, spaces) = scan_blanks(cs.as_slice());
    let tw = cfg.tab_width as usize;
    assert(spaces / tw <= spaces) by (nonlinear_arith)
        requires
            tw >= 1,
    ;
    let indent = tabs + spaces / tw;
    let mut rest: Vec<char> = Vec::new();
    append_range(&mut rest, cs.as_slice(), run, cs.len());
    assert(rest@ =~= line@.skip(run as int));
    let complete = chars_of(cfg.complete_str.as_str());
    let todo = chars_of(cfg.todo_str.as_str());
    proof {
        lemma_find_contains(rest@, complete@);
        lemma_find_contains(rest@, todo@);
    }
    match find_chars(rest.as_slice(), complete.as_slice()) {
        Some(i) => {
            let data = remove_range(rest.as_slice(), i, complete.len());
            ToDo::from(string_of(data.as_slice()), true, indent)
        },
        None => match find_chars(rest.as_slice(), todo.as_slice()) {
            Some(i) => {
                let data = remove_range(rest.as_slice(), i, todo.len());
                ToDo::from(string_of(data.as_slice()), false, indent)
            },
            None => ToDo::from(string_of(rest.as_slice()), false, indent),
        },
    }
}

/// The entries read from edited lines, blank lines dropped.
pub fn decode_lines(lines: &[String], cfg: &EditConfig) -> (r: Vec<ToDo>)
    requires
        cfg.tab_width >= 1,
    ensures
        views_of_items(r@) == decoded(string_views(lines@), *cfg),
{
    let mut r: Vec<ToDo> = Vec::new();
    let mut i: usize = 0;
    while i < lines.len()
        invariant
            cfg.tab_width >= 1,
            i <= lines@.len(),
            views_of_items(r@) == decoded(string_views(lines@.take(i as int)), *cfg),
        decreases lines.len() - i,
    {
        let ghost before = r@;
        let cs = chars_of(lines[i].as_str());
        if !is_all_white(cs.as_slice()) {
            let item = decode_line(lines[i].as_str(), cfg);
            r.push(item);
        }
        i += 1;
        assert(string_views(lines@.take(i as int)).drop_last() =~= string_views(
            lines@.take(i - 1),
        ));
        assert(views_of_items(r@) =~= decoded(string_views(lines@.take(i as int)), *cfg));
    }
    assert(lines@.take(i as int) =~= lines@);
    r
}

/// `n` indentation units are `n * tab_width` spaces.
pub proof fn lemma_repeat_unit(cfg: EditConfig, n: nat)
    ensures
        repeat(indent_unit(cfg), n).len() == n * (cfg.tab_width as nat),
        forall|i: int| 0 <= i < repeat(indent_unit(cfg), n).len() ==> #[trigger] repeat(
            indent_unit(cfg),
            n,
        )[i] == ' ',
    decreases n,
{
    if n > 0 {
        lemma_repeat_unit(cfg, (n - 1) as nat);
        let prev = repeat(indent_unit(cfg), (n - 1) as nat);
        let cur = repeat(indent_unit(cfg), n);
        assert(cur == prev + indent_unit(cfg));
        let m = (n - 1) as nat;
        let tw = cfg.tab_width as nat;
        assert(n * tw == m * tw + tw) by (nonlinear_arith)
            requires
                n == m + 1,
        ;
        assert(cur.len() == prev.len() + tw);
        assert(cur.len() == n * tw);
        assert forall|i: int| 0 <= i < cur.len() implies #[trigger] cur[i] == ' ' by {
            if i >= prev.len() {
                assert(cur[i] == indent_unit(cfg)[i - prev.len()]);
            } else {
                assert(cur[i] == prev[i]);
            }
        }
    } else {
        assert(n * (cfg.tab_width as nat) == 0) by (nonlinear_arith)
            requires
                n == 0,
        ;
    }
}

/// Counting a character in a sequence made only of it gives the length; counting one
/// that does not occur gives zero.
pub proof fn lemma_count_uniform(s: Seq<char>, c: char, d: char)
    requires
        c != d,
        forall|i: int| 0 <= i < s.len() ==> #[trigger] s[i] == c,
    ensures
        count(s, c) == s.len(),
        count(s, d) == 0,
    decreases s.len(),
{
    if s.len() > 0 {
        let t = s.drop_last();
        assert forall|i: int| 0 <= i < t.len() implies #[trigger] t[i] == c by {
            assert(t[i] == s[i]);
        }
        lemma_count_uniform(t, c, d);
    }
}

/// The conditions under which the line of an entry reads back as that entry: neither
/// marker begins with a blank or is made only of white space, the text holds neither
/// marker, and an entry to do holds no complete marker across its marker and text.
pub open spec fn round_trips(item: ToDoModel, cfg: EditConfig) -> bool {
    &&& !contains(item.data, cfg.complete())
    &&& !contains(item.data, cfg.todo())
    &&& !item.complete ==> !contains(cfg.todo() + item.data, cfg.complete())
}

/// The markers can be told apart from indentation and from a blank line.
pub open spec fn markers_stand_out(cfg: EditConfig) -> bool {
    &&& !is_blank(cfg.complete()[0])
    &&& !is_blank(cfg.todo()[0])
    &&& !all_white(cfg.complete())
    &&& !all_white(cfg.todo())
}

/// The line of one entry reads back as that entry, and is not blank.
pub proof fn lemma_line_round_trip(item: ToDoModel, cfg: EditConfig)
    requires
        cfg.wf(),
        markers_stand_out(cfg),
        round_trips(item, cfg),
    ensures
        !all_white(encoded_line(item, cfg)),
        decoded_line(encoded_line(item, cfg), cfg) == item,
{
    let tw = cfg.tab_width as nat;
    let pad = repeat(indent_unit(cfg), item.indent);
    let m = marker_of(item.complete, cfg);
    let line = encoded_line(item, cfg);
    let rest = m + item.data;
    lemma_repeat_unit(cfg, item.indent);
    let n = pad.len() as int;
    assert(line == pad + rest);
    assert forall|i: int| 0 <= i < n implies is_blank(#[trigger] line[i]) by {
        assert(line[i] == pad[i]);
    }
    assert(line[n] == m[0]);
    lemma_blank_run(line, n);
    assert(line.take(n) =~= pad);
    lemma_count_uniform(pad, ' ', '\t');
    lemma_div_by_multiple(item.indent as int, tw as int);
    assert(indent_level(line, tw) == item.indent);
    assert(line.skip(n) =~= rest);
    let j = choose|j: int| 0 <= j < m.len() && !is_white(#[trigger] m[j]);
    assert(line[n + j] == m[j]);
    assert(matches_at(rest, m, 0)) by {
        assert(rest.subrange(0, m.len() as int) =~= m);
    }
    lemma_find_first(rest, m, 0);
    if item.complete {
        assert(remove_at(rest, 0, m.len() as int) =~= item.data);
    } else {
        lemma_find_contains(rest, cfg.complete());
        assert(remove_at(rest, 0, m.len() as int) =~= item.data);
    }
}

/// Reading back the lines of entries gives the same entries, for entries whose text
/// holds neither marker (and under the conditions of `round_trips`).
pub proof fn lemma_round_trip(items: Seq<ToDoModel>, cfg: EditConfig)
    requires
        cfg.wf(),
        markers_stand_out(cfg),
        forall|i: int| 0 <= i < items.len() ==> round_trips(#[trigger] items[i], cfg),
    ensures
        decoded(encoded(items, cfg), cfg) == items,
    decreases items.len(),
{
    if items.len() > 0 {
        let init = items.drop_last();
        assert forall|i: int| 0 <= i < init.len() implies round_trips(#[trigger] init[i], cfg) by {
            assert(init[i] == items[i]);
        }
        lemma_round_trip(init, cfg);
        assert(encoded(items, cfg).drop_last() =~= encoded(init, cfg));
        lemma_line_round_trip(items.last(), cfg);
        assert(decoded(encoded(items, cfg), cfg) =~= items);
    }
}

} // verus!
