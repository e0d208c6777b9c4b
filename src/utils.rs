//! Checking off an item written in the plain `[ ]` / `[x]` form, and reading a note
//! from a line of `;`-separated fields.
use vstd::prelude::*;
use crate::note::{Note, NoteID, ToDo, ToDoModel};
use crate::text::{chars_of, matches_at, string_of};

verus! {

/// `s` from offset `k` on, with every occurrence of `from` replaced by `to`, scanning
/// from the left and not overlapping.
pub open spec fn replace_from(s: Seq<char>, from: Seq<char>, to: Seq<char>, k: int) -> Seq<char>
    decreases s.len() + 1 - k,
{
    if k < 0 || k >= s.len() || from.len() == 0 {
        s.skip(k)
    } else if matches_at(s, from, k) {
        to + replace_from(s, from, to, k + from.len())
    } else {
        seq![s[k]] + replace_from(s, from, to, k + 1)
    }
}

/// `s` with every occurrence of `from` replaced by `to`, as `str::replace` does.
pub open spec fn replace_all(s: Seq<char>, from: Seq<char>, to: Seq<char>) -> Seq<char> {
    replace_from(s, from, to, 0)
}

/// Whether `pat` occurs in `s` at or after offset `k`.
pub open spec fn occurs_from(s: Seq<char>, pat: Seq<char>, k: int) -> bool {
    exists|i: int| k <= i && matches_at(s, pat, i)
}

fn matches_here(s: &[char], pat: &[char], k: usize) -> (r: bool)
    ensures
        r == matches_at(s@, pat@, k as int),
{
    if k > s.len() || pat.len() > s.len() - k {
        return false;
    }
    let n = s.len();
    let mut j: usize = 0;
    while j < pat.len()
        invariant
            n == s@.len(),
            k + pat@.len() <= n,
            j <= pat@.len(),
            forall|t: int| 0 <= t < j ==> s@[k + t] == pat@[t],
        decreases pat.len() - j,
    {
        if s[k + j] != pat[j] {
            assert(s@.subrange(k as int, k + pat@.len())[j as int] != pat@[j as int]);
            return false;
        }
        j += 1;
    }
    assert(s@.subrange(k as int, k + pat@.len()) =~= pat@);
    true
}

/// `s` with every occurrence of `from` replaced by `to`.
pub fn replace_chars(s: &[char], from: &[char], to: &[char]) -> (r: Vec<char>)
    ensures
        r@ == replace_all(s@, from@, to@),
{
    let mut out: Vec<char> = Vec::new();
    let mut k: usize = 0;
    if from.len() == 0 {
        let mut i: usize = 0;
        while i < s.len()
            invariant
                i <= s@.len(),
                out@ == s@.subrange(0, i as int),
            decreases s.len() - i,
        {
            out.push(s[i]);
            i += 1;
        }
        assert(out@ =~= s@);
        return out;
    }
    while k < s.len()
        invariant
            from@.len() > 0,
            k <= s@.len(),
            out@ + replace_from(s@, from@, to@, k as int) == replace_all(s@, from@, to@),
        decreases s.len() - k,
    {
        if matches_here(s, from, k) {
            let ghost before = out@;
            let mut j: usize = 0;
            while j < to.len()
                invariant
                    j <= to@.len(),
                    out@ == before + to@.subrange(0, j as int),
                decreases to.len() - j,
            {
                out.push(to[j]);
                j += 1;
            }
            assert(to@.subrange(0, to@.len() as int) =~= to@);
            assert(before + (to@ + replace_from(s@, from@, to@, k + from@.len())) =~= out@
                + replace_from(s@, from@, to@, k + from@.len()));
            k = k + from.len();
        } else {
            let ghost before = out@;
            out.push(s[k]);
            assert(before + (seq![s@[k as int]] + replace_from(s@, from@, to@, k + 1)) =~= out@
                + replace_from(s@, from@, to@, k + 1));
            k = k + 1;
        }
    }
    assert(replace_from(s@, from@, to@, k as int) =~= Seq::<char>::empty());
    assert(out@ + Seq::<char>::empty() =~= out@);
    out
}

/// Checks off a plain item: every `[ ]` becomes `[x]`, or, where there is none, every
/// `[x]` becomes `[ ]`.
pub fn complete_item(line: String) -> (r: String)
    ensures
        r@ == if occurs_from(line@, "[ ]"@, 0) {
            replace_all(line@, "[ ]"@, "[x]"@)
        } else {
            replace_all(line@, "[x]"@, "[ ]"@)
        },
{
    let cs = chars_of(line.as_str());
    let open = chars_of("[ ]");
    let done = chars_of("[x]");
    let mut k: usize = 0;
    let mut found = false;
    while k < cs.len() && !found
        invariant
            k <= cs@.len(),
            found ==> occurs_from(cs@, open@, 0),
            !found ==> forall|i: int| 0 <= i < k ==> !matches_at(cs@, open@, i),
        decreases cs.len() - k, (if found { 0int } else { 1int }),
    {
        if matches_here(cs.as_slice(), open.as_slice(), k) {
            found = true;
        } else {
            k += 1;
        }
    }
    if !found {
        assert forall|i: int| 0 <= i implies !matches_at(cs@, open@, i) by {
            if i >= k {
                assert(!matches_at(cs@, open@, i)) by {
                    if i + open@.len() <= cs@.len() {
                        assert(open@.len() > 0) by {
                            reveal_strlit("[ ]");
                        }
                    }
                }
            }
        }
    }
    let out = if found {
        replace_chars(cs.as_slice(), open.as_slice(), done.as_slice())
    } else {
        replace_chars(cs.as_slice(), done.as_slice(), open.as_slice())
    };
    string_of(out.as_slice())
}

/// `s` cut at every `sep`, as `str::split` cuts it: one field more than it has separators.
pub open spec fn split_on(s: Seq<char>, sep: char) -> Seq<Seq<char>>
    decreases s.len(),
{
    if s.len() == 0 {
        seq![Seq::empty()]
    } else {
        let p = split_on(s.drop_last(), sep);
        if s.last() == sep {
            p.push(Seq::empty())
        } else {
            p.update(p.len() - 1, p.last().push(s.last()))
        }
    }
}

/// A note read from a line of `;`-separated fields: the first field is the title and each
/// further field an item still to do, at depth 0. The note is shown, not focused, has no
/// tags, and has identifier 0.
pub fn note_from_line(line: String) -> (r: Note)
    ensures
        r.title@ == split_on(line@, ';')[0],
        r.items@.len() == split_on(line@, ';').len() - 1,
        forall|i: int| 0 <= i < r.items@.len() ==> #[trigger] r.items@[i]@ == (ToDoModel {
            indent: 0,
            complete: false,
            data: split_on(line@, ';')[i + 1],
        }),
        r.id == NoteID(0),
        !r.focused,
        r.displayed,
        r.tag is None,
{
    let cs = chars_of(line.as_str());
    let mut done: Vec<String> = Vec::new();
    let mut cur: Vec<char> = Vec::new();
    let mut k: usize = 0;
    while k < cs.len()
        invariant
            k <= cs@.len(),
            done@.map_values(|x: String| x@).push(cur@) == split_on(cs@.take(k as int), ';'),
        decreases cs.len() - k,
    {
        let ghost before = done@.map_values(|x: String| x@).push(cur@);
        assert(cs@.take(k + 1).drop_last() =~= cs@.take(k as int));
        if cs[k] == ';' {
            let piece = string_of(cur.as_slice());
            done.push(piece);
            cur = Vec::new();
            assert(done@.map_values(|x: String| x@).push(cur@) =~= before.push(Seq::empty()));
        } else {
            cur.push(cs[k]);
            assert(done@.map_values(|x: String| x@).push(cur@) =~= before.update(
                before.len() - 1,
                before.last().push(cs@[k as int]),
            ));
        }
        k += 1;
    }
    assert(cs@.take(k as int) =~= cs@);
    let ghost fields = split_on(line@, ';');
    assert(fields.len() == done@.len() + 1);
    let last = string_of(cur.as_slice());
    let mut items: Vec<ToDo> = Vec::new();
    if done.len() == 0 {
        return Note { title: last, id: NoteID(0), items, focused: false, displayed: true, tag: None };
    }
    let title = done[0].clone();
    let mut i: usize = 1;
    while i < done.len()
        invariant
            1 <= i <= done@.len(),
            fields == done@.map_values(|x: String| x@).push(cur@),
            items@.len() == i - 1,
            forall|j: int| 0 <= j < items@.len() ==> #[trigger] items@[j]@ == (ToDoModel {
                indent: 0,
                complete: false,
                data: fields[j + 1],
            }),
        decreases done.len() - i,
    {
        let piece = done[i].clone();
        items.push(ToDo::from(piece, false, 0));
        i += 1;
    }
    items.push(ToDo::from(last, false, 0));
    Note { title, id: NoteID(0), items, focused: false, displayed: true, tag: None }
}

} // verus!
