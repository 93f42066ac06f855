//! Helpers for the lines that the commands print: defaults for missing
//! fields, table rows and labelled values.
use vstd::prelude::*;
use crate::json::{Json, val, str_in, u64_in};
use crate::text::{copy_str, join, join_strings, pad, append_padded, append_decimal, dec};

verus! {

/// The views of a list of strings.
pub open spec fn views(v: Seq<String>) -> Seq<Seq<char>> {
    v.map_values(|s: String| s@)
}

/// `o.unwrap_or(d)`.
pub open spec fn or_else(o: Option<Seq<char>>, d: Seq<char>) -> Seq<char> {
    match o {
        Some(s) => s,
        None => d,
    }
}

/// A string field of a value, or `d` when it holds no string.
pub fn text_or(o: Option<&Json>, d: &str) -> (r: String)
    ensures
        r@ == or_else(val(o).str_of(), d@),
{
    match str_in(o) {
        Some(s) => copy_str(s.as_str()),
        None => copy_str(d),
    }
}

/// A number field of a value, or `0` when it holds no `u64`.
pub fn u64_or_zero(o: Option<&Json>) -> (r: u64)
    ensures
        r == match val(o).u64_of() {
            Some(n) => n,
            None => 0,
        },
{
    match u64_in(o) {
        Some(n) => n,
        None => 0,
    }
}

/// The cells of a row, each but the last padded to its width.
pub open spec fn padded_cells(cells: Seq<Seq<char>>, widths: Seq<nat>) -> Seq<Seq<char>> {
    Seq::new(
        cells.len(),
        |i: int|
            if i < cells.len() - 1 {
                pad(cells[i], widths[i])
            } else {
                cells[i]
            },
    )
}

/// A table row: the cells, each but the last padded to its width, separated
/// by one space (what `"{:<w1} {:<w2} ... {}"` prints).
pub open spec fn row(cells: Seq<Seq<char>>, widths: Seq<nat>) -> Seq<char> {
    join(padded_cells(cells, widths), " "@)
}

/// Formats a table row.
pub fn row_exec(cells: &Vec<String>, widths: &Vec<usize>) -> (r: String)
    requires
        widths@.len() + 1 >= cells@.len(),
    ensures
        r@ == row(views(cells@), widths@.map_values(|w: usize| w as nat)),
{
    let ghost expect = padded_cells(views(cells@), widths@.map_values(|w: usize| w as nat));
    let mut padded: Vec<String> = Vec::new();
    let mut i: usize = 0;
    while i < cells.len()
        invariant
            i <= cells@.len(),
            widths@.len() + 1 >= cells@.len(),
            expect == padded_cells(views(cells@), widths@.map_values(|w: usize| w as nat)),
            views(padded@) == expect.take(i as int),
        decreases cells.len() - i,
    {
        let ghost before = views(padded@);
        if i + 1 < cells.len() {
            let mut p = String::new();
            append_padded(&mut p, cells[i].as_str(), widths[i]);
            padded.push(p);
        } else {
            padded.push(copy_str(cells[i].as_str()));
        }
        proof {
            assert(expect.take(i + 1) =~= expect.take(i as int).push(expect[i as int]));
            assert(views(padded@) =~= before.push(expect[i as int]));
        }
        i = i + 1;
    }
    proof {
        assert(expect.take(cells@.len() as int) =~= expect);
    }
    join_strings(&padded, " ")
}

/// `label` followed by `value`.
pub fn labelled(label: &str, value: &str) -> (r: String)
    ensures
        r@ == label@ + value@,
{
    let mut r = copy_str(label);
    r.append(value);
    r
}

/// `label` followed by the decimal `n`.
pub fn labelled_number(label: &str, n: u64) -> (r: String)
    ensures
        r@ == label@ + dec(n as nat),
{
    let mut r = copy_str(label);
    append_decimal(&mut r, n);
    r
}

/// Pushes a line onto a list of lines.
pub fn push_line(lines: &mut Vec<String>, line: String)
    ensures
        views(final(lines)@) == views(old(lines)@).push(line@),
{
    lines.push(line);
    proof {
        assert(views(final(lines)@) =~= views(old(lines)@).push(line@));
    }
}

/// A titled, indented block: nothing when there are no entries, else the
/// title and each entry after two spaces.
pub open spec fn block(title: Seq<char>, entries: Seq<Seq<char>>) -> Seq<Seq<char>> {
    if entries.len() == 0 {
        Seq::empty()
    } else {
        seq![title] + entries.map_values(|e: Seq<char>| "  "@ + e)
    }
}

/// Pushes a titled, indented block onto a list of lines.
pub fn push_block(lines: &mut Vec<String>, title: &str, entries: &Vec<String>)
    ensures
        views(final(lines)@) == views(old(lines)@) + block(title@, views(entries@)),
{
    let ghost start = views(lines@);
    if entries.len() == 0 {
        proof {
            assert(views(lines@) =~= start + block(title@, views(entries@)));
        }
        return;
    }
    push_line(lines, copy_str(title));
    let ghost ev = views(entries@);
    let mut i: usize = 0;
    while i < entries.len()
        invariant
            i <= entries@.len(),
            ev == views(entries@),
            views(lines@) == start + seq![title@] + ev.take(i as int).map_values(|e: Seq<char>| "  "@ + e),
        decreases entries.len() - i,
    {
        push_line(lines, labelled("  ", entries[i].as_str()));
        proof {
            assert(ev.take(i + 1).map_values(|e: Seq<char>| "  "@ + e)
                =~= ev.take(i as int).map_values(|e: Seq<char>| "  "@ + e).push("  "@ + ev[i as int]));
        }
        i = i + 1;
    }
    proof {
        assert(ev.take(ev.len() as int) =~= ev);
        assert(views(lines@) =~= start + block(title@, ev));
    }
}

/// The text members of a list, in order (`filter_map(as_str)`).
pub open spec fn texts(items: Seq<Json>) -> Seq<Seq<char>>
    decreases items.len(),
{
    if items.len() == 0 {
        Seq::empty()
    } else {
        let prev = texts(items.drop_last());
        match items.last().str_of() {
            Some(t) => prev.push(t),
            None => prev,
        }
    }
}

/// Collects the text members of a list.
pub fn texts_exec(items: &Vec<Json>) -> (r: Vec<String>)
    ensures
        views(r@) == texts(items@),
{
    let mut out: Vec<String> = Vec::new();
    let mut i: usize = 0;
    while i < items.len()
        invariant
            i <= items@.len(),
            views(out@) == texts(items@.take(i as int)),
        decreases items.len() - i,
    {
        proof {
            assert(items@.take(i + 1).drop_last() =~= items@.take(i as int));
            assert(items@.take(i + 1).last() == items@[i as int]);
        }
        match &items[i] {
            Json::Str(t) => {
                push_line(&mut out, copy_str(t.as_str()));
            },
            _ => {},
        }
        i = i + 1;
    }
    proof {
        assert(items@.take(items@.len() as int) =~= items@);
    }
    out
}

} // verus!
