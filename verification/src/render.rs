//! The data handed to the rendering sink each frame: one labelled row per
//! listing entry with the selected one flagged, and the geometry of the
//! paginated multi-column view.
use vstd::prelude::*;
use vstd::string::StringExecFns;

use crate::app::App;
use crate::file_ops::DirectoryItem;
use crate::file_ops::item_path;
use crate::text::base_name;
use crate::text::basename;
use crate::text::push_char;

verus! {

/// The label a listing entry shows: a file or folder marker, a space, the
/// entry's base name, and a line break.
pub open spec fn label_spec(i: DirectoryItem) -> Seq<char> {
    (if i is File {
        seq!['\u{1F4C4}']
    } else {
        seq!['\u{1F4C1}']
    }) + seq![' '] + basename(item_path(i)) + seq!['\n']
}

/// The display label of one entry: its base name behind a file or folder
/// marker.
pub fn display_label(item: &DirectoryItem) -> (r: String)
    ensures
        r@ == label_spec(*item),
{
    let mut s = String::new();
    let marker: char = match item {
        DirectoryItem::File(_) => '\u{1F4C4}',
        DirectoryItem::Directory(_) => '\u{1F4C1}',
    };
    push_char(&mut s, marker);
    push_char(&mut s, ' ');
    let b = match item {
        DirectoryItem::File((p, _)) => base_name(p.as_str()),
        DirectoryItem::Directory(p) => base_name(p.as_str()),
    };
    s.append(b.as_str());
    push_char(&mut s, '\n');
    proof {
        assert(s@ =~= label_spec(*item));
    }
    s
}

/// One row per listing entry, in order, with the selected row flagged.
pub fn visible_rows(app: &App) -> (r: Vec<(String, bool)>)
    requires
        app.wf(),
    ensures
        r@.len() == app.directory_contents@.len(),
        forall|k: int|
            0 <= k < r@.len() ==> (#[trigger] r@[k]).0@ == label_spec(app.directory_contents@[k])
                && r@[k].1 == (app.selection_index == Some(k as usize)),
{
    let mut r: Vec<(String, bool)> = Vec::new();
    let mut k: usize = 0;
    while k < app.directory_contents.len()
        invariant
            app.wf(),
            k <= app.directory_contents@.len(),
            r@.len() == k as int,
            forall|t: int|
                0 <= t < k as int ==> (#[trigger] r@[t]).0@ == label_spec(
                    app.directory_contents@[t],
                ) && r@[t].1 == (app.selection_index == Some(t as usize)),
        decreases app.directory_contents@.len() - k,
    {
        let selected: bool = match app.selection_index {
            Some(i) => i == k,
            None => false,
        };
        let label = display_label(&app.directory_contents[k]);
        r.push((label, selected));
        k = k + 1;
    }
    r
}

/// The number of columns of the view: the listing length divided by the
/// viewport height, rounded up.
pub open spec fn column_count_spec(len: int, rows: int) -> int {
    if len == 0 {
        0
    } else {
        (len - 1) / rows + 1
    }
}

/// The column count is the least one whose columns hold the whole listing:
/// enough room for every entry, and none to spare.
pub proof fn lemma_column_count_covers(len: int, rows: int)
    requires
        0 < rows,
        0 <= len,
    ensures
        0 <= column_count_spec(len, rows) <= len,
        column_count_spec(len, rows) * rows >= len,
        len > 0 ==> (column_count_spec(len, rows) - 1) * rows < len,
{
    if len > 0 {
        vstd::arithmetic::div_mod::lemma_fundamental_div_mod(len - 1, rows);
        vstd::arithmetic::div_mod::lemma_mod_bound(len - 1, rows);
        vstd::arithmetic::div_mod::lemma_div_nonincreasing(len - 1, rows);
        let q = (len - 1) / rows;
        let m = (len - 1) % rows;
        assert(q >= 0 && (q + 1) * rows >= len && q * rows < len) by (nonlinear_arith)
            requires
                len - 1 == rows * q + m,
                0 <= m < rows,
                0 < rows,
                0 < len,
        ;
    }
}

/// The number of display columns for a listing of the given length.
pub fn column_count(len: usize, rows: usize) -> (r: usize)
    requires
        rows > 0,
    ensures
        r == column_count_spec(len as int, rows as int),
{
    if len == 0 {
        0
    } else {
        proof {
            vstd::arithmetic::div_mod::lemma_div_nonincreasing(len as int - 1, rows as int);
        }
        (len - 1) / rows + 1
    }
}

/// The slice of the listing that one column shows: a full viewport of
/// rows, truncated to the remaining entries for the last column.
pub fn column_bounds(len: usize, rows: usize, c: usize) -> (r: (usize, usize))
    requires
        rows > 0,
        (c as int) < column_count_spec(len as int, rows as int),
    ensures
        r.0 == c as int * rows as int,
        r.1 == (if c as int * rows as int + rows as int <= len as int {
            c as int * rows as int + rows as int
        } else {
            len as int
        }),
        r.0 < r.1 <= len,
{
    proof {
        lemma_column_count_covers(len as int, rows as int);
        vstd::arithmetic::mul::lemma_mul_inequality(
            c as int,
            column_count_spec(len as int, rows as int) - 1,
            rows as int,
        );
    }
    let from = c * rows;
    let to = if len - from < rows {
        len
    } else {
        from + rows
    };
    (from, to)
}

} // verus!
