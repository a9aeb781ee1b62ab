//! Raw cells and rows as the document scan hands them over, and their
//! normalization into clean field sequences, with per-table minimum-length
//! gates and the room-column rules.

use vstd::prelude::*;
use vstd::string::StringExecFns;
use crate::text::{
    chars_of, infix_at, line_prefix, line_prefix_str, lemma_line_prefix_all,
    lemma_trimmed_idempotent, lemma_trimmed_infix, marks_online, online_at, text_marks_online,
    trim_back, trim_front, trim_str, trimmed,
};

verus! {

/// The mathematical value of a raw cell: its text and the target of its first
/// embedded hyperlink, if any.
pub struct RawCellV {
    pub text: Seq<char>,
    pub link: Option<Seq<char>>,
}

/// One table cell as scanned from the document: the concatenated text content
/// and the first hyperlink target, if the cell holds one.
pub struct RawCell {
    pub text: String,
    pub link: Option<String>,
}

impl View for RawCell {
    type V = RawCellV;

    open spec fn view(&self) -> RawCellV {
        RawCellV { text: self.text@, link: self.link.deep_view() }
    }
}

impl DeepView for RawCell {
    type V = RawCellV;

    open spec fn deep_view(&self) -> RawCellV {
        self@
    }
}

/// Which logical table a row belongs to; each selects its own minimum cell
/// count and whether a room column exists.
#[derive(Clone, Copy, PartialEq, Eq, Structural, Debug)]
pub enum TableKind {
    Timetable,
    Cancellation,
    Exam,
    Upcoming,
}

/// The fewest cells a data row of this table may have; shorter rows are
/// header or spacer markup and are dropped.
pub open spec fn min_cells(kind: TableKind) -> int {
    match kind {
        TableKind::Timetable => 2,
        TableKind::Cancellation => 2,
        TableKind::Exam => 4,
        TableKind::Upcoming => 1,
    }
}

/// The column index that holds the room, where the table has one.
pub open spec fn room_column(kind: TableKind) -> Option<int> {
    match kind {
        TableKind::Timetable => Some(3),
        _ => None,
    }
}

/// Whether column `i` is the room column of this table.
pub open spec fn is_room_index(kind: TableKind, i: int) -> bool {
    room_column(kind) == Some(i)
}

/// The synthesized room field for an "online" room: the literal marker around
/// the cell's hyperlink target, or a placeholder when no hyperlink exists.
pub open spec fn online_marker(link: Option<Seq<char>>) -> Seq<char> {
    "link online ("@ + (if link is Some {
        link->0
    } else {
        "link unavailable"@
    }) + ")"@
}

/// What field normalization yields for one cell: trimmed text, except that a
/// room cell mentioning "online" becomes the link marker and any other room
/// cell is cut at its first newline.
pub open spec fn normalize_field_spec(cell: RawCellV, is_room: bool) -> Seq<char> {
    if is_room && text_marks_online(trimmed(cell.text)) {
        online_marker(cell.link)
    } else if is_room {
        trimmed(line_prefix(trimmed(cell.text)))
    } else {
        trimmed(cell.text)
    }
}

/// Cleans one raw cell into its field value.
pub fn normalize_field(cell: &RawCell, is_room: bool) -> (r: String)
    ensures
        r@ == normalize_field_spec(cell@, is_room),
{
    let t = trim_str(cell.text.as_str());
    if is_room {
        let tc = chars_of(t);
        if marks_online(&tc) {
            let mut out = String::from_str("link online (");
            match &cell.link {
                Some(l) => out.append(l.as_str()),
                None => out.append("link unavailable"),
            }
            out.append(")");
            return out;
        }
        let p = line_prefix_str(t);
        let r = trim_str(p);
        return r.to_owned();
    }
    t.to_owned()
}

/// The normalized fields of a row: one cleaned field per source column, in
/// source order.
pub open spec fn normalize_row_spec(cells: Seq<RawCellV>, kind: TableKind) -> Seq<Seq<char>> {
    Seq::new(cells.len(), |i: int| normalize_field_spec(cells[i], is_room_index(kind, i)))
}

/// What row extraction yields: the normalized fields, or nothing when the row
/// is below the table's minimum cell count.
pub open spec fn extract_row_spec(cells: Seq<RawCellV>, kind: TableKind) -> Option<Seq<Seq<char>>> {
    if cells.len() >= min_cells(kind) {
        Some(normalize_row_spec(cells, kind))
    } else {
        None
    }
}

/// The fewest cells a data row of this table may have.
pub fn min_cells_of(kind: TableKind) -> (n: usize)
    ensures
        n == min_cells(kind),
{
    match kind {
        TableKind::Timetable => 2,
        TableKind::Cancellation => 2,
        TableKind::Exam => 4,
        TableKind::Upcoming => 1,
    }
}

/// Converts one raw row into a normalized row, or drops it when too short.
pub fn extract_row(cells: &Vec<RawCell>, kind: TableKind) -> (r: Option<Vec<String>>)
    ensures
        match r {
            Some(v) => extract_row_spec(cells.deep_view(), kind) == Some(v.deep_view()),
            None => extract_row_spec(cells.deep_view(), kind) is None,
        },
{
    let n = cells.len();
    if n < min_cells_of(kind) {
        return None;
    }
    let mut out: Vec<String> = Vec::new();
    let mut i: usize = 0;
    while i < n
        invariant
            n == cells@.len(),
            i <= n,
            min_cells(kind) <= n,
            out.deep_view() =~= normalize_row_spec(cells.deep_view(), kind).take(i as int),
        decreases n - i,
    {
        let is_room = match kind {
            TableKind::Timetable => i == 3,
            _ => false,
        };
        proof {
            assert(is_room == is_room_index(kind, i as int));
        }
        let f = normalize_field(&cells[i], is_room);
        out.push(f);
        proof {
            assert(cells.deep_view()[i as int] == cells@[i as int]@);
            assert(normalize_row_spec(cells.deep_view(), kind).take(i + 1)
                =~= normalize_row_spec(cells.deep_view(), kind).take(i as int).push(
                normalize_field_spec(cells.deep_view()[i as int], is_room_index(kind, i as int)),
            ));
        }
        i += 1;
    }
    proof {
        assert(normalize_row_spec(cells.deep_view(), kind).take(n as int) =~= normalize_row_spec(
            cells.deep_view(),
            kind,
        ));
    }
    Some(out)
}

/// What table extraction yields over a row sequence: each row normalized, in
/// source order, with too-short rows dropped.
pub open spec fn extract_table_spec(rows: Seq<Seq<RawCellV>>, kind: TableKind) -> Seq<
    Seq<Seq<char>>,
>
    decreases rows.len(),
{
    if rows.len() == 0 {
        Seq::empty()
    } else {
        let front = extract_table_spec(rows.drop_last(), kind);
        match extract_row_spec(rows.last(), kind) {
            Some(r) => front.push(r),
            None => front,
        }
    }
}

/// Converts the raw rows of one region into the normalized table rows.
pub fn extract_table(rows: &Vec<Vec<RawCell>>, kind: TableKind) -> (t: Vec<Vec<String>>)
    ensures
        t.deep_view() == extract_table_spec(rows.deep_view(), kind),
{
    let n = rows.len();
    let mut t: Vec<Vec<String>> = Vec::new();
    let mut i: usize = 0;
    while i < n
        invariant
            n == rows@.len(),
            i <= n,
            t.deep_view() =~= extract_table_spec(rows.deep_view().take(i as int), kind),
        decreases n - i,
    {
        proof {
            let pre = rows.deep_view().take(i + 1);
            assert(pre.drop_last() =~= rows.deep_view().take(i as int));
            assert(pre.last() == rows.deep_view()[i as int]);
            assert(rows.deep_view()[i as int] =~= rows@[i as int].deep_view());
        }
        match extract_row(&rows[i], kind) {
            Some(v) => {
                t.push(v);
            },
            None => {},
        }
        i += 1;
    }
    proof {
        assert(rows.deep_view().take(n as int) =~= rows.deep_view());
    }
    t
}

/// Every row that table extraction emits meets its table's minimum cell count
/// and consists of normalized fields of one source row.
pub proof fn lemma_extract_table_rows_wf(rows: Seq<Seq<RawCellV>>, kind: TableKind)
    ensures
        forall|i: int|
            0 <= i < extract_table_spec(rows, kind).len() ==> #[trigger] extract_table_spec(
                rows,
                kind,
            )[i].len() >= min_cells(kind),
    decreases rows.len(),
{
    if rows.len() > 0 {
        lemma_extract_table_rows_wf(rows.drop_last(), kind);
        let front = extract_table_spec(rows.drop_last(), kind);
        if extract_row_spec(rows.last(), kind) is Some {
            let r = extract_row_spec(rows.last(), kind)->0;
            assert(r.len() >= min_cells(kind));
            assert(forall|i: int|
                0 <= i < front.len() ==> #[trigger] extract_table_spec(rows, kind)[i] == front[i]);
            assert(extract_table_spec(rows, kind)[front.len() as int] == r);
        }
    }
}

/// Extraction never emits more rows than the region holds.
pub proof fn lemma_extract_table_len(rows: Seq<Seq<RawCellV>>, kind: TableKind)
    ensures
        extract_table_spec(rows, kind).len() <= rows.len(),
    decreases rows.len(),
{
    if rows.len() > 0 {
        lemma_extract_table_len(rows.drop_last(), kind);
    }
}

/// Law: a normalized row never has more fields than its source row, and field
/// `i` derives only from source column `i`.
pub proof fn lemma_normalize_keeps_shape(cells: Seq<RawCellV>, kind: TableKind)
    ensures
        extract_row_spec(cells, kind) is Some ==> extract_row_spec(cells, kind)->0.len()
            <= cells.len(),
        extract_row_spec(cells, kind) is Some ==> forall|i: int|
            0 <= i < extract_row_spec(cells, kind)->0.len() ==> extract_row_spec(cells, kind)->0[i]
                == normalize_field_spec(cells[i], is_room_index(kind, i)),
{
}

/// Law: every normalized field is already trimmed; trimming it again changes
/// nothing.
pub proof fn lemma_normalized_field_trimmed(cell: RawCellV, is_room: bool)
    ensures
        trimmed(normalize_field_spec(cell, is_room)) == normalize_field_spec(cell, is_room),
{
    if is_room && text_marks_online(trimmed(cell.text)) {
        let m = online_marker(cell.link);
        reveal_strlit("link online (");
        reveal_strlit(")");
        assert(m[0] == 'l');
        assert(m[m.len() - 1] == ')');
        assert(trim_front(m) == m);
        assert(trim_back(m) == m);
    } else if is_room {
        lemma_trimmed_idempotent(line_prefix(trimmed(cell.text)));
    } else {
        lemma_trimmed_idempotent(cell.text);
    }
}

/// Law: room-column normalization is idempotent for text that does not
/// mention "online" and is already truncated at its first newline:
/// normalizing its normalized form changes nothing.
pub proof fn lemma_room_normalize_idempotent(cell: RawCellV, again: RawCellV)
    requires
        !text_marks_online(cell.text),
        forall|k: int| 0 <= k < cell.text.len() ==> cell.text[k] != '\n',
        again.text == normalize_field_spec(cell, true),
    ensures
        normalize_field_spec(again, true) == normalize_field_spec(cell, true),
{
    let s = cell.text;
    let t = trimmed(s);
    lemma_trimmed_infix(s);
    let k = choose|k: int| infix_at(s, t, k);
    assert(!text_marks_online(t)) by {
        if text_marks_online(t) {
            let i = choose|i: int| online_at(t, i);
            assert(online_at(s, i + k));
        }
    }
    assert(forall|x: int| 0 <= x < t.len() ==> t[x] != '\n');
    lemma_line_prefix_all(t);
    lemma_trimmed_idempotent(s);
    assert(normalize_field_spec(cell, true) == t);
    // The once-normalized text is `t` itself; repeat the same reasoning on it.
    assert(trimmed(t) == t);
    assert(!text_marks_online(trimmed(t)));
    lemma_line_prefix_all(trimmed(t));
    lemma_trimmed_idempotent(t);
}

} // verus!
