//! The pipeline over whole documents: locating each named table region,
//! normalizing its rows, tagging timetable rows against the reference
//! instant, keeping only upcoming exam rows, and attaching cross-reference
//! marks from the cancellation notices.

use vstd::prelude::*;
use vstd::string::StringExecFns;
use crate::cells::{
    extract_table, extract_table_spec, lemma_extract_table_rows_wf, min_cells, TableKind,
};
use crate::classify::{classify_weekday, classify_weekday_spec, ClassificationTag};
use crate::crossref::{row_is_matched, row_matches};
use crate::dates::{
    date_upcoming, is_upcoming, parse_date_spec, parse_exam_date, weekday_index_of_instant,
    weekday_of_instant,
};
use crate::dom::{now_unix_seconds, page_region_rows, scan_region};

verus! {

/// One annotated table: a header row, the normalized data rows, one temporal
/// tag and one cross-reference mark per row, an optional column to render
/// with emphasis, and whether the table's region was present at all (a found
/// region with zero rows is distinct from an absent region).
pub struct AnnotatedTable {
    pub header: Vec<String>,
    pub rows: Vec<Vec<String>>,
    pub tags: Vec<ClassificationTag>,
    pub matched: Vec<bool>,
    pub emphasize_col: Option<usize>,
    pub region_found: bool,
}

/// Shape invariant: exactly one tag and one mark per data row.
pub open spec fn table_wf(t: AnnotatedTable) -> bool {
    &&& t.tags@.len() == t.rows@.len()
    &&& t.matched@.len() == t.rows@.len()
}

/// The four annotated tables one pipeline run produces.
pub struct ScheduleTables {
    pub timetable: AnnotatedTable,
    pub upcoming: AnnotatedTable,
    pub cancellation: AnnotatedTable,
    pub exam: AnnotatedTable,
}

/// The timetable header fields.
pub open spec fn timetable_header() -> Seq<Seq<char>> {
    seq!["THỨ"@, "BUỔI"@, "TIẾT"@, "PHÒNG"@, "HỌC PHẦN"@, "GIẢNG VIÊN"@, "LỚP HỌC TẬP"@]
}

/// The cancellation-notice header fields.
pub open spec fn cancellation_header() -> Seq<Seq<char>> {
    seq!["Thời gian nghỉ"@, "Nội dung nghỉ"@]
}

/// The upcoming-schedule header fields.
pub open spec fn upcoming_header() -> Seq<Seq<char>> {
    seq![
        "Buổi"@,
        "Thứ"@,
        "Ngày bắt đầu"@,
        "Tiết"@,
        "Phòng"@,
        "Học phần"@,
        "Giảng viên"@,
        "Lớp học tập"@,
    ]
}

/// The exam-schedule header fields.
pub open spec fn exam_header() -> Seq<Seq<char>> {
    seq![
        "Học kỳ"@,
        "Tên học phần"@,
        "Số TC"@,
        "Ngày thi"@,
        "Xuất"@,
        "Thời gian thi"@,
        "Phòng"@,
        "Hình thức"@,
    ]
}

/// The annotated table is exactly what the named scan of `page` at `anchor`
/// yields under this table kind: when the scan finds a region, the table is
/// flagged found and its rows are the region's raw rows normalized; when it
/// finds none, the table is flagged absent and holds no rows.
pub open spec fn region_table_at(
    t: AnnotatedTable,
    page: Seq<char>,
    anchor: Seq<char>,
    kind: TableKind,
) -> bool {
    match page_region_rows(page, anchor) {
        Some(raw) => t.region_found && t.rows.deep_view() == extract_table_spec(raw, kind),
        None => !t.region_found && t.rows@.len() == 0,
    }
}

/// An exam row is upcoming: it has a date column, the date parses as
/// `dd/mm/yyyy`, and the date's grace window has not passed.
pub open spec fn row_upcoming(row: Seq<Seq<char>>, now_secs: int) -> bool {
    &&& row.len() > 3
    &&& match parse_date_spec(row[3]) {
        Some(d) => date_upcoming(d.year as int, d.month as int, d.day as int, now_secs),
        None => false,
    }
}

/// The exam rows that are upcoming, in source order.
pub open spec fn filter_upcoming_spec(rows: Seq<Seq<Seq<char>>>, now_secs: int) -> Seq<
    Seq<Seq<char>>,
>
    decreases rows.len(),
{
    if rows.len() == 0 {
        Seq::empty()
    } else {
        let front = filter_upcoming_spec(rows.drop_last(), now_secs);
        if row_upcoming(rows.last(), now_secs) {
            front.push(rows.last())
        } else {
            front
        }
    }
}

/// Every row the upcoming filter keeps is itself upcoming.
pub proof fn lemma_filter_upcoming_all(rows: Seq<Seq<Seq<char>>>, now_secs: int)
    ensures
        forall|i: int|
            0 <= i < filter_upcoming_spec(rows, now_secs).len() ==> row_upcoming(
                #[trigger] filter_upcoming_spec(rows, now_secs)[i],
                now_secs,
            ),
    decreases rows.len(),
{
    if rows.len() > 0 {
        lemma_filter_upcoming_all(rows.drop_last(), now_secs);
        let front = filter_upcoming_spec(rows.drop_last(), now_secs);
        if row_upcoming(rows.last(), now_secs) {
            assert(forall|i: int|
                0 <= i < front.len() ==> #[trigger] filter_upcoming_spec(rows, now_secs)[i]
                    == front[i]);
            assert(filter_upcoming_spec(rows, now_secs)[front.len() as int] == rows.last());
        }
    }
}

/// `n` tags, all unclassified.
fn unclassified_tags(n: usize) -> (v: Vec<ClassificationTag>)
    ensures
        v@.len() == n,
        forall|i: int| 0 <= i < n ==> v@[i] == ClassificationTag::Unclassified,
{
    let mut v: Vec<ClassificationTag> = Vec::new();
    let mut i: usize = 0;
    while i < n
        invariant
            i <= n,
            v@.len() == i,
            forall|k: int| 0 <= k < i ==> v@[k] == ClassificationTag::Unclassified,
        decreases n - i,
    {
        v.push(ClassificationTag::Unclassified);
        i += 1;
    }
    v
}

/// `n` cross-reference marks, all clear.
fn clear_marks(n: usize) -> (v: Vec<bool>)
    ensures
        v@.len() == n,
        forall|i: int| 0 <= i < n ==> v@[i] == false,
{
    let mut v: Vec<bool> = Vec::new();
    let mut i: usize = 0;
    while i < n
        invariant
            i <= n,
            v@.len() == i,
            forall|k: int| 0 <= k < i ==> v@[k] == false,
        decreases n - i,
    {
        v.push(false);
        i += 1;
    }
    v
}

/// A copy of one normalized row.
fn clone_row(row: &Vec<String>) -> (r: Vec<String>)
    ensures
        r.deep_view() == row.deep_view(),
{
    let n = row.len();
    let mut r: Vec<String> = Vec::new();
    let mut i: usize = 0;
    while i < n
        invariant
            n == row@.len(),
            i <= n,
            r.deep_view() =~= row.deep_view().take(i as int),
        decreases n - i,
    {
        r.push(row[i].clone());
        proof {
            assert(row.deep_view().take(i + 1) =~= row.deep_view().take(i as int).push(
                row@[i as int]@,
            ));
        }
        i += 1;
    }
    proof {
        assert(row.deep_view().take(n as int) =~= row.deep_view());
    }
    r
}

/// Locates one table region in the page and normalizes its rows; an absent
/// region yields an empty table flagged as not found, never an error.
fn plain_table(page: &str, anchor: &str, kind: TableKind, header: Vec<String>) -> (t:
    AnnotatedTable)
    ensures
        table_wf(t),
        t.header == header,
        t.emphasize_col is None,
        region_table_at(t, page@, anchor@, kind),
        forall|i: int| 0 <= i < t.tags@.len() ==> t.tags@[i] == ClassificationTag::Unclassified,
        forall|i: int| 0 <= i < t.matched@.len() ==> t.matched@[i] == false,
        forall|i: int|
            0 <= i < t.rows@.len() ==> #[trigger] t.rows.deep_view()[i].len() >= min_cells(kind),
{
    let rows: Vec<Vec<String>>;
    let found: bool;
    match scan_region(page, anchor) {
        Some(raw) => {
            proof {
                assert(page_region_rows(page@, anchor@) == Some(raw.deep_view()));
            }
            rows = extract_table(&raw, kind);
            found = true;
            proof {
                lemma_extract_table_rows_wf(raw.deep_view(), kind);
            }
        },
        None => {
            rows = Vec::new();
            found = false;
            proof {
                assert(page_region_rows(page@, anchor@) is None);
            }
        },
    }
    let n = rows.len();
    let tags = unclassified_tags(n);
    let matched = clear_marks(n);
    AnnotatedTable { header, rows, tags, matched, emphasize_col: None, region_found: found }
}

/// A header row from its field names.
fn header_row(names: &[&str]) -> (v: Vec<String>)
    ensures
        v.deep_view() == names.deep_view(),
{
    let n = names.len();
    let mut v: Vec<String> = Vec::new();
    let mut i: usize = 0;
    while i < n
        invariant
            n == names@.len(),
            i <= n,
            v.deep_view() =~= names.deep_view().take(i as int),
        decreases n - i,
    {
        v.push(String::from_str(names[i]));
        proof {
            assert(names.deep_view().take(i + 1) =~= names.deep_view().take(i as int).push(
                names@[i as int]@,
            ));
        }
        i += 1;
    }
    proof {
        assert(names.deep_view().take(n as int) =~= names.deep_view());
    }
    v
}

/// The timetable header row.
fn timetable_header_row() -> (v: Vec<String>)
    ensures
        v.deep_view() == timetable_header(),
{
    let v = header_row(
        &["THỨ", "BUỔI", "TIẾT", "PHÒNG", "HỌC PHẦN", "GIẢNG VIÊN", "LỚP HỌC TẬP"],
    );
    proof {
        assert(v.deep_view() =~= timetable_header());
    }
    v
}

/// The cancellation-notice header row.
fn cancellation_header_row() -> (v: Vec<String>)
    ensures
        v.deep_view() == cancellation_header(),
{
    let v = header_row(&["Thời gian nghỉ", "Nội dung nghỉ"]);
    proof {
        assert(v.deep_view() =~= cancellation_header());
    }
    v
}

/// The upcoming-schedule header row.
fn upcoming_header_row() -> (v: Vec<String>)
    ensures
        v.deep_view() == upcoming_header(),
{
    let v = header_row(
        &["Buổi", "Thứ", "Ngày bắt đầu", "Tiết", "Phòng", "Học phần", "Giảng viên", "Lớp học tập"],
    );
    proof {
        assert(v.deep_view() =~= upcoming_header());
    }
    v
}

/// The exam-schedule header row.
fn exam_header_row() -> (v: Vec<String>)
    ensures
        v.deep_view() == exam_header(),
{
    let v = header_row(
        &["Học kỳ", "Tên học phần", "Số TC", "Ngày thi", "Xuất", "Thời gian thi", "Phòng", "Hình thức"],
    );
    proof {
        assert(v.deep_view() =~= exam_header());
    }
    v
}

/// An empty table for a region treated as absent.
fn absent_table(header: Vec<String>, emphasize_col: Option<usize>) -> (t: AnnotatedTable)
    ensures
        table_wf(t),
        t.header == header,
        t.emphasize_col == emphasize_col,
        t.region_found == false,
        t.rows@.len() == 0,
        t.tags@.len() == 0,
        t.matched@.len() == 0,
{
    AnnotatedTable {
        header,
        rows: Vec::new(),
        tags: Vec::new(),
        matched: Vec::new(),
        emphasize_col,
        region_found: false,
    }
}

/// Extracts the cancellation-notice table from the page body: the rows of
/// the announcement region (those with more than one cell), normalized,
/// untagged; a page without the region yields zero rows flagged absent.
pub fn cancellation_notice(page: &str) -> (t: AnnotatedTable)
    ensures
        table_wf(t),
        t.header.deep_view() == cancellation_header(),
        t.emphasize_col is None,
        region_table_at(t, page@, "#MainContent_Gtb"@, TableKind::Cancellation),
        forall|i: int| 0 <= i < t.tags@.len() ==> t.tags@[i] == ClassificationTag::Unclassified,
        forall|i: int| 0 <= i < t.matched@.len() ==> t.matched@[i] == false,
        forall|i: int| 0 <= i < t.rows@.len() ==> #[trigger] t.rows.deep_view()[i].len() >= 2,
{
    plain_table(page, "#MainContent_Gtb", TableKind::Cancellation, cancellation_header_row())
}

/// Extracts the upcoming-schedule table from the page body: the rows of the
/// upcoming region (those with at least one cell), normalized, untagged; a
/// page without the region yields zero rows flagged absent.
pub fn extract_upcoming_schedule(page: &str) -> (t: AnnotatedTable)
    ensures
        table_wf(t),
        t.header.deep_view() == upcoming_header(),
        t.emphasize_col is None,
        region_table_at(t, page@, "#MainContent_GV1"@, TableKind::Upcoming),
        forall|i: int| 0 <= i < t.tags@.len() ==> t.tags@[i] == ClassificationTag::Unclassified,
        forall|i: int| 0 <= i < t.matched@.len() ==> t.matched@[i] == false,
        forall|i: int| 0 <= i < t.rows@.len() ==> #[trigger] t.rows.deep_view()[i].len() >= 1,
{
    plain_table(page, "#MainContent_GV1", TableKind::Upcoming, upcoming_header_row())
}

/// Extracts the timetable from the page body: the rows of the timetable
/// region (those with at least two cells) normalized under the room-column
/// rules, each row tagged today or tomorrow from its weekday code against
/// the reference instant; a page without the region yields zero rows flagged
/// absent.
pub fn timetable_table(page: &str, now_secs: u64) -> (t: AnnotatedTable)
    requires
        now_secs + 25200 <= u64::MAX,
    ensures
        table_wf(t),
        t.header.deep_view() == timetable_header(),
        t.emphasize_col is None,
        region_table_at(t, page@, "#MainContent_GV2"@, TableKind::Timetable),
        forall|i: int| 0 <= i < t.matched@.len() ==> t.matched@[i] == false,
        forall|i: int| 0 <= i < t.rows@.len() ==> #[trigger] t.rows.deep_view()[i].len() >= 2,
        forall|i: int|
            0 <= i < t.rows@.len() ==> #[trigger] t.tags@[i] == classify_weekday_spec(
                t.rows.deep_view()[i][0],
                weekday_of_instant(now_secs as int),
            ),
{
    let base = plain_table(page, "#MainContent_GV2", TableKind::Timetable, timetable_header_row());
    let today = weekday_index_of_instant(now_secs);
    let n = base.rows.len();
    let mut tags: Vec<ClassificationTag> = Vec::new();
    let mut i: usize = 0;
    while i < n
        invariant
            n == base.rows@.len(),
            i <= n,
            today < 7,
            today == weekday_of_instant(now_secs as int),
            tags@.len() == i,
            forall|k: int|
                0 <= k < base.rows@.len() ==> #[trigger] base.rows.deep_view()[k].len() >= 2,
            forall|k: int|
                0 <= k < i ==> #[trigger] tags@[k] == classify_weekday_spec(
                    base.rows.deep_view()[k][0],
                    weekday_of_instant(now_secs as int),
                ),
        decreases n - i,
    {
        proof {
            assert(base.rows.deep_view()[i as int] == base.rows@[i as int].deep_view());
            assert(base.rows@[i as int].deep_view().len() == base.rows@[i as int]@.len());
        }
        let row = &base.rows[i];
        let code = &row[0];
        proof {
            assert(code@ == base.rows.deep_view()[i as int][0]);
        }
        tags.push(classify_weekday(code.as_str(), today));
        i += 1;
    }
    AnnotatedTable {
        header: base.header,
        rows: base.rows,
        tags,
        matched: base.matched,
        emphasize_col: None,
        region_found: base.region_found,
    }
}

/// The annotated exam table is exactly what the named scan of `page` yields:
/// when the scan finds the exam region, the table is flagged found and holds
/// the region's normalized rows that are still upcoming at `now_secs`; when
/// it finds none, the table is flagged absent and holds no rows.
pub open spec fn exam_table_at(t: AnnotatedTable, page: Seq<char>, now_secs: int) -> bool {
    match page_region_rows(page, "#MainContent_GV2"@) {
        Some(raw) => t.region_found && t.rows.deep_view() == filter_upcoming_spec(
            extract_table_spec(raw, TableKind::Exam),
            now_secs,
        ),
        None => !t.region_found && t.rows@.len() == 0,
    }
}

/// Extracts the exam schedule from the page body: the rows of the exam
/// region (those with more than three cells), normalized, and only those
/// whose date column holds a `dd/mm/yyyy` date still upcoming at the
/// reference instant; the date column is marked for emphasis; a page without
/// the region yields zero rows flagged absent.
pub fn exam_schedule(page: &str, now_secs: u64) -> (t: AnnotatedTable)
    ensures
        table_wf(t),
        t.header.deep_view() == exam_header(),
        t.emphasize_col == Some(3usize),
        exam_table_at(t, page@, now_secs as int),
        forall|i: int| 0 <= i < t.tags@.len() ==> t.tags@[i] == ClassificationTag::Unclassified,
        forall|i: int| 0 <= i < t.matched@.len() ==> t.matched@[i] == false,
        forall|i: int|
            0 <= i < t.rows@.len() ==> row_upcoming(
                #[trigger] t.rows.deep_view()[i],
                now_secs as int,
            ),
{
    let base = plain_table(page, "#MainContent_GV2", TableKind::Exam, exam_header_row());
    let n = base.rows.len();
    let mut rows: Vec<Vec<String>> = Vec::new();
    let mut i: usize = 0;
    while i < n
        invariant
            n == base.rows@.len(),
            i <= n,
            forall|k: int|
                0 <= k < base.rows@.len() ==> #[trigger] base.rows.deep_view()[k].len() >= 4,
            rows.deep_view() =~= filter_upcoming_spec(
                base.rows.deep_view().take(i as int),
                now_secs as int,
            ),
        decreases n - i,
    {
        proof {
            assert(base.rows.deep_view()[i as int] == base.rows@[i as int].deep_view());
            assert(base.rows@[i as int].deep_view().len() == base.rows@[i as int]@.len());
            let pre = base.rows.deep_view().take(i + 1);
            assert(pre.drop_last() =~= base.rows.deep_view().take(i as int));
            assert(pre.last() == base.rows.deep_view()[i as int]);
        }
        let row = &base.rows[i];
        let date_field = &row[3];
        proof {
            assert(date_field@ == base.rows.deep_view()[i as int][3]);
        }
        let keep = match parse_exam_date(date_field.as_str()) {
            Some(d) => is_upcoming(&d, now_secs),
            None => false,
        };
        proof {
            assert(keep == row_upcoming(base.rows.deep_view()[i as int], now_secs as int));
        }
        if keep {
            rows.push(clone_row(row));
        }
        i += 1;
    }
    proof {
        assert(base.rows.deep_view().take(n as int) =~= base.rows.deep_view());
        lemma_filter_upcoming_all(base.rows.deep_view(), now_secs as int);
        if page_region_rows(page@, "#MainContent_GV2"@) is None {
            assert(base.rows.deep_view().len() == 0);
            assert(filter_upcoming_spec(base.rows.deep_view(), now_secs as int) =~= Seq::<
                Seq<Seq<char>>,
            >::empty());
        }
    }
    let m = rows.len();
    let tags = unclassified_tags(m);
    let matched = clear_marks(m);
    AnnotatedTable {
        header: base.header,
        rows,
        tags,
        matched,
        emphasize_col: Some(3),
        region_found: base.region_found,
    }
}

/// One cross-reference mark per timetable row: whether some cancellation row
/// mentions the row's course identifier.
fn matched_marks(timetable_rows: &Vec<Vec<String>>, announcement_rows: &Vec<Vec<String>>) -> (v:
    Vec<bool>)
    ensures
        v@.len() == timetable_rows@.len(),
        forall|i: int|
            0 <= i < v@.len() ==> #[trigger] v@[i] == row_is_matched(
                timetable_rows.deep_view()[i],
                announcement_rows.deep_view(),
            ),
{
    let n = timetable_rows.len();
    let announcements = announcement_rows.as_slice();
    proof {
        assert(announcements.deep_view() =~= announcement_rows.deep_view());
    }
    let mut v: Vec<bool> = Vec::new();
    let mut i: usize = 0;
    while i < n
        invariant
            n == timetable_rows@.len(),
            i <= n,
            v@.len() == i,
            announcements@ == announcement_rows@,
            announcements.deep_view() == announcement_rows.deep_view(),
            forall|k: int|
                0 <= k < i ==> #[trigger] v@[k] == row_is_matched(
                    timetable_rows.deep_view()[k],
                    announcement_rows.deep_view(),
                ),
        decreases n - i,
    {
        proof {
            assert(timetable_rows.deep_view()[i as int] == timetable_rows@[i as int].deep_view());
        }
        v.push(row_matches(&timetable_rows[i], announcements));
        i += 1;
    }
    v
}

/// The annotated timetable is exactly what the named scan of `page` yields,
/// with every row tagged from its weekday code against the instant
/// `now_secs`.
pub open spec fn timetable_at(t: AnnotatedTable, page: Seq<char>, now_secs: int) -> bool {
    &&& region_table_at(t, page, "#MainContent_GV2"@, TableKind::Timetable)
    &&& forall|i: int|
        0 <= i < t.rows@.len() ==> #[trigger] t.tags@[i] == classify_weekday_spec(
            t.rows.deep_view()[i][0],
            weekday_of_instant(now_secs),
        )
}

/// Every cross-reference mark of `t` says exactly whether some row of the
/// announcement table `c` mentions that row's course identifier.
pub open spec fn marks_from(t: AnnotatedTable, c: AnnotatedTable) -> bool {
    forall|i: int|
        0 <= i < t.rows@.len() ==> #[trigger] t.matched@[i] == row_is_matched(
            t.rows.deep_view()[i],
            c.rows.deep_view(),
        )
}

/// The whole pipeline result for the two page bodies at one reference
/// instant: each of the four tables is exactly what the named scan of its
/// page and anchor yields (timetable, upcoming and cancellation from the
/// timetable page; exams, filtered to upcoming, from the exam page), the
/// timetable tags classify against that instant, and the timetable marks
/// record exactly which rows the cancellation table mentions.
pub open spec fn schedule_built_at(
    r: ScheduleTables,
    timetable_page: Seq<char>,
    exam_page: Seq<char>,
    now_secs: int,
) -> bool {
    &&& timetable_at(r.timetable, timetable_page, now_secs)
    &&& region_table_at(r.upcoming, timetable_page, "#MainContent_GV1"@, TableKind::Upcoming)
    &&& region_table_at(
        r.cancellation,
        timetable_page,
        "#MainContent_Gtb"@,
        TableKind::Cancellation,
    )
    &&& exam_table_at(r.exam, exam_page, now_secs)
    &&& marks_from(r.timetable, r.cancellation)
}

/// Runs the whole pipeline over the two page bodies against one reference
/// instant: extracts the four tables, tags the timetable rows, keeps
/// upcoming exam rows, and marks the timetable rows that the cancellation
/// notices mention.
pub fn assemble_schedule(timetable_page: &str, exam_page: &str, now_secs: u64) -> (r:
    ScheduleTables)
    requires
        now_secs + 25200 <= u64::MAX,
    ensures
        table_wf(r.timetable) && table_wf(r.upcoming) && table_wf(r.cancellation) && table_wf(
            r.exam,
        ),
        r.timetable.header.deep_view() == timetable_header(),
        r.upcoming.header.deep_view() == upcoming_header(),
        r.cancellation.header.deep_view() == cancellation_header(),
        r.exam.header.deep_view() == exam_header(),
        schedule_built_at(r, timetable_page@, exam_page@, now_secs as int),
        forall|i: int|
            0 <= i < r.upcoming.tags@.len() ==> r.upcoming.tags@[i]
                == ClassificationTag::Unclassified,
        forall|i: int|
            0 <= i < r.cancellation.tags@.len() ==> r.cancellation.tags@[i]
                == ClassificationTag::Unclassified,
        forall|i: int|
            0 <= i < r.exam.tags@.len() ==> r.exam.tags@[i] == ClassificationTag::Unclassified,
        forall|i: int| 0 <= i < r.upcoming.matched@.len() ==> r.upcoming.matched@[i] == false,
        forall|i: int|
            0 <= i < r.cancellation.matched@.len() ==> r.cancellation.matched@[i] == false,
        forall|i: int| 0 <= i < r.exam.matched@.len() ==> r.exam.matched@[i] == false,
        forall|i: int|
            0 <= i < r.exam.rows@.len() ==> row_upcoming(
                #[trigger] r.exam.rows.deep_view()[i],
                now_secs as int,
            ),
        forall|i: int| 0 <= i < r.timetable.rows@.len() ==> #[trigger] r.timetable.rows.deep_view()[
            i
        ].len() >= 2,
        r.timetable.emphasize_col is None,
        r.upcoming.emphasize_col is None,
        r.cancellation.emphasize_col is None,
        r.exam.emphasize_col == Some(3usize),
{
    let timetable = timetable_table(timetable_page, now_secs);
    let upcoming = extract_upcoming_schedule(timetable_page);
    let cancellation = cancellation_notice(timetable_page);
    let exam = exam_schedule(exam_page, now_secs);
    let marks = matched_marks(&timetable.rows, &cancellation.rows);
    let timetable = AnnotatedTable {
        header: timetable.header,
        rows: timetable.rows,
        tags: timetable.tags,
        matched: marks,
        emphasize_col: timetable.emphasize_col,
        region_found: timetable.region_found,
    };
    ScheduleTables { timetable, upcoming, cancellation, exam }
}

/// A row's fields joined for one-line display, separated by " ─ ".
pub open spec fn joined_fields(row: Seq<Seq<char>>) -> Seq<char>
    decreases row.len(),
{
    if row.len() == 0 {
        Seq::empty()
    } else if row.len() == 1 {
        row[0]
    } else {
        joined_fields(row.drop_last()) + " ─ "@ + row.last()
    }
}

/// One display line per row tagged `Today`, in row order.
pub open spec fn todays_lines_spec(rows: Seq<Seq<Seq<char>>>, tags: Seq<ClassificationTag>) -> Seq<
    Seq<char>,
>
    decreases rows.len(),
{
    if rows.len() == 0 {
        Seq::empty()
    } else {
        let front = todays_lines_spec(rows.drop_last(), tags.take(rows.len() - 1));
        if tags[rows.len() - 1] == ClassificationTag::Today {
            front.push(joined_fields(rows.last()))
        } else {
            front
        }
    }
}

/// One row's fields joined with " ─ " for one-line display.
fn join_fields(row: &Vec<String>) -> (line: String)
    ensures
        line@ == joined_fields(row.deep_view()),
{
    let n = row.len();
    let mut line = String::new();
    let mut j: usize = 0;
    while j < n
        invariant
            n == row@.len(),
            j <= n,
            line@ == joined_fields(row.deep_view().take(j as int)),
        decreases n - j,
    {
        if j > 0 {
            line.append(" ─ ");
        }
        line.append(row[j].as_str());
        proof {
            let pre = row.deep_view().take(j + 1);
            assert(pre.drop_last() =~= row.deep_view().take(j as int));
            assert(pre.last() == row@[j as int]@);
            if j == 0 {
                assert(line@ =~= joined_fields(pre));
            }
        }
        j += 1;
    }
    proof {
        assert(row.deep_view().take(n as int) =~= row.deep_view());
    }
    line
}

/// The display lines of the timetable rows tagged `Today`, each row's fields
/// joined with " ─ ", in row order.
pub fn todays_class_lines(t: &AnnotatedTable) -> (lines: Vec<String>)
    requires
        table_wf(*t),
    ensures
        lines.deep_view() == todays_lines_spec(t.rows.deep_view(), t.tags@),
{
    let n = t.rows.len();
    let mut lines: Vec<String> = Vec::new();
    let mut i: usize = 0;
    while i < n
        invariant
            n == t.rows@.len(),
            t.tags@.len() == n,
            i <= n,
            lines.deep_view() =~= todays_lines_spec(
                t.rows.deep_view().take(i as int),
                t.tags@.take(i as int),
            ),
        decreases n - i,
    {
        proof {
            let pre = t.rows.deep_view().take(i + 1);
            assert(pre.drop_last() =~= t.rows.deep_view().take(i as int));
            assert(pre.last() == t.rows.deep_view()[i as int]);
            assert(t.tags@.take(i + 1).take(i as int) =~= t.tags@.take(i as int));
            assert(t.rows.deep_view()[i as int] == t.rows@[i as int].deep_view());
        }
        let is_today = match t.tags[i] {
            ClassificationTag::Today => true,
            _ => false,
        };
        if is_today {
            lines.push(join_fields(&t.rows[i]));
        }
        i += 1;
    }
    proof {
        assert(t.rows.deep_view().take(n as int) =~= t.rows.deep_view());
        assert(t.tags@.take(n as int) =~= t.tags@);
    }
    lines
}

/// Fetch-free entry point over the two page bodies: samples the clock once
/// (a clock before the epoch reads as the epoch, and one beyond the
/// representable range saturates) and assembles the four annotated tables
/// against that single instant.
pub fn build_schedule_tables(timetable_page: &str, exam_page: &str) -> (r: ScheduleTables)
    ensures
        table_wf(r.timetable) && table_wf(r.upcoming) && table_wf(r.cancellation) && table_wf(
            r.exam,
        ),
        r.timetable.header.deep_view() == timetable_header(),
        r.upcoming.header.deep_view() == upcoming_header(),
        r.cancellation.header.deep_view() == cancellation_header(),
        r.exam.header.deep_view() == exam_header(),
        region_table_at(
            r.timetable,
            timetable_page@,
            "#MainContent_GV2"@,
            TableKind::Timetable,
        ),
        region_table_at(r.upcoming, timetable_page@, "#MainContent_GV1"@, TableKind::Upcoming),
        region_table_at(
            r.cancellation,
            timetable_page@,
            "#MainContent_Gtb"@,
            TableKind::Cancellation,
        ),
        marks_from(r.timetable, r.cancellation),
        r.exam.emphasize_col == Some(3usize),
        exists|now_secs: int|
            0 <= now_secs && schedule_built_at(r, timetable_page@, exam_page@, now_secs),
{
    let now_raw: u64 = match now_unix_seconds() {
        Some(s) => s,
        None => 0,
    };
    let now_secs: u64 = if now_raw <= u64::MAX - 25200 {
        now_raw
    } else {
        u64::MAX - 25200
    };
    let r = assemble_schedule(timetable_page, exam_page, now_secs);
    proof {
        assert(schedule_built_at(r, timetable_page@, exam_page@, now_secs as int));
    }
    r
}

} // verus!
