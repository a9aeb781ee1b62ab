use uda_schedule::{assemble_schedule, build_schedule_tables, cancellation_notice, exam_schedule,
    timetable_table, todays_class_lines, ClassificationTag};

// 2024-01-01 00:00 in UTC+7 (a Monday), as seconds since the Unix epoch.
const MONDAY_2024_01_01: u64 = 1704042000;

fn timetable_page() -> String {
    [
        "<html><body>",
        "<table id=\"MainContent_GV2\">",
        "<tr><th>THỨ</th><th>BUỔI</th></tr>",
        "<tr><td> 2 </td><td>Sáng</td><td>1-3</td><td>703</td><td>Vật lý</td></tr>",
        "<tr><td>3</td><td>Chiều</td><td>4-6</td>",
        "<td>Online <a href=\"https://meet.example/y\">vào lớp</a></td>",
        "<td>Toán cao cấp</td></tr>",
        "<tr><td>9</td><td>Sáng</td><td>1-3</td><td>906</td><td>Hóa học</td></tr>",
        "</table>",
        "<table id=\"MainContent_Gtb\">",
        "<tr><td>21/10</td><td>Nghỉ môn Toán cao cấp hôm nay</td></tr>",
        "</table>",
        "<table id=\"MainContent_GV1\">",
        "<tr><td>Sáng</td><td>7</td><td>23/08/2025</td><td>1-3</td><td>Online</td>",
        "<td>Đa văn hoá</td><td>GV</td><td>7203</td></tr>",
        "</table>",
        "</body></html>",
    ]
    .concat()
}

fn exam_page() -> String {
    [
        "<html><body>",
        "<table id=\"MainContent_GV2\">",
        "<tr><td>1</td><td>Giải tích</td><td>3</td><td>01/01/2099</td></tr>",
        "<tr><td>1</td><td>Đại số</td><td>3</td><td>01/01/2000</td></tr>",
        "<tr><td>1</td><td>Xác suất</td><td>3</td><td>not-a-date</td></tr>",
        "<tr><td>1</td><td>Cơ học</td><td>2</td></tr>",
        "</table>",
        "</body></html>",
    ]
    .concat()
}

#[test]
fn full_pipeline_over_both_pages() {
    let r = assemble_schedule(&timetable_page(), &exam_page(), MONDAY_2024_01_01);

    // Timetable: three data rows survive, the header row has no data cells.
    assert!(r.timetable.region_found);
    assert_eq!(r.timetable.rows.len(), 3);
    assert_eq!(r.timetable.rows[0], vec!["2", "Sáng", "1-3", "703", "Vật lý"]);
    assert_eq!(r.timetable.rows[1][3], "link online (https://meet.example/y)");
    assert_eq!(r.timetable.rows[1][4], "Toán cao cấp");

    // Tags against the Monday reference: code 2 is today, 3 tomorrow, 9 unknown.
    assert_eq!(r.timetable.tags[0], ClassificationTag::Today);
    assert_eq!(r.timetable.tags[1], ClassificationTag::Tomorrow);
    assert_eq!(r.timetable.tags[2], ClassificationTag::Unclassified);

    // Cross-reference: only the second row's course is mentioned.
    assert_eq!(r.timetable.matched, vec![false, true, false]);

    // Cancellation notices.
    assert!(r.cancellation.region_found);
    assert_eq!(r.cancellation.rows.len(), 1);
    assert_eq!(r.cancellation.rows[0][1], "Nghỉ môn Toán cao cấp hôm nay");

    // Upcoming schedule: the plain-column rules leave "Online" untouched.
    assert!(r.upcoming.region_found);
    assert_eq!(r.upcoming.rows.len(), 1);
    assert_eq!(r.upcoming.rows[0][4], "Online");
    assert_eq!(r.upcoming.rows[0][2], "23/08/2025");

    // Exam schedule: the past date, the malformed date and the short row are
    // all excluded; the date column carries the emphasis mark.
    assert!(r.exam.region_found);
    assert_eq!(r.exam.rows.len(), 1);
    assert_eq!(r.exam.rows[0][1], "Giải tích");
    assert_eq!(r.exam.emphasize_col, Some(3));

    // Shape invariants: one tag and one mark per row.
    assert_eq!(r.timetable.tags.len(), r.timetable.rows.len());
    assert_eq!(r.timetable.matched.len(), r.timetable.rows.len());
    assert_eq!(r.exam.tags.len(), r.exam.rows.len());
}

#[test]
fn missing_region_is_flagged_as_absent() {
    let t = cancellation_notice("<html><body><p>trang trống</p></body></html>");
    assert!(!t.region_found);
    assert_eq!(t.rows.len(), 0);
    assert_eq!(t.header, vec!["Thời gian nghỉ", "Nội dung nghỉ"]);
}

#[test]
fn present_but_empty_region_is_distinct_from_absent() {
    let t = cancellation_notice(
        "<html><body><table id=\"MainContent_Gtb\"><tr><th>x</th></tr></table></body></html>",
    );
    assert!(t.region_found);
    assert_eq!(t.rows.len(), 0);
}

#[test]
fn timetable_headers_are_fixed() {
    let t = timetable_table(&timetable_page(), MONDAY_2024_01_01);
    assert_eq!(
        t.header,
        vec!["THỨ", "BUỔI", "TIẾT", "PHÒNG", "HỌC PHẦN", "GIẢNG VIÊN", "LỚP HỌC TẬP"]
    );
    assert!(t.matched.iter().all(|m| !m));
}

#[test]
fn todays_lines_join_the_tagged_rows() {
    let r = assemble_schedule(&timetable_page(), &exam_page(), MONDAY_2024_01_01);
    let lines = todays_class_lines(&r.timetable);
    assert_eq!(lines, vec!["2 ─ Sáng ─ 1-3 ─ 703 ─ Vật lý"]);
}

#[test]
fn page_bodies_entry_point_runs_whole_pipeline() {
    // Tags depend on the sampled clock, so only the clock-independent parts
    // are asserted here.
    let r = build_schedule_tables(&timetable_page(), &exam_page());
    assert!(r.timetable.region_found);
    assert_eq!(r.timetable.rows.len(), 3);
    assert_eq!(r.timetable.matched, vec![false, true, false]);
    assert_eq!(r.timetable.tags.len(), 3);
    assert!(r.cancellation.region_found);
    assert_eq!(r.cancellation.rows.len(), 1);
    assert_eq!(r.upcoming.rows.len(), 1);
    // The far-future exam survives any present-day clock; the past and the
    // malformed dates never do.
    assert_eq!(r.exam.rows.len(), 1);
    assert_eq!(r.exam.rows[0][3], "01/01/2099");
    assert_eq!(r.exam.emphasize_col, Some(3));
}

#[test]
fn exam_region_absent_yields_empty_flagged_table() {
    let t = exam_schedule("<html><body><p>trang trống</p></body></html>", MONDAY_2024_01_01);
    assert!(!t.region_found);
    assert_eq!(t.rows.len(), 0);
    assert_eq!(
        t.header,
        vec!["Học kỳ", "Tên học phần", "Số TC", "Ngày thi", "Xuất", "Thời gian thi", "Phòng", "Hình thức"]
    );
}

#[test]
fn exam_rows_on_sunday_reference_keep_today() {
    // 2024-01-07 00:00 in UTC+7 was a Sunday; an exam dated that day stays.
    let sunday: u64 = MONDAY_2024_01_01 + 6 * 86400;
    let page = [
        "<html><body><table id=\"MainContent_GV2\">",
        "<tr><td>1</td><td>Giải tích</td><td>3</td><td>07/01/2024</td></tr>",
        "<tr><td>1</td><td>Đại số</td><td>3</td><td>05/01/2024</td></tr>",
        "</table></body></html>",
    ]
    .concat();
    let t = exam_schedule(&page, sunday);
    assert_eq!(t.rows.len(), 1);
    assert_eq!(t.rows[0][3], "07/01/2024");
}
