use uda_schedule::cells::{extract_row, extract_table, normalize_field};
use uda_schedule::{RawCell, TableKind};

fn cell(text: &str) -> RawCell {
    RawCell { text: text.to_string(), link: None }
}

#[test]
fn plain_column_is_trimmed() {
    let c = cell("  Toán cao cấp  ");
    assert_eq!(normalize_field(&c, false), "Toán cao cấp");
}

#[test]
fn plain_column_keeps_internal_newline() {
    let c = cell(" dòng một\ndòng hai ");
    assert_eq!(normalize_field(&c, false), "dòng một\ndòng hai");
}

#[test]
fn room_column_truncates_at_first_newline() {
    let c = cell("Phòng 703\nghi chú thêm");
    assert_eq!(normalize_field(&c, true), "Phòng 703");
}

#[test]
fn room_column_without_newline_is_trimmed_only() {
    let c = cell("  906  ");
    assert_eq!(normalize_field(&c, true), "906");
}

#[test]
fn online_room_with_link_becomes_marker() {
    let c = RawCell {
        text: "Online".to_string(),
        link: Some("https://meet.example/abc".to_string()),
    };
    assert_eq!(normalize_field(&c, true), "link online (https://meet.example/abc)");
}

#[test]
fn online_room_without_link_uses_placeholder() {
    let c = cell("Học Online qua Teams");
    assert_eq!(normalize_field(&c, true), "link online (link unavailable)");
}

#[test]
fn online_detection_ignores_ascii_case() {
    let c = RawCell { text: "  ONLINE  ".to_string(), link: Some("x".to_string()) };
    assert_eq!(normalize_field(&c, true), "link online (x)");
}

#[test]
fn online_in_plain_column_is_kept_verbatim() {
    let c = cell("Thi online tại nhà");
    assert_eq!(normalize_field(&c, false), "Thi online tại nhà");
}

#[test]
fn room_normalization_is_idempotent_for_plain_rooms() {
    let c = cell("  Phòng 703 \n dãy B ");
    let once = normalize_field(&c, true);
    let again = normalize_field(&RawCell { text: once.clone(), link: None }, true);
    assert_eq!(again, once);
}

#[test]
fn extract_row_keeps_length_and_order() {
    let cells = vec![cell(" 2 "), cell(" Sáng "), cell("1-3"), cell("703"), cell(" CS101 ")];
    let row = extract_row(&cells, TableKind::Timetable).unwrap();
    assert_eq!(row.len(), 5);
    assert_eq!(row, vec!["2", "Sáng", "1-3", "703", "CS101"]);
}

#[test]
fn extract_row_drops_short_timetable_rows() {
    let cells = vec![cell("chỉ một ô")];
    assert!(extract_row(&cells, TableKind::Timetable).is_none());
}

#[test]
fn extract_row_drops_short_cancellation_rows() {
    let cells = vec![cell("một")];
    assert!(extract_row(&cells, TableKind::Cancellation).is_none());
    let two = vec![cell("một"), cell("hai")];
    assert!(extract_row(&two, TableKind::Cancellation).is_some());
}

#[test]
fn extract_row_gates_exam_and_upcoming_rows() {
    let three = vec![cell("a"), cell("b"), cell("c")];
    assert!(extract_row(&three, TableKind::Exam).is_none());
    let four = vec![cell("a"), cell("b"), cell("c"), cell("d")];
    assert!(extract_row(&four, TableKind::Exam).is_some());
    let empty: Vec<RawCell> = Vec::new();
    assert!(extract_row(&empty, TableKind::Upcoming).is_none());
    let one = vec![cell("a")];
    assert!(extract_row(&one, TableKind::Upcoming).is_some());
}

#[test]
fn extract_table_drops_only_short_rows_and_keeps_order() {
    let rows = vec![
        vec![cell("hàng đầu")],
        vec![cell(" 2 "), cell("Sáng")],
        vec![cell(" 3 "), cell("Chiều")],
    ];
    let t = extract_table(&rows, TableKind::Timetable);
    assert_eq!(t.len(), 2);
    assert_eq!(t[0], vec!["2", "Sáng"]);
    assert_eq!(t[1], vec!["3", "Chiều"]);
}

#[test]
fn room_column_applies_only_at_index_three() {
    let cells = vec![
        cell("2"),
        cell("Sáng"),
        cell("1-3"),
        cell("Online\nghi chú"),
        cell("Môn online\nhai dòng"),
    ];
    let row = extract_row(&cells, TableKind::Timetable).unwrap();
    assert_eq!(row[3], "link online (link unavailable)");
    assert_eq!(row[4], "Môn online\nhai dòng");
}
