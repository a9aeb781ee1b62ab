use uda_schedule::classify::classify_weekday;
use uda_schedule::config::UserConfig;
use uda_schedule::{find_matching_courses, is_class_today, str_contains, ClassificationTag, Quote};

#[test]
fn code_two_on_monday_is_today() {
    assert!(is_class_today("Mon", "2"));
    assert_eq!(classify_weekday("2", 0), ClassificationTag::Today);
}

#[test]
fn code_three_on_monday_is_tomorrow() {
    assert!(!is_class_today("Mon", "3"));
    assert_eq!(classify_weekday("3", 0), ClassificationTag::Tomorrow);
}

#[test]
fn code_eight_on_saturday_is_tomorrow() {
    assert!(is_class_today("Sat", "7"));
    assert_eq!(classify_weekday("8", 5), ClassificationTag::Tomorrow);
}

#[test]
fn sunday_wraps_to_monday() {
    assert_eq!(classify_weekday("2", 6), ClassificationTag::Tomorrow);
    assert_eq!(classify_weekday("8", 6), ClassificationTag::Today);
}

#[test]
fn unrecognized_codes_get_no_tag() {
    assert_eq!(classify_weekday("9", 0), ClassificationTag::Unclassified);
    assert_eq!(classify_weekday("1", 0), ClassificationTag::Unclassified);
    assert_eq!(classify_weekday("22", 0), ClassificationTag::Unclassified);
    assert_eq!(classify_weekday("", 0), ClassificationTag::Unclassified);
    assert!(!is_class_today("Mon", "9"));
    assert!(!is_class_today("Mon", ""));
}

#[test]
fn far_codes_are_neither_today_nor_tomorrow() {
    assert_eq!(classify_weekday("5", 0), ClassificationTag::Unclassified);
}

#[test]
fn all_codes_name_their_weekday() {
    let names = ["Mon", "Tue", "Wed", "Thu", "Fri", "Sat", "Sun"];
    let codes = ["2", "3", "4", "5", "6", "7", "8"];
    for i in 0..7 {
        for j in 0..7 {
            assert_eq!(is_class_today(names[i], codes[j]), i == j);
        }
    }
}

#[test]
fn substring_containment_is_case_sensitive() {
    assert!(str_contains("Lớp CS101 nghỉ ngày mai", "CS101"));
    assert!(!str_contains("Lớp cs101 nghỉ ngày mai", "CS101"));
    assert!(str_contains("abc", ""));
    assert!(!str_contains("ab", "abc"));
}

#[test]
fn matching_course_is_reported_with_one_based_position() {
    let timetable = vec![vec![
        "2".to_string(),
        "Sáng".to_string(),
        "1-3".to_string(),
        "703".to_string(),
        "CS101".to_string(),
    ]];
    let announcements = vec![vec![
        "20/10".to_string(),
        "Lớp CS101 nghỉ ngày mai".to_string(),
    ]];
    assert_eq!(find_matching_courses(&timetable, &announcements), vec![1]);
}

#[test]
fn unmentioned_course_yields_no_match() {
    let timetable = vec![vec![
        "2".to_string(),
        "Sáng".to_string(),
        "1-3".to_string(),
        "703".to_string(),
        "CS999".to_string(),
    ]];
    let announcements = vec![vec![
        "20/10".to_string(),
        "Lớp CS101 nghỉ ngày mai".to_string(),
    ]];
    assert_eq!(find_matching_courses(&timetable, &announcements), Vec::<usize>::new());
}

#[test]
fn three_rows_match_only_the_second() {
    let row = |course: &str| {
        vec![
            "2".to_string(),
            "Sáng".to_string(),
            "1-3".to_string(),
            "703".to_string(),
            course.to_string(),
        ]
    };
    let timetable = vec![row("Vật lý"), row("Toán cao cấp"), row("Hóa học")];
    let announcements = vec![vec![
        "21/10".to_string(),
        "Nghỉ môn Toán cao cấp hôm nay".to_string(),
    ]];
    assert_eq!(find_matching_courses(&timetable, &announcements), vec![2]);
}

#[test]
fn short_rows_never_match() {
    let timetable = vec![vec!["2".to_string(), "Sáng".to_string()]];
    let announcements = vec![vec!["Sáng".to_string()]];
    assert_eq!(find_matching_courses(&timetable, &announcements), Vec::<usize>::new());
}

#[test]
fn validate_reports_missing_credentials() {
    let both = UserConfig::new(Some("user".to_string()), Some("pass".to_string()));
    assert!(both.validate().is_ok());
    assert_eq!(both.get_username().unwrap(), "user");
    assert_eq!(both.get_password().unwrap(), "pass");

    let no_user = UserConfig::new(None, Some("pass".to_string()));
    assert_eq!(no_user.validate(), Err("Username not set"));
    assert!(no_user.get_username().is_none());

    let no_pass = UserConfig::new(Some("user".to_string()), None);
    assert_eq!(no_pass.validate(), Err("Password not set"));
    assert!(no_pass.get_password().is_none());

    let neither = UserConfig::new(None, None);
    assert_eq!(neither.validate(), Err("Username not set"));
}

#[test]
fn quote_carries_text_and_author() {
    let q = Quote { quote: "Talk is cheap".to_string(), author: "Linus".to_string() };
    assert_eq!(q.quote, "Talk is cheap");
    assert_eq!(q.author, "Linus");
}
