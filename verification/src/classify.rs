//! Temporal classification of timetable rows: decoding the source system's
//! weekday codes ("2" = Monday .. "8" = Sunday) and tagging rows as today or
//! tomorrow relative to a reference weekday.

use vstd::prelude::*;
use vstd::string::StrSliceExecFns;
use crate::text::str_eq;

verus! {

/// The temporal tag a timetable row carries for presentation; it never
/// changes field values.
#[derive(Clone, Copy, PartialEq, Eq, Structural, Debug)]
pub enum ClassificationTag {
    Unclassified,
    Today,
    Tomorrow,
}

/// The weekday a timetable code denotes: the one-character codes "2" through
/// "8" mean Monday (0) through Sunday (6); anything else is unrecognized.
pub open spec fn weekday_code_index(s: Seq<char>) -> Option<int> {
    if s.len() == 1 && 0x32 <= s[0] as u32 && s[0] as u32 <= 0x38 {
        Some(s[0] as u32 - 0x32)
    } else {
        None
    }
}

/// The weekday after `idx`, wrapping Sunday around to Monday.
pub open spec fn next_weekday(idx: int) -> int {
    if idx == 6 {
        0
    } else {
        idx + 1
    }
}

/// What weekday classification yields for a row's code against the reference
/// weekday: today takes priority over tomorrow; an unrecognized code gets no
/// tag.
pub open spec fn classify_weekday_spec(code: Seq<char>, today: int) -> ClassificationTag {
    match weekday_code_index(code) {
        Some(i) => if i == today {
            ClassificationTag::Today
        } else if i == next_weekday(today) {
            ClassificationTag::Tomorrow
        } else {
            ClassificationTag::Unclassified
        },
        None => ClassificationTag::Unclassified,
    }
}

/// The English three-letter name of weekday `idx` (0 = Monday).
pub open spec fn weekday_name(idx: int) -> Seq<char> {
    if idx == 0 {
        "Mon"@
    } else if idx == 1 {
        "Tue"@
    } else if idx == 2 {
        "Wed"@
    } else if idx == 3 {
        "Thu"@
    } else if idx == 4 {
        "Fri"@
    } else if idx == 5 {
        "Sat"@
    } else {
        "Sun"@
    }
}

/// Whether a timetable weekday code denotes the named weekday.
pub open spec fn code_names_day(code: Seq<char>, day_name: Seq<char>) -> bool {
    match weekday_code_index(code) {
        Some(i) => weekday_name(i) == day_name,
        None => false,
    }
}

/// Decodes a weekday code string to its weekday index, 0 = Monday.
pub fn weekday_code_of(code: &str) -> (r: Option<u64>)
    ensures
        r is Some <==> weekday_code_index(code@) is Some,
        r is Some ==> r->0 == weekday_code_index(code@)->0 && r->0 < 7,
{
    let n = code.unicode_len();
    if n != 1 {
        return None;
    }
    let u = code.get_char(0) as u32;
    if 0x32 <= u && u <= 0x38 {
        Some((u - 0x32) as u64)
    } else {
        None
    }
}

/// The English three-letter name of weekday `idx` (0 = Monday).
pub fn weekday_name_of(idx: u64) -> (name: &'static str)
    requires
        idx < 7,
    ensures
        name@ == weekday_name(idx as int),
{
    if idx == 0 {
        "Mon"
    } else if idx == 1 {
        "Tue"
    } else if idx == 2 {
        "Wed"
    } else if idx == 3 {
        "Thu"
    } else if idx == 4 {
        "Fri"
    } else if idx == 5 {
        "Sat"
    } else {
        "Sun"
    }
}

/// Whether the row's weekday code denotes the current weekday, given by its
/// English three-letter name.
pub fn is_class_today(current_weekday: &str, timetable_weekday_num: &str) -> (r: bool)
    ensures
        r == code_names_day(timetable_weekday_num@, current_weekday@),
{
    match weekday_code_of(timetable_weekday_num) {
        Some(i) => {
            let name = weekday_name_of(i);
            str_eq(name, current_weekday)
        },
        None => false,
    }
}

/// Law: a row is tagged `Today` exactly when its weekday code names the
/// reference day's weekday.
pub proof fn lemma_today_tag_names_day(code: Seq<char>, today: int)
    requires
        0 <= today < 7,
    ensures
        (classify_weekday_spec(code, today) == ClassificationTag::Today) <==> code_names_day(
            code,
            weekday_name(today),
        ),
{
    reveal_strlit("Mon");
    reveal_strlit("Tue");
    reveal_strlit("Wed");
    reveal_strlit("Thu");
    reveal_strlit("Fri");
    reveal_strlit("Sat");
    reveal_strlit("Sun");
    if weekday_code_index(code) is Some {
        let i = weekday_code_index(code)->0;
        if i != today {
            assert(weekday_name(i)[0] != weekday_name(today)[0] || weekday_name(i)[1]
                != weekday_name(today)[1] || weekday_name(i)[2] != weekday_name(today)[2]);
        }
    }
}

/// Tags a row's weekday code against the reference weekday: `Today` when they
/// agree, `Tomorrow` for the weekday after (wrapping Sunday to Monday), no
/// tag otherwise or for an unrecognized code.
pub fn classify_weekday(code: &str, today: u64) -> (t: ClassificationTag)
    requires
        today < 7,
    ensures
        t == classify_weekday_spec(code@, today as int),
{
    match weekday_code_of(code) {
        Some(i) => {
            if i == today {
                ClassificationTag::Today
            } else if (today == 6 && i == 0) || (today < 6 && i == today + 1) {
                ClassificationTag::Tomorrow
            } else {
                ClassificationTag::Unclassified
            }
        },
        None => ClassificationTag::Unclassified,
    }
}

} // verus!
