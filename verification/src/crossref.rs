//! Cross-referencing: which timetable rows a cancellation announcement
//! affects. A row is matched when its course identifier (column 4) occurs as
//! a substring of some field of some announcement row.

use vstd::prelude::*;
use crate::text::{contains_seq, str_contains};

verus! {

/// Some field of the announcement row mentions `course` as a substring.
pub open spec fn row_mentions(arow: Seq<Seq<char>>, course: Seq<char>) -> bool {
    exists|j: int| 0 <= j < arow.len() && contains_seq(#[trigger] arow[j], course)
}

/// Some announcement row mentions `course`.
pub open spec fn course_mentioned(ann: Seq<Seq<Seq<char>>>, course: Seq<char>) -> bool {
    exists|k: int| 0 <= k < ann.len() && row_mentions(#[trigger] ann[k], course)
}

/// The timetable row carries a course identifier (it has a column 4) that
/// some announcement row mentions.
pub open spec fn row_is_matched(trow: Seq<Seq<char>>, ann: Seq<Seq<Seq<char>>>) -> bool {
    trow.len() >= 5 && course_mentioned(ann, trow[4])
}

/// The matched positions (1-based, reflecting each row's place below the
/// rendered header) of the timetable rows, in increasing order.
pub open spec fn matched_positions(tt: Seq<Seq<Seq<char>>>, ann: Seq<Seq<Seq<char>>>) -> Seq<int>
    decreases tt.len(),
{
    if tt.len() == 0 {
        Seq::empty()
    } else {
        let front = matched_positions(tt.drop_last(), ann);
        if row_is_matched(tt.last(), ann) {
            front.push(tt.len() as int)
        } else {
            front
        }
    }
}

/// Whether any field of any announcement row contains `course`.
fn course_in_announcements(course: &String, announcements: &[Vec<String>]) -> (b: bool)
    ensures
        b == course_mentioned(announcements.deep_view(), course@),
{
    let n = announcements.len();
    let mut k: usize = 0;
    while k < n
        invariant
            n == announcements@.len(),
            k <= n,
            forall|x: int|
                0 <= x < k ==> !row_mentions(
                    #[trigger] announcements.deep_view()[x],
                    course@,
                ),
        decreases n - k,
    {
        let row = &announcements[k];
        let m = row.len();
        let mut j: usize = 0;
        while j < m
            invariant
                n == announcements@.len(),
                k < n,
                m == row@.len(),
                row == announcements@[k as int],
                j <= m,
                forall|y: int|
                    0 <= y < j ==> !contains_seq(
                        #[trigger] announcements.deep_view()[k as int][y],
                        course@,
                    ),
            decreases m - j,
        {
            if str_contains(row[j].as_str(), course.as_str()) {
                proof {
                    assert(announcements.deep_view()[k as int][j as int] == row@[j as int]@);
                    assert(row_mentions(announcements.deep_view()[k as int], course@));
                }
                return true;
            }
            proof {
                assert(announcements.deep_view()[k as int][j as int] == row@[j as int]@);
            }
            j += 1;
        }
        proof {
            assert(!row_mentions(announcements.deep_view()[k as int], course@));
        }
        k += 1;
    }
    false
}

/// Whether some announcement row mentions this timetable row's course
/// identifier; a row without a column 4 never matches.
pub fn row_matches(trow: &Vec<String>, announcements: &[Vec<String>]) -> (b: bool)
    ensures
        b == row_is_matched(trow.deep_view(), announcements.deep_view()),
{
    if trow.len() < 5 {
        return false;
    }
    proof {
        assert(trow.deep_view()[4] == trow@[4]@);
    }
    course_in_announcements(&trow[4], announcements)
}

/// The 1-based positions of the timetable rows whose course identifier some
/// announcement row mentions, in increasing order.
pub fn find_matching_courses(
    timetable_content: &[Vec<String>],
    announcement_content: &[Vec<String>],
) -> (r: Vec<usize>)
    ensures
        r@.map_values(|v: usize| v as int) == matched_positions(
            timetable_content.deep_view(),
            announcement_content.deep_view(),
        ),
{
    let n = timetable_content.len();
    let mut out: Vec<usize> = Vec::new();
    let mut i: usize = 0;
    while i < n
        invariant
            n == timetable_content@.len(),
            i <= n,
            out@.map_values(|v: usize| v as int) =~= matched_positions(
                timetable_content.deep_view().take(i as int),
                announcement_content.deep_view(),
            ),
        decreases n - i,
    {
        proof {
            let pre = timetable_content.deep_view().take(i + 1);
            assert(pre.drop_last() =~= timetable_content.deep_view().take(i as int));
            assert(pre.last() == timetable_content.deep_view()[i as int]);
        }
        if row_matches(&timetable_content[i], announcement_content) {
            out.push(i + 1);
        }
        i += 1;
    }
    proof {
        assert(timetable_content.deep_view().take(n as int) =~= timetable_content.deep_view());
    }
    out
}

/// Law: position `p` is listed among the matched positions exactly when `p`
/// is a valid 1-based row position and row `p - 1` is matched.
pub proof fn lemma_matched_positions_iff(
    tt: Seq<Seq<Seq<char>>>,
    ann: Seq<Seq<Seq<char>>>,
    p: int,
)
    ensures
        matched_positions(tt, ann).contains(p) <==> (1 <= p <= tt.len() && row_is_matched(
            tt[p - 1],
            ann,
        )),
    decreases tt.len(),
{
    if tt.len() > 0 {
        lemma_matched_positions_iff(tt.drop_last(), ann, p);
        let front = matched_positions(tt.drop_last(), ann);
        if row_is_matched(tt.last(), ann) {
            let whole = front.push(tt.len() as int);
            assert(whole.contains(p) <==> (front.contains(p) || p == tt.len())) by {
                if whole.contains(p) {
                    let x = choose|x: int| 0 <= x < whole.len() && whole[x] == p;
                    if x < front.len() {
                        assert(front[x] == p);
                    }
                }
                if front.contains(p) {
                    let x = choose|x: int| 0 <= x < front.len() && front[x] == p;
                    assert(whole[x] == p);
                }
                if p == tt.len() {
                    assert(whole[front.len() as int] == p);
                }
            }
        }
    }
}

} // verus!
