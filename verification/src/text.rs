//! Character-sequence utilities: whitespace trimming, first-line truncation,
//! substring search, and the case-insensitive "online" marker test.

use vstd::prelude::*;
use vstd::string::StrSliceExecFns;

verus! {

/// A character with the Unicode `White_Space` property: what trimming removes.
pub open spec fn is_wspace(c: char) -> bool {
    let u = c as u32;
    ||| u == 0x20
    ||| (0x09 <= u && u <= 0x0D)
    ||| u == 0x85
    ||| u == 0xA0
    ||| u == 0x1680
    ||| (0x2000 <= u && u <= 0x200A)
    ||| u == 0x2028
    ||| u == 0x2029
    ||| u == 0x202F
    ||| u == 0x205F
    ||| u == 0x3000
}

/// `s` without its leading whitespace.
pub open spec fn trim_front(s: Seq<char>) -> Seq<char>
    decreases s.len(),
{
    if s.len() > 0 && is_wspace(s[0]) {
        trim_front(s.drop_first())
    } else {
        s
    }
}

/// `s` without its trailing whitespace.
pub open spec fn trim_back(s: Seq<char>) -> Seq<char>
    decreases s.len(),
{
    if s.len() > 0 && is_wspace(s[s.len() - 1]) {
        trim_back(s.drop_last())
    } else {
        s
    }
}

/// `s` without leading and trailing whitespace: the meaning of field cleanup.
pub open spec fn trimmed(s: Seq<char>) -> Seq<char> {
    trim_back(trim_front(s))
}

/// The prefix of `s` before its first newline (all of `s` if none).
pub open spec fn line_prefix(s: Seq<char>) -> Seq<char>
    decreases s.len(),
{
    if s.len() == 0 || s[0] == '\n' {
        Seq::empty()
    } else {
        seq![s[0]] + line_prefix(s.drop_first())
    }
}

/// `needle` occurs in `hay` starting at position `i`.
pub open spec fn matches_at(hay: Seq<char>, needle: Seq<char>, i: int) -> bool {
    &&& 0 <= i
    &&& i + needle.len() <= hay.len()
    &&& hay.subrange(i, i + needle.len()) == needle
}

/// `needle` occurs somewhere in `hay` (contiguous, case-sensitive).
pub open spec fn contains_seq(hay: Seq<char>, needle: Seq<char>) -> bool {
    exists|i: int| matches_at(hay, needle, i)
}

/// `a` equals the lowercase ASCII letter `p`, ignoring ASCII case.
pub open spec fn ci_eq(a: char, p: char) -> bool {
    a == p || (a as u32) + 32 == p as u32
}

/// The word "online" occurs in `s` at position `i`, ignoring ASCII case.
pub open spec fn online_at(s: Seq<char>, i: int) -> bool {
    &&& 0 <= i
    &&& i + 6 <= s.len()
    &&& ci_eq(s[i], 'o')
    &&& ci_eq(s[i + 1], 'n')
    &&& ci_eq(s[i + 2], 'l')
    &&& ci_eq(s[i + 3], 'i')
    &&& ci_eq(s[i + 4], 'n')
    &&& ci_eq(s[i + 5], 'e')
}

/// `s` mentions "online" (ignoring ASCII case) somewhere.
pub open spec fn text_marks_online(s: Seq<char>) -> bool {
    exists|i: int| online_at(s, i)
}

/// Whether `c` has the Unicode `White_Space` property.
pub fn is_space_char(c: char) -> (b: bool)
    ensures
        b == is_wspace(c),
{
    let u = c as u32;
    u == 0x20 || (0x09 <= u && u <= 0x0D) || u == 0x85 || u == 0xA0 || u == 0x1680 || (0x2000 <= u
        && u <= 0x200A) || u == 0x2028 || u == 0x2029 || u == 0x202F || u == 0x205F || u == 0x3000
}

/// The characters of `s`, in order.
pub fn chars_of(s: &str) -> (v: Vec<char>)
    ensures
        v@ == s@,
{
    let n = s.unicode_len();
    let mut v: Vec<char> = Vec::new();
    let mut i: usize = 0;
    while i < n
        invariant
            n == s@.len(),
            i <= n,
            v@ == s@.take(i as int),
        decreases n - i,
    {
        let c = s.get_char(i);
        v.push(c);
        proof {
            assert(s@.take(i + 1) =~= s@.take(i as int).push(s@[i as int]));
        }
        i += 1;
    }
    proof {
        assert(s@.take(n as int) =~= s@);
    }
    v
}

proof fn lemma_trim_front_skip(s: Seq<char>, i: int)
    requires
        0 <= i <= s.len(),
        forall|k: int| 0 <= k < i ==> is_wspace(s[k]),
        i == s.len() || !is_wspace(s[i]),
    ensures
        trim_front(s) == s.skip(i),
    decreases i,
{
    if i == 0 {
        assert(s.skip(0) =~= s);
    } else {
        let t = s.drop_first();
        assert(forall|k: int| 0 <= k < i - 1 ==> is_wspace(t[k]));
        lemma_trim_front_skip(t, i - 1);
        assert(t.skip(i - 1) =~= s.skip(i));
    }
}

proof fn lemma_trim_back_take(s: Seq<char>, j: int)
    requires
        0 <= j <= s.len(),
        forall|k: int| j <= k < s.len() ==> is_wspace(s[k]),
        j == 0 || !is_wspace(s[j - 1]),
    ensures
        trim_back(s) == s.take(j),
    decreases s.len() - j,
{
    if j == s.len() {
        assert(s.take(j) =~= s);
    } else {
        let t = s.drop_last();
        assert(is_wspace(s[s.len() - 1]));
        assert(forall|k: int| j <= k < t.len() ==> is_wspace(t[k]));
        lemma_trim_back_take(t, j);
        assert(t.take(j) =~= s.take(j));
    }
}

proof fn lemma_trim_front_exists_skip(s: Seq<char>)
    ensures
        exists|k: int| 0 <= k <= s.len() && trim_front(s) == s.skip(k),
    decreases s.len(),
{
    if s.len() > 0 && is_wspace(s[0]) {
        let t = s.drop_first();
        lemma_trim_front_exists_skip(t);
        let k = choose|k: int| 0 <= k <= t.len() && trim_front(t) == t.skip(k);
        assert(t.skip(k) =~= s.skip(k + 1));
    } else {
        assert(s.skip(0) =~= s);
    }
}

proof fn lemma_trim_back_exists_take(s: Seq<char>)
    ensures
        exists|j: int| 0 <= j <= s.len() && trim_back(s) == s.take(j),
    decreases s.len(),
{
    if s.len() > 0 && is_wspace(s[s.len() - 1]) {
        let t = s.drop_last();
        lemma_trim_back_exists_take(t);
        let j = choose|j: int| 0 <= j <= t.len() && trim_back(t) == t.take(j);
        assert(t.take(j) =~= s.take(j));
    } else {
        assert(s.take(s.len() as int) =~= s);
    }
}

proof fn lemma_trim_front_head(s: Seq<char>)
    ensures
        trim_front(s).len() > 0 ==> !is_wspace(trim_front(s)[0]),
    decreases s.len(),
{
    if s.len() > 0 && is_wspace(s[0]) {
        lemma_trim_front_head(s.drop_first());
    }
}

proof fn lemma_trim_back_last(s: Seq<char>)
    ensures
        trim_back(s).len() > 0 ==> !is_wspace(trim_back(s)[trim_back(s).len() - 1]),
    decreases s.len(),
{
    if s.len() > 0 && is_wspace(s[s.len() - 1]) {
        lemma_trim_back_last(s.drop_last());
    }
}

/// Trimming a string that is already trimmed changes nothing.
pub proof fn lemma_trimmed_idempotent(s: Seq<char>)
    ensures
        trimmed(trimmed(s)) == trimmed(s),
{
    let f = trim_front(s);
    let t = trim_back(f);
    if t.len() == 0 {
        assert(trim_front(t) == t);
        assert(trim_back(t) == t);
    } else {
        lemma_trim_back_exists_take(f);
        let j = choose|j: int| 0 <= j <= f.len() && trim_back(f) == f.take(j);
        lemma_trim_front_head(s);
        assert(t[0] == f[0]);
        assert(!is_wspace(t[0]));
        assert(trim_front(t) == t);
        lemma_trim_back_last(f);
        assert(trim_back(t) == t);
    }
}

/// `t` occurs inside `s` at offset `k`, character by character.
pub open spec fn infix_at(s: Seq<char>, t: Seq<char>, k: int) -> bool {
    &&& 0 <= k
    &&& k + t.len() <= s.len()
    &&& forall|x: int| 0 <= x < t.len() ==> #[trigger] t[x] == s[x + k]
}

/// The trimmed form of `s` sits inside `s`: character `x` of `trimmed(s)` is
/// character `x + k` of `s` for one fixed offset `k`.
pub proof fn lemma_trimmed_infix(s: Seq<char>)
    ensures
        exists|k: int| infix_at(s, trimmed(s), k),
{
    let f = trim_front(s);
    lemma_trim_front_exists_skip(s);
    let k = choose|k: int| 0 <= k <= s.len() && trim_front(s) == s.skip(k);
    lemma_trim_back_exists_take(f);
    let j = choose|j: int| 0 <= j <= f.len() && trim_back(f) == f.take(j);
    assert(forall|x: int| 0 <= x < trimmed(s).len() ==> #[trigger] trimmed(s)[x] == s[x + k]);
    assert(infix_at(s, trimmed(s), k));
}

/// A string without a newline is its own first line.
pub proof fn lemma_line_prefix_all(s: Seq<char>)
    requires
        forall|k: int| 0 <= k < s.len() ==> s[k] != '\n',
    ensures
        line_prefix(s) == s,
{
    lemma_line_prefix_take(s, s.len() as int);
    assert(s.take(s.len() as int) =~= s);
}

/// `s` without leading and trailing whitespace, as `str::trim` cleans a field.
pub fn trim_str<'a>(s: &'a str) -> (r: &'a str)
    ensures
        r@ == trimmed(s@),
{
    let n = s.unicode_len();
    let mut lo: usize = 0;
    while lo < n && is_space_char(s.get_char(lo))
        invariant
            n == s@.len(),
            lo <= n,
            forall|k: int| 0 <= k < lo ==> is_wspace(s@[k]),
        decreases n - lo,
    {
        lo += 1;
    }
    proof {
        lemma_trim_front_skip(s@, lo as int);
    }
    if lo == n {
        let r = s.substring_char(0, 0);
        proof {
            assert(s@.skip(n as int) =~= Seq::<char>::empty());
            assert(s@.subrange(0, 0) =~= Seq::<char>::empty());
        }
        return r;
    }
    let mut hi: usize = n;
    while hi > lo && is_space_char(s.get_char(hi - 1))
        invariant
            n == s@.len(),
            lo <= hi <= n,
            forall|k: int| hi <= k < n ==> is_wspace(s@[k]),
        decreases hi,
    {
        hi -= 1;
    }
    proof {
        if hi == lo {
            assert(is_wspace(s@[lo as int]));
            assert(false);
        }
        let t = s@.skip(lo as int);
        assert(forall|k: int| hi - lo <= k < t.len() ==> is_wspace(t[k]));
        assert(!is_wspace(t[hi - lo - 1]));
        lemma_trim_back_take(t, hi - lo);
        assert(t.take(hi - lo) =~= s@.subrange(lo as int, hi as int));
    }
    s.substring_char(lo, hi)
}

proof fn lemma_line_prefix_take(s: Seq<char>, i: int)
    requires
        0 <= i <= s.len(),
        forall|k: int| 0 <= k < i ==> s[k] != '\n',
        i == s.len() || s[i] == '\n',
    ensures
        line_prefix(s) == s.take(i),
    decreases i,
{
    if i == 0 {
        assert(s.take(0) =~= Seq::<char>::empty());
    } else {
        let t = s.drop_first();
        assert(forall|k: int| 0 <= k < i - 1 ==> t[k] != '\n');
        lemma_line_prefix_take(t, i - 1);
        assert(seq![s[0]] + t.take(i - 1) =~= s.take(i));
    }
}

/// The prefix of `s` before its first newline.
pub fn line_prefix_str<'a>(s: &'a str) -> (r: &'a str)
    ensures
        r@ == line_prefix(s@),
{
    let n = s.unicode_len();
    let mut i: usize = 0;
    while i < n && s.get_char(i) != '\n'
        invariant
            n == s@.len(),
            i <= n,
            forall|k: int| 0 <= k < i ==> s@[k] != '\n',
        decreases n - i,
    {
        i += 1;
    }
    proof {
        lemma_line_prefix_take(s@, i as int);
        assert(s@.take(i as int) =~= s@.subrange(0, i as int));
    }
    s.substring_char(0, i)
}

/// Whether `needle` occurs in `hay` starting at index `i`.
fn match_at_idx(hay: &Vec<char>, needle: &Vec<char>, i: usize) -> (b: bool)
    requires
        i + needle@.len() <= hay@.len(),
    ensures
        b == matches_at(hay@, needle@, i as int),
{
    let m = needle.len();
    let hl = hay.len();
    let mut j: usize = 0;
    while j < m
        invariant
            i + m <= hl,
            hl == hay@.len(),
            j <= m,
            m == needle@.len(),
            forall|k: int| 0 <= k < j ==> hay@[i + k] == needle@[k],
        decreases m - j,
    {
        if hay[i + j] != needle[j] {
            proof {
                assert(hay@.subrange(i as int, i + m as int)[j as int] == hay@[i + j]);
            }
            return false;
        }
        j += 1;
    }
    proof {
        assert(hay@.subrange(i as int, i + m as int) =~= needle@);
    }
    true
}

/// Whether `needle` occurs contiguously in `hay` (case-sensitive), the sense
/// in which an announcement mentions a course name.
pub fn str_contains(hay: &str, needle: &str) -> (b: bool)
    ensures
        b == contains_seq(hay@, needle@),
{
    let h = chars_of(hay);
    let nd = chars_of(needle);
    let hl = h.len();
    let nl = nd.len();
    if nl == 0 {
        proof {
            assert(hay@.subrange(0, 0) =~= needle@);
            assert(matches_at(hay@, needle@, 0));
        }
        return true;
    }
    if nl > hl {
        proof {
            assert(forall|k: int| !matches_at(hay@, needle@, k));
        }
        return false;
    }
    let mut i: usize = 0;
    while i <= hl - nl
        invariant
            h@ == hay@,
            nd@ == needle@,
            hl == hay@.len(),
            nl == needle@.len(),
            1 <= nl <= hl,
            i <= hl - nl + 1,
            forall|k: int| 0 <= k < i ==> !matches_at(hay@, needle@, k),
        decreases hl - nl + 1 - i,
    {
        if match_at_idx(&h, &nd, i) {
            proof {
                assert(matches_at(hay@, needle@, i as int));
            }
            return true;
        }
        i += 1;
    }
    proof {
        assert(forall|k: int| k > hl - nl ==> !matches_at(hay@, needle@, k));
        assert(forall|k: int| !matches_at(hay@, needle@, k));
    }
    false
}

/// Whether two strings hold the same characters.
pub fn str_eq(a: &str, b: &str) -> (r: bool)
    ensures
        r == (a@ == b@),
{
    let va = chars_of(a);
    let vb = chars_of(b);
    let n = va.len();
    if n != vb.len() {
        return false;
    }
    let mut i: usize = 0;
    while i < n
        invariant
            va@ == a@,
            vb@ == b@,
            n == a@.len(),
            n == b@.len(),
            i <= n,
            forall|k: int| 0 <= k < i ==> a@[k] == b@[k],
        decreases n - i,
    {
        if va[i] != vb[i] {
            return false;
        }
        i += 1;
    }
    proof {
        assert(a@ =~= b@);
    }
    true
}

/// Whether `a` equals lowercase ASCII `p` ignoring ASCII case.
fn ci_eq_char(a: char, p: char) -> (b: bool)
    ensures
        b == ci_eq(a, p),
{
    a == p || (a as u32) as u64 + 32 == (p as u32) as u64
}

/// Whether `s` mentions "online", ignoring ASCII case: the rule that turns a
/// room field into a link marker.
pub fn marks_online(s: &Vec<char>) -> (b: bool)
    ensures
        b == text_marks_online(s@),
{
    let n = s.len();
    if n < 6 {
        proof {
            assert(forall|k: int| !online_at(s@, k));
        }
        return false;
    }
    let mut i: usize = 0;
    while i <= n - 6
        invariant
            n == s@.len(),
            6 <= n,
            i <= n - 6 + 1,
            forall|k: int| 0 <= k < i ==> !online_at(s@, k),
        decreases n - 6 + 1 - i,
    {
        let hit = ci_eq_char(s[i], 'o') && ci_eq_char(s[i + 1], 'n') && ci_eq_char(s[i + 2], 'l')
            && ci_eq_char(s[i + 3], 'i') && ci_eq_char(s[i + 4], 'n') && ci_eq_char(s[i + 5], 'e');
        if hit {
            proof {
                assert(online_at(s@, i as int));
            }
            return true;
        }
        i += 1;
    }
    proof {
        assert(forall|k: int| k > n - 6 ==> !online_at(s@, k));
        assert(forall|k: int| !online_at(s@, k));
    }
    false
}

} // verus!
