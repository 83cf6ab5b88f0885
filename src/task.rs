//! Classification of a single line of markdown as an open task, a completed
//! task, or neither.
use vstd::prelude::*;

verus! {

/// Unicode `White_Space`: the characters that `\s` matches and that trimming
/// removes.
pub open spec fn is_space(c: char) -> bool {
    let u = c as u32;
    ||| 0x9 <= u <= 0xd
    ||| u == 0x20
    ||| u == 0x85
    ||| u == 0xa0
    ||| u == 0x1680
    ||| 0x2000 <= u <= 0x200a
    ||| u == 0x2028
    ||| u == 0x2029
    ||| u == 0x202f
    ||| u == 0x205f
    ||| u == 0x3000
}

/// Every character of `l` in `[a, b)` is whitespace.
pub open spec fn spaces(l: Seq<char>, a: int, b: int) -> bool {
    forall|t: int| a <= t < b ==> is_space(#[trigger] l[t])
}

/// An open checkbox starts at `i`: `-`, whitespace, `[`, whitespace, `]`.
pub open spec fn open_box_at(l: Seq<char>, i: int) -> bool {
    exists|j: int, k: int|
        0 <= i < j < k < l.len() && l[i] == '-' && spaces(l, i + 1, j) && #[trigger] l[j] == '['
            && spaces(l, j + 1, k) && #[trigger] l[k] == ']'
}

/// A completed checkbox starts at `i`: `-`, whitespace, then `[x]`.
pub open spec fn done_box_at(l: Seq<char>, i: int) -> bool {
    exists|j: int|
        0 <= i < j && j + 2 < l.len() && l[i] == '-' && spaces(l, i + 1, j) && #[trigger] l[j]
            == '[' && l[j + 1] == 'x' && l[j + 2] == ']'
}

/// The line holds an open checkbox somewhere.
pub open spec fn has_open_box(l: Seq<char>) -> bool {
    exists|i: int| open_box_at(l, i)
}

/// The line holds a completed checkbox somewhere.
pub open spec fn has_done_box(l: Seq<char>) -> bool {
    exists|i: int| done_box_at(l, i)
}

/// A line is reported as an open task when it has the open shape and not the
/// completed one: a line with both counts as completed.
pub open spec fn is_open_task(l: Seq<char>) -> bool {
    has_open_box(l) && !has_done_box(l)
}

/// The kind of a single line.
#[derive(Clone, Copy, Debug, PartialEq, Eq, Structural)]
pub enum LineKind {
    Open,
    Completed,
    Plain,
}

/// The kind of a line: completed wins over open.
pub open spec fn kind_of(l: Seq<char>) -> LineKind {
    if has_done_box(l) {
        LineKind::Completed
    } else if has_open_box(l) {
        LineKind::Open
    } else {
        LineKind::Plain
    }
}

/// Whether `c` is Unicode whitespace.
pub fn is_space_char(c: char) -> (r: bool)
    ensures
        r == is_space(c),
{
    let u = c as u32;
    (0x9 <= u && u <= 0xd) || u == 0x20 || u == 0x85 || u == 0xa0 || u == 0x1680 || (0x2000 <= u
        && u <= 0x200a) || u == 0x2028 || u == 0x2029 || u == 0x202f || u == 0x205f || u == 0x3000
}

/// The first index at or after `a` that does not hold whitespace, or the
/// length of `l`.
fn skip_spaces(l: &Vec<char>, a: usize) -> (r: usize)
    requires
        a <= l.len(),
    ensures
        a <= r <= l.len(),
        spaces(l@, a as int, r as int),
        r < l.len() ==> !is_space(l@[r as int]),
{
    let mut r = a;
    while r < l.len() && is_space_char(l[r])
        invariant
            a <= r <= l.len(),
            spaces(l@, a as int, r as int),
        decreases l.len() - r,
    {
        r = r + 1;
    }
    r
}

proof fn lemma_run_unique(l: Seq<char>, a: int, r: int, j: int)
    requires
        a <= r <= l.len(),
        spaces(l, a, r),
        r < l.len() ==> !is_space(l[r]),
        a <= j < l.len(),
        spaces(l, a, j),
        !is_space(l[j]),
    ensures
        j == r,
{
    if j < r {
        assert(is_space(l[j]));
    } else if j > r {
        assert(is_space(l[r]));
    }
}

proof fn lemma_bracket_not_space()
    ensures
        !is_space('['),
        !is_space(']'),
{
}

fn open_box_starts(l: &Vec<char>, i: usize) -> (r: bool)
    requires
        i < l.len(),
    ensures
        r == open_box_at(l@, i as int),
{
    proof {
        lemma_bracket_not_space();
    }
    if l[i] != '-' {
        return false;
    }
    let j = skip_spaces(l, i + 1);
    if j >= l.len() || l[j] != '[' {
        proof {
            assert forall|j2: int, k2: int|
                !(0 <= i < j2 < k2 < l@.len() && l@[i as int] == '-' && spaces(l@, i + 1, j2)
                    && #[trigger] l@[j2] == '[' && spaces(l@, j2 + 1, k2) && #[trigger] l@[k2]
                    == ']') by {
                if 0 <= i < j2 < k2 < l@.len() && spaces(l@, i + 1, j2) && l@[j2] == '[' {
                    lemma_run_unique(l@, i + 1, j as int, j2);
                }
            }
        }
        return false;
    }
    let k = skip_spaces(l, j + 1);
    if k >= l.len() || l[k] != ']' {
        proof {
            assert forall|j2: int, k2: int|
                !(0 <= i < j2 < k2 < l@.len() && l@[i as int] == '-' && spaces(l@, i + 1, j2)
                    && #[trigger] l@[j2] == '[' && spaces(l@, j2 + 1, k2) && #[trigger] l@[k2]
                    == ']') by {
                if 0 <= i < j2 < k2 < l@.len() && spaces(l@, i + 1, j2) && l@[j2] == '['
                    && spaces(l@, j2 + 1, k2) && l@[k2] == ']' {
                    lemma_run_unique(l@, i + 1, j as int, j2);
                    lemma_run_unique(l@, j + 1, k as int, k2);
                }
            }
        }
        return false;
    }
    assert(l@[j as int] == '[' && l@[k as int] == ']');
    true
}

fn done_box_starts(l: &Vec<char>, i: usize) -> (r: bool)
    requires
        i < l.len(),
    ensures
        r == done_box_at(l@, i as int),
{
    proof {
        lemma_bracket_not_space();
    }
    if l[i] != '-' {
        return false;
    }
    let j = skip_spaces(l, i + 1);
    if j >= l.len() || l.len() - j <= 2 || l[j] != '[' || l[j + 1] != 'x' || l[j + 2] != ']' {
        proof {
            assert forall|j2: int|
                !(0 <= i < j2 && j2 + 2 < l@.len() && l@[i as int] == '-' && spaces(
                    l@,
                    i + 1,
                    j2,
                ) && #[trigger] l@[j2] == '[' && l@[j2 + 1] == 'x' && l@[j2 + 2] == ']') by {
                if 0 <= i < j2 && j2 + 2 < l@.len() && spaces(l@, i + 1, j2) && l@[j2] == '[' {
                    lemma_run_unique(l@, i + 1, j as int, j2);
                }
            }
        }
        return false;
    }
    assert(l@[j as int] == '[');
    true
}

/// Whether the line holds an open checkbox.
pub fn find_open_box(l: &Vec<char>) -> (r: bool)
    ensures
        r == has_open_box(l@),
{
    let mut i: usize = 0;
    while i < l.len()
        invariant
            i <= l.len(),
            forall|t: int| 0 <= t < i ==> !open_box_at(l@, t),
        decreases l.len() - i,
    {
        if open_box_starts(l, i) {
            return true;
        }
        i = i + 1;
    }
    proof {
        assert forall|t: int| !open_box_at(l@, t) by {
            if !(0 <= t < i) {
                assert(!open_box_at(l@, t));
            }
        }
    }
    false
}

/// Whether the line holds a completed checkbox.
pub fn find_done_box(l: &Vec<char>) -> (r: bool)
    ensures
        r == has_done_box(l@),
{
    let mut i: usize = 0;
    while i < l.len()
        invariant
            i <= l.len(),
            forall|t: int| 0 <= t < i ==> !done_box_at(l@, t),
        decreases l.len() - i,
    {
        if done_box_starts(l, i) {
            return true;
        }
        i = i + 1;
    }
    proof {
        assert forall|t: int| !done_box_at(l@, t) by {
            if !(0 <= t < i) {
                assert(!done_box_at(l@, t));
            }
        }
    }
    false
}

/// Classifies a line given as characters.
pub fn classify_chars(l: &Vec<char>) -> (r: LineKind)
    ensures
        r == kind_of(l@),
{
    if find_done_box(l) {
        LineKind::Completed
    } else if find_open_box(l) {
        LineKind::Open
    } else {
        LineKind::Plain
    }
}

/// Classifies one line of text.
pub fn classify_line(line: &str) -> (r: LineKind)
    ensures
        r == kind_of(line@),
{
    let l = chars_of(line);
    classify_chars(&l)
}

/// Whether one line of text is reported as an open task.
pub fn is_open_task_line(line: &str) -> (r: bool)
    ensures
        r == is_open_task(line@),
{
    let k = classify_line(line);
    k == LineKind::Open
}

/// Copies the characters of `s` into a vector.
pub fn chars_of(s: &str) -> (r: Vec<char>)
    ensures
        r@ == s@,
{
    let mut v: Vec<char> = Vec::new();
    for c in it: s.chars()
        invariant
            v@ == it.seq().take(it.index() as int),
    {
        v.push(c);
    }
    assert(v@ =~= s@);
    v
}

} // verus!
