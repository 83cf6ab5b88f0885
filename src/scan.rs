//! Extraction of the open task lines of one file's text.
use vstd::prelude::*;

use crate::task::{
    chars_of, classify_chars, has_done_box, has_open_box, is_open_task, is_space, spaces, LineKind,
};

verus! {

/// The lines of `s`: the pieces between newline characters, in order. Text
/// without a newline is one line; a trailing newline ends with an empty line.
pub open spec fn split_lines(s: Seq<char>) -> Seq<Seq<char>>
    decreases s.len(),
{
    if s.len() == 0 {
        seq![Seq::empty()]
    } else {
        let ls = split_lines(s.drop_last());
        if s.last() == '\n' {
            ls.push(Seq::empty())
        } else {
            ls.update(ls.len() - 1, ls.last().push(s.last()))
        }
    }
}

/// `l` with leading whitespace removed.
pub open spec fn trim_start(l: Seq<char>) -> Seq<char>
    decreases l.len(),
{
    if l.len() > 0 && is_space(l[0]) {
        trim_start(l.drop_first())
    } else {
        l
    }
}

/// `l` with trailing whitespace removed.
pub open spec fn trim_end(l: Seq<char>) -> Seq<char>
    decreases l.len(),
{
    if l.len() > 0 && is_space(l.last()) {
        trim_end(l.drop_last())
    } else {
        l
    }
}

/// `l` with leading and trailing whitespace removed.
pub open spec fn trim(l: Seq<char>) -> Seq<char> {
    trim_end(trim_start(l))
}

/// The texts of a sequence of strings.
pub open spec fn texts(v: Seq<String>) -> Seq<Seq<char>> {
    v.map_values(|s: String| s@)
}

/// The open tasks of a file's text: its open task lines, in order, trimmed.
pub open spec fn open_tasks(text: Seq<char>) -> Seq<Seq<char>> {
    split_lines(text).filter(|l: Seq<char>| is_open_task(l)).map_values(|l: Seq<char>| trim(l))
}

/// Relies on `str::trim`: leading and trailing Unicode whitespace removed.
#[verifier::external_body]
fn trimmed(s: &str) -> (r: String)
    ensures
        r@ == trim(s@),
{
    s.trim().to_string()
}

/// Relies on `String: FromIterator<&char>`: the characters in order.
#[verifier::external_body]
pub(crate) fn string_of_chars(v: &Vec<char>) -> (r: String)
    ensures
        r@ == v@,
{
    v.iter().collect::<String>()
}

proof fn lemma_split_nonempty(s: Seq<char>)
    ensures
        split_lines(s).len() >= 1,
    decreases s.len(),
{
    if s.len() > 0 {
        lemma_split_nonempty(s.drop_last());
    }
}

/// Pushes the trimmed line onto `res` when it is an open task.
fn take_line(res: &mut Vec<String>, cur: &Vec<char>, Ghost(done): Ghost<Seq<Seq<char>>>)
    requires
        texts(old(res)@) == done.filter(|l: Seq<char>| is_open_task(l)).map_values(
            |l: Seq<char>| trim(l),
        ),
    ensures
        texts(final(res)@) == done.push(cur@).filter(|l: Seq<char>| is_open_task(l)).map_values(
            |l: Seq<char>| trim(l),
        ),
{
    let ghost p = |l: Seq<char>| is_open_task(l);
    proof {
        done.lemma_filter_push(cur@, p);
    }
    if classify_chars(cur) == LineKind::Open {
        let s = string_of_chars(cur);
        let t = trimmed(s.as_str());
        let ghost before = res@;
        res.push(t);
        proof {
            assert(texts(res@) =~= texts(before).push(t@));
            assert(done.push(cur@).filter(p) == done.filter(p).push(cur@));
            assert(done.filter(p).push(cur@).map_values(|l: Seq<char>| trim(l)) =~= done.filter(
                p,
            ).map_values(|l: Seq<char>| trim(l)).push(trim(cur@)));
        }
    } else {
        proof {
            assert(done.push(cur@).filter(p) == done.filter(p));
        }
    }
}

/// The open tasks of one file's text, in the order they appear, each trimmed
/// of surrounding whitespace.
pub fn scan_text(text: &str) -> (r: Vec<String>)
    ensures
        texts(r@) == open_tasks(text@),
{
    let cs = chars_of(text);
    let mut cur: Vec<char> = Vec::new();
    let mut res: Vec<String> = Vec::new();
    let ghost done: Seq<Seq<char>> = Seq::empty();
    let mut i: usize = 0;
    proof {
        assert(cs@.take(0) =~= Seq::<char>::empty());
        assert(split_lines(cs@.take(0)) =~= done.push(cur@));
        assert(texts(res@) =~= done.filter(|l: Seq<char>| is_open_task(l)).map_values(
            |l: Seq<char>| trim(l),
        ));
    }
    while i < cs.len()
        invariant
            i <= cs.len(),
            split_lines(cs@.take(i as int)) == done.push(cur@),
            texts(res@) == done.filter(|l: Seq<char>| is_open_task(l)).map_values(
                |l: Seq<char>| trim(l),
            ),
        decreases cs.len() - i,
    {
        let c = cs[i];
        proof {
            assert(cs@.take(i + 1).drop_last() =~= cs@.take(i as int));
            assert(cs@.take(i + 1).last() == c);
            lemma_split_nonempty(cs@.take(i as int));
        }
        if c == '\n' {
            take_line(&mut res, &cur, Ghost(done));
            proof {
                done = done.push(cur@);
            }
            cur = Vec::new();
            assert(split_lines(cs@.take(i + 1)) =~= done.push(cur@));
        } else {
            cur.push(c);
            assert(split_lines(cs@.take(i + 1)) =~= done.push(cur@));
        }
        i = i + 1;
    }
    take_line(&mut res, &cur, Ghost(done));
    assert(cs@.take(i as int) =~= text@);
    res
}

/// The number of lines of `ls` that have the open shape and not the completed
/// one.
pub open spec fn count_open_lines(ls: Seq<Seq<char>>) -> nat
    decreases ls.len(),
{
    if ls.len() == 0 {
        0
    } else {
        count_open_lines(ls.drop_last()) + if has_open_box(ls.last()) && !has_done_box(ls.last()) {
            1nat
        } else {
            0nat
        }
    }
}

proof fn lemma_filter_count(ls: Seq<Seq<char>>)
    ensures
        ls.filter(|l: Seq<char>| is_open_task(l)).len() == count_open_lines(ls),
    decreases ls.len(),
{
    if ls.len() > 0 {
        let p = |l: Seq<char>| is_open_task(l);
        lemma_filter_count(ls.drop_last());
        assert(ls.drop_last().push(ls.last()) =~= ls);
        ls.drop_last().lemma_filter_push(ls.last(), p);
    }
}

/// As many tasks are reported for a text as it has lines with the open shape
/// and without the completed one.
pub proof fn lemma_reported_count(text: Seq<char>)
    ensures
        open_tasks(text).len() == count_open_lines(split_lines(text)),
{
    lemma_filter_count(split_lines(text));
}

/// Text without a newline is a single line.
pub proof fn lemma_one_line(s: Seq<char>)
    requires
        !s.contains('\n'),
    ensures
        split_lines(s) == seq![s],
    decreases s.len(),
{
    if s.len() > 0 {
        let init = s.drop_last();
        assert(!init.contains('\n')) by {
            if init.contains('\n') {
                let t = choose|t: int| 0 <= t < init.len() && init[t] == '\n';
                assert(s[t] == '\n');
            }
        }
        lemma_one_line(init);
        assert(s[s.len() - 1] != '\n');
        assert(init.push(s.last()) =~= s);
        assert(split_lines(s) =~= seq![s]);
    } else {
        assert(s =~= Seq::<char>::empty());
    }
}

/// The characters of a completed checkbox.
pub open spec fn done_box() -> Seq<char> {
    seq!['-', ' ', '[', 'x', ']']
}

/// The characters of an open checkbox.
pub open spec fn open_box() -> Seq<char> {
    seq!['-', ' ', '[', ' ', ']']
}

/// A line holding a completed checkbox is never reported, whatever stands
/// before or after the checkbox.
pub proof fn lemma_done_never_reported(pre: Seq<char>, post: Seq<char>)
    requires
        !(pre + done_box() + post).contains('\n'),
    ensures
        !is_open_task(pre + done_box() + post),
        open_tasks(pre + done_box() + post) == Seq::<Seq<char>>::empty(),
{
    let l = pre + done_box() + post;
    let i = pre.len() as int;
    assert(l[i] == '-' && l[i + 1] == ' ' && l[i + 2] == '[' && l[i + 3] == 'x' && l[i + 4]
        == ']');
    assert(spaces(l, i + 1, i + 2));
    assert(crate::task::done_box_at(l, i));
    assert(has_done_box(l));
    lemma_one_line(l);
    assert(Seq::<Seq<char>>::empty().push(l) =~= seq![l]);
    Seq::<Seq<char>>::empty().lemma_filter_push(l, |l: Seq<char>| is_open_task(l));
    assert(seq![l].filter(|l: Seq<char>| is_open_task(l)) =~= Seq::<Seq<char>>::empty());
    assert(open_tasks(l) =~= Seq::<Seq<char>>::empty());
}

/// A line holding an open checkbox and no completed one is reported once,
/// trimmed.
pub proof fn lemma_open_reported(pre: Seq<char>, post: Seq<char>)
    requires
        !(pre + open_box() + post).contains('\n'),
        !has_done_box(pre + open_box() + post),
    ensures
        is_open_task(pre + open_box() + post),
        open_tasks(pre + open_box() + post) == seq![trim(pre + open_box() + post)],
{
    let l = pre + open_box() + post;
    let i = pre.len() as int;
    assert(l[i] == '-' && l[i + 1] == ' ' && l[i + 2] == '[' && l[i + 3] == ' ' && l[i + 4]
        == ']');
    assert(spaces(l, i + 1, i + 2));
    assert(spaces(l, i + 3, i + 4));
    assert(crate::task::open_box_at(l, i));
    assert(has_open_box(l));
    lemma_one_line(l);
    assert(Seq::<Seq<char>>::empty().push(l) =~= seq![l]);
    Seq::<Seq<char>>::empty().lemma_filter_push(l, |l: Seq<char>| is_open_task(l));
    assert(seq![l].filter(|l: Seq<char>| is_open_task(l)) =~= seq![l]);
    assert(open_tasks(l) =~= seq![trim(l)]);
}

proof fn lemma_trim_start_spaces(w: Seq<char>, x: Seq<char>)
    requires
        spaces(w, 0, w.len() as int),
        x.len() > 0,
        !is_space(x[0]),
    ensures
        trim_start(w + x) == x,
    decreases w.len(),
{
    if w.len() == 0 {
        assert(w + x =~= x);
    } else {
        assert((w + x).drop_first() =~= w.drop_first() + x);
        assert(is_space(w[0]));
        lemma_trim_start_spaces(w.drop_first(), x);
    }
}

proof fn lemma_trim_end_spaces(x: Seq<char>, w: Seq<char>)
    requires
        spaces(w, 0, w.len() as int),
        x.len() > 0,
        !is_space(x.last()),
    ensures
        trim_end(x + w) == x,
    decreases w.len(),
{
    if w.len() == 0 {
        assert(x + w =~= x);
    } else {
        assert((x + w).drop_last() =~= x + w.drop_last());
        assert(is_space(w[w.len() - 1]));
        lemma_trim_end_spaces(x, w.drop_last());
    }
}

/// Whitespace around a line is removed by trimming: what is left starts and
/// ends with a character other than whitespace.
pub proof fn lemma_trim_surrounding(w1: Seq<char>, x: Seq<char>, w2: Seq<char>)
    requires
        spaces(w1, 0, w1.len() as int),
        spaces(w2, 0, w2.len() as int),
        x.len() > 0,
        !is_space(x[0]),
        !is_space(x.last()),
    ensures
        trim(w1 + x + w2) == x,
{
    assert(w1 + x + w2 =~= w1 + (x + w2));
    lemma_trim_start_spaces(w1, x + w2);
    lemma_trim_end_spaces(x, w2);
}

/// The line `- [ ] buy milk`, with any whitespace around it, is reported once,
/// as `- [ ] buy milk`.
pub proof fn lemma_buy_milk_reported(w1: Seq<char>, w2: Seq<char>)
    requires
        spaces(w1, 0, w1.len() as int),
        spaces(w2, 0, w2.len() as int),
        !w1.contains('\n'),
        !w2.contains('\n'),
    ensures
        open_tasks(w1 + "- [ ] buy milk"@ + w2) == seq!["- [ ] buy milk"@],
{
    reveal_strlit("- [ ] buy milk");
    reveal_strlit(" buy milk");
    let x = "- [ ] buy milk"@;
    let rest = " buy milk"@;
    let l = w1 + x + w2;
    let n = w1.len() as int;
    assert(x =~= open_box() + rest);
    assert(l =~= w1 + open_box() + (rest + w2));
    assert forall|t: int| 0 <= t < l.len() implies l[t] != '\n' by {
        if t < n {
            assert(l[t] == w1[t]);
        } else if t >= n + x.len() {
            assert(l[t] == w2[t - n - x.len()]);
        } else {
            assert(l[t] == x[t - n]);
        }
    }
    assert forall|i: int| !crate::task::done_box_at(l, i) by {
        if crate::task::done_box_at(l, i) {
            let j = choose|j: int|
                0 <= i < j && j + 2 < l.len() && l[i] == '-' && spaces(l, i + 1, j) && #[trigger] l[j]
                    == '[' && l[j + 1] == 'x' && l[j + 2] == ']';
            if j < n {
                assert(is_space(w1[j]));
            } else if j >= n + x.len() {
                assert(is_space(w2[j - n - x.len()]));
            } else {
                assert(x[j - n] == '[');
                assert(j - n == 2);
                assert(l[j + 1] == x[3]);
            }
        }
    }
    lemma_open_reported(w1, rest + w2);
    assert(x[0] == '-' && x[x.len() - 1] == 'k');
    lemma_trim_surrounding(w1, x, w2);
}

} // verus!
