//! The names of the existing project notes.
use vstd::prelude::*;

use crate::scan::texts;
use crate::task::chars_of;

verus! {

broadcast use vstd::seq_lib::group_to_multiset_ensures;

/// The name ends in `.md`.
pub open spec fn has_md_suffix(name: Seq<char>) -> bool {
    name.len() >= 3 && name[name.len() - 3] == '.' && name[name.len() - 2] == 'm' && name[name.len()
        - 1] == 'd'
}

/// The project names among file names, in order: each name that ends in
/// `.md`, without that suffix.
pub open spec fn project_stems(names: Seq<Seq<char>>) -> Seq<Seq<char>>
    decreases names.len(),
{
    if names.len() == 0 {
        Seq::empty()
    } else {
        let n = names.last();
        project_stems(names.drop_last()) + if has_md_suffix(n) {
            seq![n.take(n.len() - 3)]
        } else {
            Seq::empty()
        }
    }
}

/// `a` comes before `b` in lexicographic order of code points, which is the
/// byte order of their UTF-8 encodings.
pub open spec fn text_lt(a: Seq<char>, b: Seq<char>) -> bool {
    exists|k: int|
        0 <= k <= a.len() && k <= b.len() && #[trigger] a.take(k) == b.take(k) && ((k == a.len()
            && k < b.len()) || (k < a.len() && k < b.len() && (a[k] as u32) < (b[k] as u32)))
}

/// `a` equals `b` or comes before it.
pub open spec fn text_le(a: Seq<char>, b: Seq<char>) -> bool {
    a == b || text_lt(a, b)
}

/// Relies on `slice::sort_unstable` with `String`'s order, which compares the
/// bytes: the same strings, in ascending order.
#[verifier::external_body]
fn sort_names(v: &mut Vec<String>)
    ensures
        texts(final(v)@).to_multiset() == texts(old(v)@).to_multiset(),
        forall|i: int|
            0 <= i < final(v)@.len() - 1 ==> text_le(
                #[trigger] final(v)@[i]@,
                final(v)@[i + 1]@,
            ),
{
    v.sort_unstable();
}

/// The project name of a file, where its name ends in `.md`.
pub fn project_name_of(file_name: &str) -> (r: Option<String>)
    ensures
        has_md_suffix(file_name@) ==> (r matches Some(s) && s@ == file_name@.take(
            file_name@.len() - 3,
        )),
        !has_md_suffix(file_name@) ==> r is None,
{
    let cs = chars_of(file_name);
    let n = cs.len();
    if n >= 3 && cs[n - 3] == '.' && cs[n - 2] == 'm' && cs[n - 1] == 'd' {
        let stem = file_name.substring_char(0, n - 3);
        Some(String::from_str(stem))
    } else {
        None
    }
}

fn collect_stems(file_names: &Vec<String>) -> (r: Vec<String>)
    ensures
        texts(r@) == project_stems(texts(file_names@)),
{
    let mut r: Vec<String> = Vec::new();
    let mut i: usize = 0;
    while i < file_names.len()
        invariant
            i <= file_names.len(),
            texts(r@) == project_stems(texts(file_names@.take(i as int))),
        decreases file_names.len() - i,
    {
        let ghost before = r@;
        proof {
            assert(texts(file_names@.take(i + 1)).drop_last() =~= texts(
                file_names@.take(i as int),
            ));
            assert(texts(file_names@.take(i + 1)).last() == file_names@[i as int]@);
        }
        match project_name_of(file_names[i].as_str()) {
            Some(s) => {
                r.push(s);
                assert(texts(r@) =~= texts(before) + seq![s@]);
            },
            None => {
                assert(texts(r@) =~= texts(before) + Seq::<Seq<char>>::empty());
            },
        }
        i = i + 1;
    }
    assert(file_names@.take(i as int) =~= file_names@);
    r
}

proof fn lemma_push_contains(s: Seq<Seq<char>>, a: Seq<char>, x: Seq<char>)
    ensures
        s.push(a).contains(x) <==> (s.contains(x) || x == a),
{
    if s.contains(x) {
        let t = choose|t: int| 0 <= t < s.len() && s[t] == x;
        assert(s.push(a)[t] == x);
    }
    if x == a {
        assert(s.push(a)[s.len() as int] == x);
    }
    if s.push(a).contains(x) {
        let t = choose|t: int| 0 <= t < s.push(a).len() && s.push(a)[t] == x;
        if t < s.len() {
            assert(s[t] == x);
        }
    }
}

/// The project names among `file_names`, each once, in ascending order.
pub fn project_names(file_names: &Vec<String>) -> (r: Vec<String>)
    ensures
        forall|i: int| 0 <= i < r@.len() - 1 ==> text_lt(#[trigger] r@[i]@, r@[i + 1]@),
        forall|x: Seq<char>|
            texts(r@).contains(x) <==> project_stems(texts(file_names@)).contains(x),
{
    let mut v = collect_stems(file_names);
    let ghost stems = texts(v@);
    sort_names(&mut v);
    let mut r: Vec<String> = Vec::new();
    let mut i: usize = 0;
    while i < v.len()
        invariant
            i <= v.len(),
            forall|t: int| 0 <= t < v@.len() - 1 ==> text_le(#[trigger] v@[t]@, v@[t + 1]@),
            forall|t: int| 0 <= t < r@.len() - 1 ==> text_lt(#[trigger] r@[t]@, r@[t + 1]@),
            i > 0 <==> r.len() > 0,
            i > 0 ==> r@[r.len() - 1]@ == v@[i - 1]@,
            forall|x: Seq<char>|
                texts(r@).contains(x) <==> texts(v@.take(i as int)).contains(x),
        decreases v.len() - i,
    {
        let ghost before = r@;
        proof {
            assert(texts(v@.take(i + 1)) =~= texts(v@.take(i as int)).push(v@[i as int]@));
        }
        let keep = if r.len() == 0 {
            true
        } else {
            let last = r.len() - 1;
            !(r[last] == v[i])
        };
        if keep {
            let s = v[i].clone();
            r.push(s);
            proof {
                assert(texts(r@) =~= texts(before).push(s@));
                if i > 0 {
                    assert(text_le(v@[i - 1]@, v@[i as int]@));
                }
                assert forall|x: Seq<char>|
                    texts(r@).contains(x) <==> texts(v@.take(i + 1)).contains(x) by {
                    lemma_push_contains(texts(before), s@, x);
                    lemma_push_contains(texts(v@.take(i as int)), s@, x);
                }
            }
        } else {
            proof {
                assert(texts(before).contains(v@[i as int]@)) by {
                    assert(texts(before)[before.len() - 1] == v@[i as int]@);
                }
                assert forall|x: Seq<char>|
                    texts(r@).contains(x) <==> texts(v@.take(i + 1)).contains(x) by {
                    lemma_push_contains(texts(v@.take(i as int)), v@[i as int]@, x);
                }
            }
        }
        i = i + 1;
    }
    proof {
        assert(v@.take(i as int) =~= v@);
        assert forall|x: Seq<char>|
            texts(v@).contains(x) <==> stems.contains(x) by {
            assert(texts(v@).contains(x) <==> texts(v@).to_multiset().count(x) > 0);
            assert(stems.contains(x) <==> stems.to_multiset().count(x) > 0);
        }
    }
    r
}

} // verus!
