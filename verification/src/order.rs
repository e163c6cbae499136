//! The order of names by their characters, and sorting by it.
use vstd::prelude::*;
use crate::text::{chars_of, string_of};

verus! {

/// Whether `a[i..]` comes before `b[i..]` or equals it, where the first
/// character that differs decides and a text comes before what it begins.
pub open spec fn before_from(a: Seq<char>, b: Seq<char>, i: int) -> bool
    decreases a.len() - i,
{
    if i < 0 || i >= a.len() {
        true
    } else if i >= b.len() {
        false
    } else if a[i] != b[i] {
        a[i] < b[i]
    } else {
        before_from(a, b, i + 1)
    }
}

/// Whether `a` comes before `b` or equals it.
pub open spec fn before(a: Seq<char>, b: Seq<char>) -> bool {
    before_from(a, b, 0)
}

/// Whether each text of `s` comes before those after it, or equals them.
pub open spec fn sorted(s: Seq<Seq<char>>) -> bool {
    forall|i: int, j: int| 0 <= i < j < s.len() ==> before(#[trigger] s[i], #[trigger] s[j])
}

/// Of two texts one comes before the other.
pub proof fn before_is_total(a: Seq<char>, b: Seq<char>, i: int)
    requires
        0 <= i,
    ensures
        before_from(a, b, i) || before_from(b, a, i),
    decreases a.len() - i,
{
    if i < a.len() && i < b.len() && a[i] == b[i] {
        before_is_total(a, b, i + 1);
    }
}

/// What comes before a text comes before all that the text comes before.
pub proof fn before_is_transitive(a: Seq<char>, b: Seq<char>, c: Seq<char>, i: int)
    requires
        0 <= i,
        before_from(a, b, i),
        before_from(b, c, i),
    ensures
        before_from(a, c, i),
    decreases a.len() - i,
{
    if i < a.len() && a[i] == b[i] && b[i] == c[i] {
        before_is_transitive(a, b, c, i + 1);
    }
}

fn precedes(a: &Vec<char>, b: &Vec<char>) -> (r: bool)
    ensures
        r == before(a@, b@),
{
    let mut i: usize = 0;
    while i < a.len()
        invariant
            i <= a.len(),
            before(a@, b@) == before_from(a@, b@, i as int),
        decreases a.len() - i,
    {
        if i >= b.len() {
            return false;
        }
        if a[i] != b[i] {
            return a[i] < b[i];
        }
        i = i + 1;
    }
    true
}

/// The texts that `keys` hold.
spec fn texts(keys: Seq<Vec<char>>) -> Seq<Seq<char>> {
    Seq::new(keys.len(), |i: int| keys[i]@)
}

proof fn insert_to_multiset<A>(s: Seq<A>, p: int, x: A)
    requires
        0 <= p <= s.len(),
    ensures
        s.insert(p, x).to_multiset() == s.to_multiset().insert(x),
{
    broadcast use vstd::seq_lib::group_to_multiset_ensures;

    let t = s.insert(p, x);
    assert(t[p] == x);
}

/// The texts of `v` in order: the same texts, each as often as in `v`.
pub fn sort(v: &Vec<String>) -> (r: Vec<String>)
    ensures
        sorted(r.deep_view()),
        r.deep_view().to_multiset() == v.deep_view().to_multiset(),
{
    broadcast use vstd::seq_lib::group_to_multiset_ensures;

    let mut keys: Vec<Vec<char>> = Vec::new();
    let mut k: usize = 0;
    while k < v.len()
        invariant
            k <= v.len(),
            sorted(texts(keys@)),
            texts(keys@).to_multiset() == v.deep_view().take(k as int).to_multiset(),
        decreases v.len() - k,
    {
        let x = chars_of(v[k].as_str());
        let mut p: usize = 0;
        while p < keys.len() && precedes(&keys[p], &x)
            invariant
                p <= keys.len(),
                forall|q: int| 0 <= q < p ==> before(#[trigger] texts(keys@)[q], x@),
            decreases keys.len() - p,
        {
            p = p + 1;
        }
        let ghost old_keys = texts(keys@);
        keys.insert(p, x);
        proof {
            let new_keys = texts(keys@);
            assert(new_keys == old_keys.insert(p as int, x@));
            insert_to_multiset(old_keys, p as int, x@);
            assert(v.deep_view().take(k + 1) == v.deep_view().take(k as int).push(x@));
            vstd::seq_lib::to_multiset_build(v.deep_view().take(k as int), x@);
            assert forall|i: int, j: int| 0 <= i < j < new_keys.len() implies before(
                #[trigger] new_keys[i],
                #[trigger] new_keys[j],
            ) by {
                if i == p {
                    before_is_total(old_keys[p as int], x@, 0);
                    if j - 1 > p {
                        before_is_transitive(x@, old_keys[p as int], old_keys[j - 1], 0);
                    }
                }
            }
        }
        k = k + 1;
    }
    assert(v.deep_view().take(v.len() as int) == v.deep_view());
    let mut r: Vec<String> = Vec::new();
    let mut i: usize = 0;
    while i < keys.len()
        invariant
            i <= keys.len(),
            r.deep_view() == texts(keys@).take(i as int),
        decreases keys.len() - i,
    {
        let key = &keys[i];
        assert(key@.subrange(0, key.len() as int) == key@);
        r.push(string_of(key, 0, key.len()));
        assert(texts(keys@).take(i + 1) == texts(keys@).take(i as int).push(key@));
        i = i + 1;
    }
    assert(texts(keys@).take(keys.len() as int) == texts(keys@));
    r
}

} // verus!
