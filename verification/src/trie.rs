//! A prefix tree over names, kept as a table of nodes.
use vstd::prelude::*;
use crate::text::{chars_of, string_of};

verus! {

/// One node of the tree: whether the characters that lead to it spell a
/// stored name, and where each further character leads.
#[derive(Clone)]
struct Node {
    is_member: bool,
    members: Vec<(char, usize)>,
}

/// A set of names that can be asked for every name with a given prefix.
///
/// The nodes stand in one table and point to each other by index; node 0
/// is the root, which stands for the empty prefix.
#[derive(Clone)]
pub struct Trie {
    nodes: Vec<Node>,
    /// The characters that lead from the root to each node.
    paths: Ghost<Seq<Seq<char>>>,
    /// The node above each node but the root, and the place of the pointer
    /// in it.
    up: Ghost<Seq<(int, int)>>,
}

impl View for Trie {
    type V = Set<Seq<char>>;

    /// The names stored in the tree.
    closed spec fn view(&self) -> Set<Seq<char>> {
        Set::new(|w: Seq<char>| self.spells(w))
    }
}

impl Trie {
    spec fn len(&self) -> int {
        self.nodes@.len() as int
    }

    spec fn path(&self, i: int) -> Seq<char> {
        self.paths@[i]
    }

    spec fn edge(&self, i: int, e: int) -> (char, usize) {
        self.nodes@[i].members@[e]
    }

    spec fn fanout(&self, i: int) -> int {
        self.nodes@[i].members@.len() as int
    }

    /// Whether some node that is marked as a name is reached by `w`.
    spec fn spells(&self, w: Seq<char>) -> bool {
        exists|k: int| 0 <= k < self.len() && self.nodes@[k].is_member && #[trigger] self.path(k) == w
    }

    /// The invariant of the table: pointers lead to later nodes and add one
    /// character to the path, no node has two pointers for one character,
    /// every node but the root is pointed to, and no two nodes have the
    /// same path.
    pub closed spec fn wf(&self) -> bool {
        &&& self.len() >= 1
        &&& self.paths@.len() == self.len()
        &&& self.up@.len() == self.len()
        &&& self.path(0) == Seq::<char>::empty()
        &&& forall|i: int, e: int|
            0 <= i < self.len() && 0 <= e < self.fanout(i) ==> {
                let (c, j) = #[trigger] self.edge(i, e);
                i < j < self.len() && self.path(j as int) == self.path(i).push(c)
            }
        &&& forall|i: int, e: int, f: int|
            0 <= i < self.len() && 0 <= e < f < self.fanout(i) ==> (#[trigger] self.edge(i, e)).0
                != (#[trigger] self.edge(i, f)).0
        &&& forall|j: int|
            0 < j < self.len() ==> {
                let (i, e) = #[trigger] self.up@[j];
                0 <= i < j && 0 <= e < self.fanout(i) && self.edge(i, e).1 == j
            }
        &&& forall|i: int, j: int|
            0 <= i < j < self.len() ==> #[trigger] self.path(i) != #[trigger] self.path(j)
    }

    /// An empty tree.
    pub fn new() -> (t: Trie)
        ensures
            t.wf(),
            t@ == Set::<Seq<char>>::empty(),
    {
        let mut nodes: Vec<Node> = Vec::new();
        nodes.push(Node { is_member: false, members: Vec::new() });
        let paths: Ghost<Seq<Seq<char>>> = Ghost(Seq::<Seq<char>>::empty().push(Seq::<char>::empty()));
        let up: Ghost<Seq<(int, int)>> = Ghost(Seq::<(int, int)>::empty().push((0int, 0int)));
        let t = Trie { nodes, paths, up };
        t
    }

    /// The node that the pointer for `c` in node `i` leads to.
    fn child(&self, i: usize, c: char) -> (r: Option<usize>)
        requires
            self.wf(),
            i < self.len(),
        ensures
            match r {
                Some(j) => i < j < self.len() && self.path(j as int) == self.path(i as int).push(c),
                None => forall|k: int| 0 <= k < self.len() ==> self.path(k) != self.path(i as int).push(c),
            },
    {
        let n = self.nodes[i].members.len();
        let mut e: usize = 0;
        while e < n
            invariant
                self.wf(),
                i < self.len(),
                n == self.fanout(i as int),
                e <= n,
                forall|f: int| 0 <= f < e ==> (#[trigger] self.edge(i as int, f)).0 != c,
            decreases n - e,
        {
            let (key, j) = self.nodes[i].members[e];
            assert(self.edge(i as int, e as int) == (key, j));
            if key == c {
                return Some(j);
            }
            e = e + 1;
        }
        proof {
            self.no_pointer_no_path(i as int, c);
        }
        None
    }

    /// Where node `i` has no pointer for `c`, no node is reached by the
    /// path of `i` followed by `c`.
    proof fn no_pointer_no_path(&self, i: int, c: char)
        requires
            self.wf(),
            0 <= i < self.len(),
            forall|f: int| 0 <= f < self.fanout(i) ==> (#[trigger] self.edge(i, f)).0 != c,
        ensures
            forall|k: int| 0 <= k < self.len() ==> self.path(k) != self.path(i).push(c),
    {
        assert forall|k: int| 0 <= k < self.len() implies self.path(k) != self.path(i).push(c) by {
            if self.path(k) == self.path(i).push(c) {
                self.pointer_above(k, i, c);
            }
        }
    }

    /// A node whose path is that of `i` followed by `c` is pointed to from
    /// `i`, under `c`.
    proof fn pointer_above(&self, k: int, i: int, c: char)
        requires
            self.wf(),
            0 <= k < self.len(),
            0 <= i < self.len(),
            self.path(k) == self.path(i).push(c),
        ensures
            exists|f: int| 0 <= f < self.fanout(i) && #[trigger] self.edge(i, f) == (c, k as usize),
    {
        let (p, f) = self.up@[k];
        let key = self.edge(p, f).0;
        assert(self.path(p) == self.path(k).drop_last());
        assert(self.path(i) == self.path(k).drop_last());
        assert(key == self.path(k).last());
    }

    /// Every prefix of the path of a node is the path of a node.
    proof fn prefix_is_path(&self, k: int, m: int) -> (a: int)
        requires
            self.wf(),
            0 <= k < self.len(),
            0 <= m <= self.path(k).len(),
        ensures
            0 <= a < self.len(),
            self.path(a) == self.path(k).take(m),
        decreases k,
    {
        if m == self.path(k).len() {
            k
        } else {
            let (p, f) = self.up@[k];
            assert(self.path(k) == self.path(p).push(self.edge(p, f).0));
            self.prefix_is_path(p, m)
        }
    }

    /// Whether `after` is `self` with one more node, which hangs below node
    /// `i` under `c` and is no name.
    spec fn grown(&self, after: Trie, i: int, c: char) -> bool {
        let j = self.len();
        &&& after.len() == j + 1
        &&& !after.nodes@[j].is_member
        &&& after.fanout(j) == 0
        &&& after.nodes@[i].is_member == self.nodes@[i].is_member
        &&& after.nodes@[i].members@ == self.nodes@[i].members@.push((c, j as usize))
        &&& forall|a: int| 0 <= a < j && a != i ==> after.nodes@[a] == self.nodes@[a]
        &&& after.paths@ == self.paths@.push(self.path(i).push(c))
        &&& after.up@ == self.up@.push((i, self.fanout(i)))
    }

    /// A node that is hung below `i`, under a character for which `i` had
    /// no pointer, keeps the table in order and the names as they were.
    proof fn grown_keeps_names(&self, after: Trie, i: int, c: char)
        requires
            self.wf(),
            0 <= i < self.len(),
            self.len() < usize::MAX,
            forall|k: int| 0 <= k < self.len() ==> self.path(k) != self.path(i).push(c),
            self.grown(after, i, c),
        ensures
            after.wf(),
            after@ == self@,
    {
        let j = self.len();
        let slot = self.fanout(i);
        assert forall|a: int, e: int| 0 <= a < after.len() && 0 <= e < after.fanout(a) implies {
            let (key, b) = #[trigger] after.edge(a, e);
            a < b < after.len() && after.path(b as int) == after.path(a).push(key)
        } by {
            if a < j && !(a == i && e == slot) {
                assert(after.edge(a, e) == self.edge(a, e));
            }
        }
        assert forall|a: int, e: int, f: int|
            0 <= a < after.len() && 0 <= e < f < after.fanout(a) implies (#[trigger] after.edge(
            a,
            e,
        )).0 != (#[trigger] after.edge(a, f)).0 by {
            assert(after.edge(a, e) == self.edge(a, e));
            if !(a == i && f == slot) {
                assert(after.edge(a, f) == self.edge(a, f));
            }
        }
        assert forall|b: int| 0 < b < after.len() implies {
            let (a, e) = #[trigger] after.up@[b];
            0 <= a < b && 0 <= e < after.fanout(a) && after.edge(a, e).1 == b
        } by {
            if b < j {
                let (a, e) = self.up@[b];
                assert(after.edge(a, e) == self.edge(a, e));
            }
        }
        assert forall|a: int, b: int| 0 <= a < b < after.len() implies #[trigger] after.path(a)
            != #[trigger] after.path(b) by {
            assert(after.path(a) == self.path(a));
            if b < j {
                assert(after.path(b) == self.path(b));
            }
        }
        assert forall|u: Seq<char>| after.spells(u) == self.spells(u) by {
            if after.spells(u) {
                let k = choose|k: int|
                    0 <= k < after.len() && after.nodes@[k].is_member && #[trigger] after.path(k) == u;
                assert(self.nodes@[k].is_member && self.path(k) == u);
            }
            if self.spells(u) {
                let k = choose|k: int|
                    0 <= k < self.len() && self.nodes@[k].is_member && #[trigger] self.path(k) == u;
                assert(after.nodes@[k].is_member && after.path(k) == u);
            }
        }
        assert(after@ =~= self@);
    }

    /// Whether `after` is `self` with node `i` marked as a name.
    spec fn marked(&self, after: Trie, i: int) -> bool {
        &&& after.len() == self.len()
        &&& after.nodes@[i].is_member
        &&& after.nodes@[i].members == self.nodes@[i].members
        &&& forall|a: int| 0 <= a < self.len() && a != i ==> after.nodes@[a] == self.nodes@[a]
        &&& after.paths == self.paths
        &&& after.up == self.up
    }

    /// Marking node `i` adds its path to the names, and nothing else.
    proof fn marked_adds_path(&self, after: Trie, i: int)
        requires
            self.wf(),
            0 <= i < self.len(),
            self.marked(after, i),
        ensures
            after.wf(),
            after@ == self@.insert(self.path(i)),
    {
        assert forall|a: int, e: int|
            0 <= a < after.len() && 0 <= e < after.fanout(a) implies #[trigger] after.edge(a, e)
            == self.edge(a, e) by {}
        assert forall|a: int, b: int| 0 <= a < b < after.len() implies #[trigger] after.path(a)
            != #[trigger] after.path(b) by {
            assert(self.path(a) != self.path(b));
        }
        assert forall|u: Seq<char>| after.spells(u) == (self.spells(u) || u == self.path(i)) by {
            if after.spells(u) {
                let k = choose|k: int|
                    0 <= k < after.len() && after.nodes@[k].is_member && #[trigger] after.path(k) == u;
                if k != i {
                    assert(self.nodes@[k].is_member && self.path(k) == u);
                }
            }
            if self.spells(u) {
                let k = choose|k: int|
                    0 <= k < self.len() && self.nodes@[k].is_member && #[trigger] self.path(k) == u;
                assert(after.nodes@[k].is_member && after.path(k) == u);
            }
            if u == self.path(i) {
                assert(after.nodes@[i].is_member && after.path(i) == u);
            }
        }
        assert(after@ =~= self@.insert(self.path(i)));
    }

    /// Adds the name `s`.
    pub fn add(&mut self, s: &str)
        requires
            old(self).wf(),
        ensures
            final(self).wf(),
            final(self)@ == old(self)@.insert(s@),
    {
        let w = chars_of(s);
        let mut i: usize = 0;
        let mut d: usize = 0;
        while d < w.len()
            invariant
                self.wf(),
                w@ == s@,
                d <= w.len(),
                i < self.len(),
                self.path(i as int) == w@.take(d as int),
                self@ == old(self)@,
            decreases w.len() - d,
        {
            let c = w[d];
            assert(w@.take(d + 1) == w@.take(d as int).push(c));
            match self.child(i, c) {
                Some(j) => {
                    i = j;
                },
                None => {
                    let j = self.nodes.len();
                    let ghost before = *self;
                    self.nodes.push(Node { is_member: false, members: Vec::new() });
                    self.nodes[i].members.push((c, j));
                    proof {
                        self.paths@ = before.paths@.push(before.path(i as int).push(c));
                        self.up@ = before.up@.push((i as int, before.fanout(i as int)));
                        assert(self.nodes.len() <= usize::MAX);
                        before.grown_keeps_names(*self, i as int, c);
                    }
                    i = j;
                },
            }
            d = d + 1;
        }
        let ghost before = *self;
        self.nodes[i].is_member = true;
        proof {
            assert(w@.take(w.len() as int) == w@);
            before.marked_adds_path(*self, i as int);
        }
    }

    /// Whether `w` is a stored name that passes through node `i`; the path
    /// of `i` itself counts only where `own` is set.
    spec fn under(&self, i: int, own: bool, w: Seq<char>) -> bool {
        self.spells(w) && self.path(i).is_prefix_of(w) && (own || w != self.path(i))
    }

    /// Whether `w` is the path of `i`, where that is a name and `own` is
    /// set, or a stored name that passes through one of the first `e`
    /// nodes that `i` points to.
    spec fn under_first(&self, i: int, own: bool, e: int, w: Seq<char>) -> bool {
        ||| own && self.nodes@[i].is_member && w == self.path(i)
        ||| exists|f: int| 0 <= f < e && self.under(#[trigger] self.edge(i, f).1 as int, true, w)
    }

    /// Whether `r` lists, each once, the names that pass through `i`.
    spec fn lists(&self, r: Seq<Seq<char>>, i: int, own: bool) -> bool {
        r.no_duplicates() && forall|w: Seq<char>| r.contains(w) <==> self.under(i, own, w)
    }

    /// A name that passes through `i` is its own path or passes through a
    /// node that `i` points to, and the other way round.
    proof fn under_is_under_all(&self, i: int, own: bool, w: Seq<char>)
        requires
            self.wf(),
            0 <= i < self.len(),
        ensures
            self.under(i, own, w) <==> self.under_first(i, own, self.fanout(i), w),
    {
        if self.under(i, own, w) && w != self.path(i) {
            // The node of `w` lies below `i`: its path goes on past that of `i`, and the
            // node that the next character leads to is pointed to from `i`.
            let k = choose|k: int|
                0 <= k < self.len() && self.nodes@[k].is_member && #[trigger] self.path(k) == w;
            let m = self.path(i).len() + 1;
            assert(self.path(i).len() < w.len()) by {
                assert(w.subrange(0, w.len() as int) == w);
            }
            let a = self.prefix_is_path(k, m as int);
            let c = w[m - 1];
            assert(w.take(m as int) == self.path(i).push(c));
            self.pointer_above(a, i, c);
            let f = choose|f: int|
                0 <= f < self.fanout(i) && #[trigger] self.edge(i, f) == (c, a as usize);
            assert(self.under(self.edge(i, f).1 as int, true, w));
        }
        if self.under_first(i, own, self.fanout(i), w) && !(own && self.nodes@[i].is_member && w
            == self.path(i)) {
            let f = choose|f: int|
                0 <= f < self.fanout(i) && self.under(#[trigger] self.edge(i, f).1 as int, true, w);
            let (c, j) = self.edge(i, f);
            assert(self.path(j as int) == self.path(i).push(c));
        }
    }

    /// The names below two pointers of one node differ.
    proof fn branches_differ(&self, i: int, e: int, f: int, u: Seq<char>, w: Seq<char>)
        requires
            self.wf(),
            0 <= i < self.len(),
            0 <= e < f < self.fanout(i),
            self.under(self.edge(i, e).1 as int, true, u),
            self.under(self.edge(i, f).1 as int, true, w),
        ensures
            u != w,
    {
        let (c, j) = self.edge(i, e);
        let (d, k) = self.edge(i, f);
        let n = self.path(i).len() as int;
        assert(u[n] == self.path(j as int)[n] && self.path(j as int)[n] == c);
        assert(w[n] == self.path(k as int)[n] && self.path(k as int)[n] == d);
    }

    /// The names that pass through node `i`, which `path` leads to.
    fn collect(&self, i: usize, own: bool, path: &mut Vec<char>) -> (r: Vec<String>)
        requires
            self.wf(),
            i < self.len(),
            old(path)@ == self.path(i as int),
        ensures
            final(path)@ == old(path)@,
            self.lists(r.deep_view(), i as int, own),
        decreases self.len() - i,
    {
        let mut r: Vec<String> = Vec::new();
        if own && self.nodes[i].is_member {
            assert(path@.subrange(0, path.len() as int) == path@);
            r.push(string_of(path, 0, path.len()));
        }
        let n = self.nodes[i].members.len();
        let mut e: usize = 0;
        assert forall|w: Seq<char>| r.deep_view().contains(w) <==> self.under_first(
            i as int,
            own,
            0,
            w,
        ) by {
            if own && self.nodes@[i as int].is_member {
                assert(r.deep_view()[0] == self.path(i as int));
            }
        }
        while e < n
            invariant
                self.wf(),
                i < self.len(),
                n == self.fanout(i as int),
                e <= n,
                path@ == self.path(i as int),
                r.deep_view().no_duplicates(),
                forall|w: Seq<char>|
                    r.deep_view().contains(w) <==> self.under_first(i as int, own, e as int, w),
            decreases n - e,
        {
            let (c, j) = self.nodes[i].members[e];
            assert(self.edge(i as int, e as int) == (c, j));
            path.push(c);
            let mut sub = self.collect(j, true, path);
            path.pop();
            let ghost head = r.deep_view();
            let ghost tail = sub.deep_view();
            r.append(&mut sub);
            proof {
                assert(r.deep_view() == head + tail);
                assert forall|a: int, b: int| 0 <= a < head.len() && 0 <= b < tail.len() implies head[a]
                    != tail[b] by {
                    assert(head.contains(head[a]));
                    assert(tail.contains(tail[b]));
                    if !(own && self.nodes@[i as int].is_member && head[a] == self.path(i as int)) {
                        let f = choose|f: int|
                            0 <= f < e && self.under(
                                #[trigger] self.edge(i as int, f).1 as int,
                                true,
                                head[a],
                            );
                        self.branches_differ(i as int, f, e as int, head[a], tail[b]);
                    }
                }
                vstd::seq_lib::lemma_no_dup_in_concat(head, tail);
                assert forall|w: Seq<char>| (head + tail).contains(w) <==> self.under_first(
                    i as int,
                    own,
                    e + 1,
                    w,
                ) by {
                    if (head + tail).contains(w) {
                        let x = choose|x: int| 0 <= x < (head + tail).len() && (head + tail)[x] == w;
                        if x < head.len() {
                            assert(head.contains(w));
                        } else {
                            assert(tail.contains(w));
                        }
                    }
                    if self.under_first(i as int, own, e + 1, w) {
                        if own && self.nodes@[i as int].is_member && w == self.path(i as int) {
                            assert(head.contains(w));
                            let x = choose|x: int| 0 <= x < head.len() && head[x] == w;
                            assert((head + tail)[x] == w);
                        } else {
                            let f = choose|f: int|
                                0 <= f < e + 1 && self.under(
                                    #[trigger] self.edge(i as int, f).1 as int,
                                    true,
                                    w,
                                );
                            if f < e {
                                assert(head.contains(w));
                                let x = choose|x: int| 0 <= x < head.len() && head[x] == w;
                                assert((head + tail)[x] == w);
                            } else {
                                assert(tail.contains(w));
                                let x = choose|x: int| 0 <= x < tail.len() && tail[x] == w;
                                assert((head + tail)[head.len() + x] == w);
                            }
                        }
                    }
                }
            }
            e = e + 1;
        }
        proof {
            assert forall|w: Seq<char>| r.deep_view().contains(w) <==> self.under(i as int, own, w) by {
                self.under_is_under_all(i as int, own, w);
            }
        }
        r
    }

    /// Every stored name that begins with `s`, each once; `s` itself is
    /// among them if it is a stored name.
    pub fn fuzzy(&self, s: &str) -> (r: Vec<String>)
        requires
            self.wf(),
        ensures
            r.deep_view().no_duplicates(),
            forall|w: Seq<char>|
                r.deep_view().contains(w) <==> self@.contains(w) && s@.is_prefix_of(w),
    {
        let mut path = chars_of(s);
        let mut i: usize = 0;
        let mut d: usize = 0;
        while d < path.len()
            invariant
                self.wf(),
                path@ == s@,
                d <= path.len(),
                i < self.len(),
                self.path(i as int) == path@.take(d as int),
            decreases path.len() - d,
        {
            let c = path[d];
            assert(path@.take(d + 1) == path@.take(d as int).push(c));
            match self.child(i, c) {
                Some(j) => {
                    i = j;
                },
                None => {
                    let r: Vec<String> = Vec::new();
                    proof {
                        assert forall|w: Seq<char>| !(self@.contains(w) && s@.is_prefix_of(w)) by {
                            if self.spells(w) && s@.is_prefix_of(w) {
                                let k = choose|k: int|
                                    0 <= k < self.len() && self.nodes@[k].is_member && #[trigger] self.path(k)
                                        == w;
                                self.prefix_is_path(k, d + 1);
                                assert(w.take(d + 1) == s@.take(d + 1));
                            }
                        }
                    }
                    return r;
                },
            }
            d = d + 1;
        }
        assert(path@.take(path.len() as int) == path@);
        self.collect(i, true, &mut path)
    }

    /// Every stored name but the empty one, each once.
    pub fn list_all(&self) -> (r: Vec<String>)
        requires
            self.wf(),
        ensures
            r.deep_view().no_duplicates(),
            forall|w: Seq<char>| r.deep_view().contains(w) <==> self@.contains(w) && w.len() > 0,
    {
        let mut path: Vec<char> = Vec::new();
        let r = self.collect(0, false, &mut path);
        assert forall|w: Seq<char>| self.under(0, false, w) <==> self@.contains(w) && w.len()
            > 0 by {
            assert(w.len() == 0 <==> w =~= self.path(0));
        }
        r
    }
}

} // verus!
