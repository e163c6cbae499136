//! Completion of command names for a line editor.
use vstd::prelude::*;
use vstd::string::StringExecFns;
use crate::builtins::is_builtin;
use crate::search::{executables, selected, selected_are_entries, Entry, EntryView};
use crate::order::{sort, sorted};
use crate::trie::Trie;

verus! {

/// The names that can be completed.
#[derive(Clone)]
pub struct ShellAutocomplete {
    pub suggestions: Trie,
}

/// What the line editor is to do with the line it has.
#[derive(Clone, Debug, PartialEq, Eq)]
pub enum Completion {
    /// No name begins with the line: ring the bell.
    Bell,
    /// One name does: put this text, the name and a blank, in place of
    /// the line.
    Replace(String),
    /// Several names do: these, in order.
    Candidates(Vec<String>),
}

/// The names of the builtin commands.
pub open spec fn builtin_names() -> Set<Seq<char>> {
    Set::new(|n: Seq<char>| is_builtin(n))
}

/// The names of the entries of a search path.
pub open spec fn names_of(path: Seq<Seq<EntryView>>) -> Set<Seq<char>> {
    Set::new(
        |n: Seq<char>|
            exists|d: int, e: int|
                0 <= d < path.len() && 0 <= e < path[d].len() && (#[trigger] path[d][e]).name == n,
    )
}

/// The names of `stored` that begin with `line`.
pub open spec fn candidates(stored: Set<Seq<char>>, line: Seq<char>) -> Set<Seq<char>> {
    Set::new(|w: Seq<char>| stored.contains(w) && line.is_prefix_of(w))
}

impl ShellAutocomplete {
    /// The table of names is in order.
    pub open spec fn wf(&self) -> bool {
        self.suggestions.wf()
    }

    /// Completion over the builtin commands and the programs `names`.
    pub fn with_names(names: &Vec<String>) -> (a: ShellAutocomplete)
        ensures
            a.wf(),
            a.suggestions@ == builtin_names().union(names.deep_view().to_set()),
    {
        let mut t = Trie::new();
        t.add("exit");
        t.add("echo");
        t.add("type");
        t.add("pwd");
        t.add("cd");
        t.add("history");
        let mut k: usize = 0;
        while k < names.len()
            invariant
                k <= names.len(),
                t.wf(),
                t@ == builtin_names().union(names.deep_view().take(k as int).to_set()),
            decreases names.len() - k,
        {
            t.add(names[k].as_str());
            proof {
                let head = names.deep_view().take(k as int);
                let next = names.deep_view().take(k + 1);
                assert forall|n: Seq<char>| next.to_set().contains(n) <==> head.to_set().contains(n)
                    || n == names[k as int]@ by {
                    if next.contains(n) {
                        let i = choose|i: int| 0 <= i < next.len() && next[i] == n;
                        assert(i < k ==> head[i] == n);
                    }
                    if head.contains(n) {
                        let i = choose|i: int| 0 <= i < head.len() && head[i] == n;
                        assert(next[i] == n);
                    }
                    if n == names[k as int]@ {
                        assert(next[k as int] == n);
                    }
                }
            }
            k = k + 1;
        }
        assert(names.deep_view().take(names.len() as int) == names.deep_view());
        ShellAutocomplete { suggestions: t }
    }

    /// Completion over the builtin commands and the entries of the search
    /// path at which the host has a file that may be executed.
    ///
    /// Which entries those are is for the host to say: the names are the
    /// builtins and those of the entries that some answers select. So
    /// every builtin can be completed, and what can be completed is a
    /// builtin or the name of an entry.
    pub fn new(path: &Vec<Vec<Entry>>) -> (a: ShellAutocomplete)
        ensures
            a.wf(),
            exists|flags: Seq<Seq<bool>>|
                a.suggestions@ == builtin_names().union(
                    names_of(selected(path.deep_view(), flags)),
                ),
            builtin_names().subset_of(a.suggestions@),
            a.suggestions@.subset_of(builtin_names().union(names_of(path.deep_view()))),
    {
        let kept = executables(path);
        let ghost k = kept.deep_view();
        let mut names: Vec<String> = Vec::new();
        let mut d: usize = 0;
        while d < kept.len()
            invariant
                d <= kept.len(),
                k == kept.deep_view(),
                forall|i: int|
                    0 <= i < names.len() ==> names_of(k).contains(#[trigger] names.deep_view()[i]),
                forall|a: int, e: int|
                    0 <= a < d && 0 <= e < k[a].len() ==> names.deep_view().contains(
                        (#[trigger] k[a][e]).name,
                    ),
            decreases kept.len() - d,
        {
            let dir = &kept[d];
            let mut e: usize = 0;
            while e < dir.len()
                invariant
                    e <= dir.len(),
                    d < kept.len(),
                    dir == kept[d as int],
                    k == kept.deep_view(),
                    forall|i: int|
                        0 <= i < names.len() ==> names_of(k).contains(
                            #[trigger] names.deep_view()[i],
                        ),
                    forall|a: int, f: int|
                        0 <= a < d && 0 <= f < k[a].len() ==> names.deep_view().contains(
                            (#[trigger] k[a][f]).name,
                        ),
                    forall|f: int|
                        0 <= f < e ==> names.deep_view().contains((#[trigger] k[d as int][f]).name),
                decreases dir.len() - e,
            {
                let ghost head = names.deep_view();
                names.push(dir[e].name.clone());
                proof {
                    let entry = k[d as int][e as int];
                    assert(names.deep_view()[head.len() as int] == entry.name);
                    assert forall|i: int| 0 <= i < names.len() implies names_of(k).contains(
                        #[trigger] names.deep_view()[i],
                    ) by {
                        if i < head.len() {
                            assert(names.deep_view()[i] == head[i]);
                        }
                    }
                    assert forall|w: Seq<char>| head.contains(w) implies names.deep_view().contains(
                        w,
                    ) by {
                        let i = choose|i: int| 0 <= i < head.len() && head[i] == w;
                        assert(names.deep_view()[i] == w);
                    }
                }
                e = e + 1;
            }
            d = d + 1;
        }
        let a = ShellAutocomplete::with_names(&names);
        proof {
            let p = path.deep_view();
            let flags = choose|flags: Seq<Seq<bool>>| k == selected(p, flags);
            selected_are_entries(p, flags);
        }
        a
    }

    /// Completes `line`, the text that the line editor holds.
    pub fn complete(&self, line: &str) -> (c: Completion)
        requires
            self.wf(),
        ensures
            match c {
                Completion::Bell => candidates(self.suggestions@, line@) == Set::<Seq<char>>::empty(),
                Completion::Replace(t) => exists|w: Seq<char>|
                    candidates(self.suggestions@, line@) == set![w] && t@ == w + " "@,
                Completion::Candidates(v) => {
                    &&& v.len() >= 2
                    &&& sorted(v.deep_view())
                    &&& v.deep_view().no_duplicates()
                    &&& v.deep_view().to_set() == candidates(self.suggestions@, line@)
                },
            },
    {
        let found = self.suggestions.fuzzy(line);
        let ghost all = candidates(self.suggestions@, line@);
        if found.len() == 0 {
            Completion::Bell
        } else if found.len() == 1 {
            let t = found[0].clone().concat(" ");
            proof {
                let w = found[0]@;
                assert(found.deep_view()[0] == w);
                assert(all =~= set![w]);
            }
            Completion::Replace(t)
        } else {
            let v = sort(&found);
            proof {
                let f = found.deep_view();
                let r = v.deep_view();
                f.lemma_multiset_has_no_duplicates();
                r.lemma_multiset_has_no_duplicates_conv();
                f.to_multiset_ensures();
                r.to_multiset_ensures();
                assert forall|w: Seq<char>| r.to_set().contains(w) == f.to_set().contains(w) by {
                    assert(f.contains(w) <==> f.to_multiset().count(w) > 0);
                }
            }
            Completion::Candidates(v)
        }
    }
}

} // verus!
