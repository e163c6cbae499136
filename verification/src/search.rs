//! The search path: its entries, and how a program is looked up in it.
use vstd::prelude::*;
use crate::text::text_of;

verus! {

/// A file in a directory of the search path.
#[derive(Clone, Debug, PartialEq, Eq)]
pub struct Entry {
    /// The name of the file in its directory.
    pub name: String,
    /// The path that leads to the file.
    pub path: String,
}

/// An entry as plain values.
pub struct EntryView {
    pub name: Seq<char>,
    pub path: Seq<char>,
}

impl DeepView for Entry {
    type V = EntryView;

    open spec fn deep_view(&self) -> EntryView {
        EntryView { name: self.name@, path: self.path@ }
    }
}

/// Asks `is_executable::is_executable` whether a file that may be
/// executed stands at `path`. The answer is a matter of the file system
/// and of the platform: nothing is stated of it.
#[verifier::external_body]
fn executable_at(path: &String) -> bool {
    is_executable::is_executable(path)
}

/// The answers in `flags`, directory by directory.
pub open spec fn answers(flags: Seq<Vec<bool>>) -> Seq<Seq<bool>> {
    Seq::new(flags.len(), |d: int| flags[d]@)
}

/// Those of the first `n` entries of `dir` whose answer in `flags` is
/// yes. An entry without an answer counts as no.
pub open spec fn selected_in(dir: Seq<EntryView>, flags: Seq<bool>, n: int) -> Seq<EntryView>
    decreases n,
{
    if n <= 0 || n > dir.len() {
        Seq::empty()
    } else if n <= flags.len() && flags[n - 1] {
        selected_in(dir, flags, n - 1).push(dir[n - 1])
    } else {
        selected_in(dir, flags, n - 1)
    }
}

/// The search path `path` with those entries only whose answer in
/// `flags` is yes, each directory in its place.
pub open spec fn selected(path: Seq<Seq<EntryView>>, flags: Seq<Seq<bool>>) -> Seq<Seq<EntryView>> {
    Seq::new(
        path.len(),
        |d: int|
            if d < flags.len() {
                selected_in(path[d], flags[d], path[d].len() as int)
            } else {
                Seq::empty()
            },
    )
}

/// Whether `kept` holds, for each directory of `path`, entries of that
/// directory only.
pub open spec fn kept_from(kept: Seq<Seq<EntryView>>, path: Seq<Seq<EntryView>>) -> bool {
    &&& kept.len() == path.len()
    &&& forall|d: int, e: int|
        0 <= d < kept.len() && 0 <= e < kept[d].len() ==> path[d].contains(#[trigger] kept[d][e])
}

/// What is selected from a search path are entries of it.
pub proof fn selected_are_entries(path: Seq<Seq<EntryView>>, flags: Seq<Seq<bool>>)
    ensures
        kept_from(selected(path, flags), path),
{
    let kept = selected(path, flags);
    assert forall|d: int, e: int| 0 <= d < kept.len() && 0 <= e < kept[d].len() implies path[d].contains(
         #[trigger] kept[d][e],
    ) by {
        if d < flags.len() {
            selected_in_are_entries(path[d], flags[d], path[d].len() as int, e);
        }
    }
}

proof fn selected_in_are_entries(dir: Seq<EntryView>, flags: Seq<bool>, n: int, e: int)
    requires
        0 <= e < selected_in(dir, flags, n).len(),
    ensures
        dir.contains(selected_in(dir, flags, n)[e]),
    decreases n,
{
    if n > 0 && n <= dir.len() {
        if e < selected_in(dir, flags, n - 1).len() {
            selected_in_are_entries(dir, flags, n - 1, e);
        }
    }
}

/// Keeps those entries of the search path whose answer in `flags` is
/// yes, each directory in its place.
pub fn select(path: &Vec<Vec<Entry>>, flags: &Vec<Vec<bool>>) -> (kept: Vec<Vec<Entry>>)
    ensures
        kept.deep_view() == selected(path.deep_view(), answers(flags@)),
{
    let mut kept: Vec<Vec<Entry>> = Vec::new();
    let mut d: usize = 0;
    while d < path.len()
        invariant
            d <= path.len(),
            kept.len() == d,
            forall|a: int|
                0 <= a < d ==> #[trigger] kept.deep_view()[a] == selected(
                    path.deep_view(),
                    answers(flags@),
                )[a],
        decreases path.len() - d,
    {
        let dir = &path[d];
        let mut files: Vec<Entry> = Vec::new();
        if d < flags.len() {
            let told = &flags[d];
            let mut e: usize = 0;
            while e < dir.len()
                invariant
                    e <= dir.len(),
                    d < path.len(),
                    d < flags.len(),
                    dir == path[d as int],
                    told == flags[d as int],
                    files.deep_view() == selected_in(path.deep_view()[d as int], told@, e as int),
                decreases dir.len() - e,
            {
                if e < told.len() && told[e] {
                    files.push(Entry { name: dir[e].name.clone(), path: dir[e].path.clone() });
                }
                e = e + 1;
            }
        }
        let ghost before = kept.deep_view();
        kept.push(files);
        assert forall|a: int| 0 <= a < d + 1 implies #[trigger] kept.deep_view()[a] == selected(
            path.deep_view(),
            answers(flags@),
        )[a] by {
            if a < d {
                assert(kept.deep_view()[a] == before[a]);
            }
        }
        d = d + 1;
    }
    kept
}

/// Asks the host of every entry of the search path whether it may be
/// executed: one answer for each entry, directory by directory.
fn probe(path: &Vec<Vec<Entry>>) -> (flags: Vec<Vec<bool>>)
    ensures
        flags.len() == path.len(),
        forall|d: int| 0 <= d < path.len() ==> (#[trigger] flags[d]).len() == path[d].len(),
{
    let mut flags: Vec<Vec<bool>> = Vec::new();
    let mut d: usize = 0;
    while d < path.len()
        invariant
            d <= path.len(),
            flags.len() == d,
            forall|a: int| 0 <= a < d ==> (#[trigger] flags[a]).len() == path[a].len(),
        decreases path.len() - d,
    {
        let dir = &path[d];
        let mut told: Vec<bool> = Vec::new();
        let mut e: usize = 0;
        while e < dir.len()
            invariant
                e <= dir.len(),
                told.len() == e,
            decreases dir.len() - e,
        {
            told.push(executable_at(&dir[e].path));
            e = e + 1;
        }
        flags.push(told);
        d = d + 1;
    }
    flags
}

/// The entries of the search path at which the host has a file that may
/// be executed, each directory in its place.
///
/// Which entries those are is for the host to say: the result is what
/// some answers select.
pub fn executables(path: &Vec<Vec<Entry>>) -> (kept: Vec<Vec<Entry>>)
    ensures
        exists|flags: Seq<Seq<bool>>| kept.deep_view() == selected(path.deep_view(), flags),
{
    let flags = probe(path);
    select(path, &flags)
}

/// Where the first entry named `cmd` stands among the directories
/// `path[d..]`, taken in order: its path.
pub open spec fn located(cmd: Seq<char>, path: Seq<Seq<EntryView>>, d: int) -> Option<Seq<char>>
    decreases path.len() - d,
{
    if d < 0 || d >= path.len() {
        None
    } else {
        match located_in(cmd, path[d], 0) {
            Some(p) => Some(p),
            None => located(cmd, path, d + 1),
        }
    }
}

/// The path of the first entry named `cmd` among `dir[e..]`.
pub open spec fn located_in(cmd: Seq<char>, dir: Seq<EntryView>, e: int) -> Option<Seq<char>>
    decreases dir.len() - e,
{
    if e < 0 || e >= dir.len() {
        None
    } else if dir[e].name == cmd {
        Some(dir[e].path)
    } else {
        located_in(cmd, dir, e + 1)
    }
}

/// Looks `cmd` up in the directories `path`, in order: the first entry
/// of that name wins.
pub fn locate(cmd: &String, path: &Vec<Vec<Entry>>) -> (r: Option<String>)
    ensures
        text_of(r) == located(cmd@, path.deep_view(), 0),
{
    let mut d: usize = 0;
    while d < path.len()
        invariant
            d <= path.len(),
            located(cmd@, path.deep_view(), 0) == located(cmd@, path.deep_view(), d as int),
        decreases path.len() - d,
    {
        let dir = &path[d];
        let mut e: usize = 0;
        while e < dir.len()
            invariant
                e <= dir.len(),
                d < path.len(),
                dir == path[d as int],
                located(cmd@, path.deep_view(), 0) == located(cmd@, path.deep_view(), d as int),
                located_in(cmd@, path.deep_view()[d as int], 0) == located_in(
                    cmd@,
                    path.deep_view()[d as int],
                    e as int,
                ),
            decreases dir.len() - e,
        {
            if dir[e].name == *cmd {
                return Some(dir[e].path.clone());
            }
            e = e + 1;
        }
        d = d + 1;
    }
    None
}

/// A name that is found is the name of an entry, and the path is that of
/// the entry; a name that no entry has is not found.
pub proof fn located_is_an_entry(cmd: Seq<char>, path: Seq<Seq<EntryView>>, d: int)
    requires
        0 <= d,
    ensures
        match located(cmd, path, d) {
            Some(p) => exists|a: int, e: int|
                d <= a < path.len() && 0 <= e < path[a].len() && (#[trigger] path[a][e]).name == cmd
                    && path[a][e].path == p,
            None => forall|a: int, e: int|
                d <= a < path.len() && 0 <= e < path[a].len() ==> (#[trigger] path[a][e]).name != cmd,
        },
    decreases path.len() - d,
{
    if d < path.len() {
        located_in_is_an_entry(cmd, path[d], 0);
        located_is_an_entry(cmd, path, d + 1);
        match located_in(cmd, path[d], 0) {
            Some(p) => {
                let e = choose|e: int|
                    0 <= e < path[d].len() && (#[trigger] path[d][e]).name == cmd && path[d][e].path == p;
            },
            None => {},
        }
    }
}

proof fn located_in_is_an_entry(cmd: Seq<char>, dir: Seq<EntryView>, e: int)
    requires
        0 <= e,
    ensures
        match located_in(cmd, dir, e) {
            Some(p) => exists|f: int|
                e <= f < dir.len() && (#[trigger] dir[f]).name == cmd && dir[f].path == p,
            None => forall|f: int| e <= f < dir.len() ==> (#[trigger] dir[f]).name != cmd,
        },
    decreases dir.len() - e,
{
    if e < dir.len() && dir[e].name != cmd {
        located_in_is_an_entry(cmd, dir, e + 1);
    }
}

} // verus!
