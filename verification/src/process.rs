//! Running windows and processes: the records the launcher keeps of them,
//! the suspension verdict drawn from a process's threads, and the matching
//! of a window's executable path against game install directories.
use vstd::prelude::*;
use crate::text::{char_views, has_substring, has_substring_exec, lower, to_lower};

verus! {

/// A visible top-level window: owning process, title and executable path.
#[derive(Clone, Debug)]
pub struct AppInfo {
    pub pid: u32,
    pub name: String,
    pub path: String,
}

/// A process with a textual state.
#[derive(Clone, Debug)]
pub struct AppDetail {
    pub pid: u32,
    pub name: String,
    pub state: String,
    pub path: String,
}

/// A running window with its cached suspension state.
#[derive(Clone, Debug)]
pub struct WindowEntry {
    pub info: AppInfo,
    pub suspended: bool,
}

/// What probing one thread of a process gave: the thread could not be
/// opened, or `SuspendThread` returned this previous suspend count
/// (`u32::MAX` when the call failed).
#[derive(Clone, Copy, Debug, PartialEq, Eq, Structural)]
pub enum ThreadProbe {
    NotOpened,
    PreviousCount(u32),
}

/// A thread counts as suspended when it was opened and its previous suspend
/// count was neither zero nor the failure value.
pub open spec fn probe_suspended(p: ThreadProbe) -> bool {
    match p {
        ThreadProbe::NotOpened => false,
        ThreadProbe::PreviousCount(n) => n != 0 && n != u32::MAX,
    }
}

/// A process is suspended when it has at least one thread and every thread
/// is suspended.
pub open spec fn process_suspended(probes: Seq<ThreadProbe>) -> bool {
    probes.len() > 0 && forall|i: int| 0 <= i < probes.len() ==> probe_suspended(#[trigger] probes[i])
}

/// The verdict of `is_process_suspended` from the probes of the process's
/// threads, in snapshot order.
pub fn threads_all_suspended(probes: &Vec<ThreadProbe>) -> (r: bool)
    ensures
        r == process_suspended(probes@),
{
    let mut all = true;
    let n = probes.len();
    for i in 0..n
        invariant
            n == probes.len(),
            all == (forall|j: int| 0 <= j < i ==> probe_suspended(#[trigger] probes@[j])),
    {
        let ok = match &probes[i] {
            ThreadProbe::NotOpened => false,
            ThreadProbe::PreviousCount(c) => *c != 0 && *c != u32::MAX,
        };
        if !ok {
            all = false;
        }
    }
    n > 0 && all
}

/// The window list with each window's suspension state; a state that could
/// not be determined counts as not suspended.
pub fn get_all_window_entries(apps: Vec<AppInfo>, states: &Vec<Option<bool>>) -> (r: Vec<
    WindowEntry,
>)
    requires
        apps@.len() == states@.len(),
    ensures
        r@.len() == apps@.len(),
        forall|i: int|
            0 <= i < r@.len() ==> (#[trigger] r@[i]).info == apps@[i] && r@[i].suspended == (
            states@[i] == Some(true)),
{
    let ghost orig = apps@;
    let mut apps = apps;
    let mut out: Vec<WindowEntry> = Vec::new();
    let mut i: usize = 0;
    let total = states.len();
    while apps.len() > 0
        invariant
            total == states@.len(),
            i + apps@.len() == orig.len(),
            orig.len() == states@.len(),
            apps@ == orig.skip(i as int),
            out@.len() == i,
            forall|j: int|
                0 <= j < i ==> (#[trigger] out@[j]).info == orig[j] && out@[j].suspended == (
                states@[j] == Some(true)),
        decreases apps.len(),
    {
        let a = apps.remove(0);
        assert(apps@ =~= orig.skip(i + 1));
        let suspended = match states[i] {
            Some(b) => b,
            None => false,
        };
        out.push(WindowEntry { info: a, suspended });
        i = i + 1;
    }
    out
}

/// `path` runs from `dir`: `dir` (unless empty and `skip_empty`) occurs in
/// `path`, both ASCII-lowercased.
pub open spec fn dir_matches(path: Seq<char>, dir: Seq<char>, skip_empty: bool) -> bool {
    !(skip_empty && dir.len() == 0) && has_substring(lower(path), lower(dir))
}

pub open spec fn is_first_match(path: Seq<char>, dirs: Seq<Seq<char>>, skip_empty: bool, i: int) -> bool {
    &&& 0 <= i < dirs.len()
    &&& dir_matches(path, dirs[i], skip_empty)
    &&& forall|j: int| 0 <= j < i ==> !dir_matches(path, #[trigger] dirs[j], skip_empty)
}

/// Index of the first directory that `path` runs from.
pub open spec fn first_match(path: Seq<char>, dirs: Seq<Seq<char>>, skip_empty: bool) -> Option<int> {
    if exists|i: int| is_first_match(path, dirs, skip_empty, i) {
        Some(choose|i: int| is_first_match(path, dirs, skip_empty, i))
    } else {
        None
    }
}

pub proof fn lemma_first_match_unique(path: Seq<char>, dirs: Seq<Seq<char>>, skip_empty: bool, i: int, k: int)
    requires
        is_first_match(path, dirs, skip_empty, i),
        is_first_match(path, dirs, skip_empty, k),
    ensures
        i == k,
{
    if i < k {
        assert(!dir_matches(path, dirs[i], skip_empty));
    }
    if k < i {
        assert(!dir_matches(path, dirs[k], skip_empty));
    }
}

pub proof fn lemma_first_match_range(path: Seq<char>, dirs: Seq<Seq<char>>, skip_empty: bool)
    ensures
        first_match(path, dirs, skip_empty) matches Some(i) ==> 0 <= i < dirs.len(),
{
}

/// The first directory of `dirs` that `path` runs from.
pub fn first_match_exec(path: &Vec<char>, dirs: &Vec<Vec<char>>, skip_empty: bool) -> (r: Option<usize>)
    ensures
        match r {
            Some(i) => first_match(path@, char_views(dirs@), skip_empty) == Some(i as int),
            None => first_match(path@, char_views(dirs@), skip_empty) is None,
        },
{
    let ghost ds = char_views(dirs@);
    let lp = to_lower(path);
    let n = dirs.len();
    for i in 0..n
        invariant
            n == dirs.len(),
            ds == char_views(dirs@),
            lp@ == lower(path@),
            forall|j: int| 0 <= j < i ==> !dir_matches(path@, #[trigger] ds[j], skip_empty),
    {
        let skip = skip_empty && dirs[i].len() == 0;
        if !skip {
            let ld = to_lower(&dirs[i]);
            if has_substring_exec(&lp, &ld) {
                assert(is_first_match(path@, ds, skip_empty, i as int));
                proof {
                    let k = choose|k: int| is_first_match(path@, ds, skip_empty, k);
                    lemma_first_match_unique(path@, ds, skip_empty, i as int, k);
                }
                return Some(i);
            }
        }
        assert(!dir_matches(path@, ds[i as int], skip_empty));
    }
    assert forall|i: int| !is_first_match(path@, ds, skip_empty, i) by {
        if 0 <= i < ds.len() {
            assert(!dir_matches(path@, ds[i], skip_empty));
        }
    }
    None
}

/// `i` is the first window owned by process `pid`.
pub open spec fn is_first_window_of(apps: Seq<AppInfo>, pid: u32, i: int) -> bool {
    &&& 0 <= i < apps.len()
    &&& apps[i].pid == pid
    &&& forall|j: int| 0 <= j < i ==> (#[trigger] apps[j]).pid != pid
}

/// The title of the first window owned by process `pid`, if it has one.
pub fn window_title_of(apps: &Vec<AppInfo>, pid: u32) -> (r: Option<String>)
    ensures
        match r {
            Some(t) => exists|i: int| is_first_window_of(apps@, pid, i) && t@ == (#[trigger] apps@[i]).name@,
            None => forall|j: int| 0 <= j < apps@.len() ==> (#[trigger] apps@[j]).pid != pid,
        },
{
    let n = apps.len();
    for i in 0..n
        invariant
            n == apps.len(),
            forall|j: int| 0 <= j < i ==> (#[trigger] apps@[j]).pid != pid,
    {
        if apps[i].pid == pid {
            let t = apps[i].name.clone();
            assert(is_first_window_of(apps@, pid, i as int));
            return Some(t);
        }
    }
    None
}

} // verus!
