//! Process snapshots and matching against registered application paths.
//!
//! The process table is machine state: the trusted snapshot hands it over as
//! plain values, and everything decided about it — which processes match a
//! registered target application — is verified on those values. A process
//! matches by exact equality of its executable path with a registered path;
//! normalization of paths is its caller's business and happens before
//! registration.

use vstd::prelude::*;

verus! {

/// One process of interest: its id, display name and executable path.
#[derive(Debug)]
pub struct ApplicationProcess {
    /// Process id; unique in any one snapshot.
    pub pid: u32,
    /// Display name, when the OS offers one.
    pub name: Option<String>,
    /// Executable path; the key the engine matches against.
    pub path: String,
}

/// The mathematical content of an [`ApplicationProcess`].
pub struct ProcessView {
    pub pid: u32,
    pub name: Option<Seq<char>>,
    pub path: Seq<char>,
}

impl View for ApplicationProcess {
    type V = ProcessView;

    open spec fn view(&self) -> ProcessView {
        ProcessView { pid: self.pid, name: self.name.deep_view(), path: self.path@ }
    }
}

impl DeepView for ApplicationProcess {
    type V = ProcessView;

    open spec fn deep_view(&self) -> ProcessView {
        self.view()
    }
}

impl Clone for ApplicationProcess {
    fn clone(&self) -> (r: Self)
        ensures
            r@ == self@,
    {
        ApplicationProcess {
            pid: self.pid,
            name: match &self.name {
                Some(n) => Some(n.clone()),
                None => None,
            },
            path: self.path.clone(),
        }
    }
}

impl ApplicationProcess {
    /// Packs the three attributes of a process.
    pub fn new(pid: u32, name: Option<String>, path: String) -> (r: Self)
        ensures
            r.pid == pid,
            r.name == name,
            r.path == path,
    {
        ApplicationProcess { pid, name, path }
    }
}

#[verifier::external_type_specification]
#[verifier::external_body]
pub struct ExSystem(sysinfo::System);

/// Relies on `sysinfo::System::new_with_specifics`: builds a process table
/// snapshot that keeps executable paths refreshed. What it holds depends on
/// the machine, so nothing is promised of it.
#[verifier::external_body]
pub fn new_process_system() -> sysinfo::System {
    sysinfo::System::new_with_specifics(
        sysinfo::RefreshKind::nothing().with_processes(
            sysinfo::ProcessRefreshKind::nothing().with_exe(sysinfo::UpdateKind::Always),
        ),
    )
}

/// Relies on `sysinfo::System::refresh_processes_specifics`: refreshes the
/// process table in place, dropping dead processes. The new contents depend
/// on the machine, so nothing is promised of them.
#[verifier::external_body]
pub fn refresh_blocking(sys: &mut sysinfo::System)
    ensures
        true,
{
    sys.refresh_processes_specifics(
        sysinfo::ProcessesToUpdate::All,
        true,
        sysinfo::ProcessRefreshKind::nothing().with_exe(sysinfo::UpdateKind::Always),
    );
}

/// Relies on `sysinfo::System::processes`: hands each table entry out as
/// plain values — id, name, executable path. The table is keyed by process
/// id, so ids are pairwise distinct; beyond that the contents are machine
/// state and nothing more is promised.
#[verifier::external_body]
fn snapshot_processes(sys: &sysinfo::System) -> (r: Vec<(u32, Option<String>, Option<String>)>)
    ensures
        forall|i: int, j: int| 0 <= i < j < r@.len() ==> r@[i].0 != r@[j].0,
{
    sys.processes()
        .iter()
        .map(|(pid, process)| (
            pid.as_u32(),
            process.name().to_str().map(|name| name.to_owned()),
            process.exe().and_then(|path| path.to_str()).map(|path| path.to_owned()),
        ))
        .collect()
}

/// Whether a path stands among the registered ones, by exact equality.
pub open spec fn spec_path_registered(registered: Seq<Seq<char>>, path: Seq<char>) -> bool {
    registered.contains(path)
}

/// The processes of a snapshot whose executable path is known and
/// registered, in snapshot order; a process without a readable path is of
/// no interest and dropped.
pub open spec fn spec_matching_processes(
    entries: Seq<(u32, Option<Seq<char>>, Option<Seq<char>>)>,
    registered: Seq<Seq<char>>,
) -> Seq<ProcessView>
    decreases entries.len(),
{
    if entries.len() == 0 {
        Seq::empty()
    } else {
        let rest = spec_matching_processes(entries.drop_last(), registered);
        let e = entries.last();
        if e.2 matches Some(path) && spec_path_registered(registered, path) {
            rest.push(ProcessView { pid: e.0, name: e.1, path: e.2->0 })
        } else {
            rest
        }
    }
}

/// `s` equals one of the strings in `list`.
pub fn contains_string(list: &Vec<String>, s: &String) -> (r: bool)
    ensures
        r == list.deep_view().contains(s@),
{
    let list_len = list.len();
    let mut i: usize = 0;
    while i < list_len
        invariant
            list_len == list@.len(),
            0 <= i <= list_len,
            forall|j: int| 0 <= j < i ==> #[trigger] list@[j]@ != s@,
        decreases list_len - i,
    {
        if list[i].eq(s) {
            assert(list.deep_view()[i as int] == s@);
            return true;
        }
        i = i + 1;
    }
    assert forall|j: int| 0 <= j < list.deep_view().len() implies #[trigger] list.deep_view()[j]
        != s@ by {
        assert(list.deep_view()[j] == list@[j]@);
    }
    false
}

/// Keeps the snapshot entries whose executable path is known and registered,
/// packing each as an [`ApplicationProcess`], in snapshot order.
pub fn filter_processes(
    entries: &Vec<(u32, Option<String>, Option<String>)>,
    registered: &Vec<String>,
) -> (r: Vec<ApplicationProcess>)
    ensures
        r.deep_view() == spec_matching_processes(entries.deep_view(), registered.deep_view()),
{
    let mut r: Vec<ApplicationProcess> = Vec::new();
    let entries_len = entries.len();
    let mut i: usize = 0;
    while i < entries_len
        invariant
            entries_len == entries@.len(),
            0 <= i <= entries_len,
            r.deep_view() == spec_matching_processes(
                entries.deep_view().subrange(0, i as int),
                registered.deep_view(),
            ),
        decreases entries_len - i,
    {
        let ghost prefix = entries.deep_view().subrange(0, i as int);
        let ghost next_prefix = entries.deep_view().subrange(0, i as int + 1);
        assert(next_prefix.drop_last() =~= prefix);
        assert(next_prefix.last() == entries.deep_view()[i as int]);
        let entry = &entries[i];
        assert(entry.deep_view() == entries.deep_view()[i as int]);
        let ghost r_before = r.deep_view();
        match &entry.2 {
            Some(path) => {
                if contains_string(registered, path) {
                    let name = match &entry.1 {
                        Some(n) => Some(n.clone()),
                        None => None,
                    };
                    r.push(ApplicationProcess::new(entry.0, name, path.clone()));
                    assert(r.deep_view() =~= r_before.push(
                        ProcessView {
                            pid: entries.deep_view()[i as int].0,
                            name: entries.deep_view()[i as int].1,
                            path: entries.deep_view()[i as int].2->0,
                        },
                    ));
                }
            },
            None => {},
        }
        i = i + 1;
    }
    assert(entries.deep_view().subrange(0, entries_len as int) =~= entries.deep_view());
    r
}

/// Takes a fresh look at the process table and returns the processes whose
/// executable path stands among the registered ones. The snapshot itself is
/// machine state; what is returned is exactly what
/// [`filter_processes`] keeps of it, so every result carries a registered
/// path.
pub fn get_application_processes(
    sys: &sysinfo::System,
    registered: &Vec<String>,
) -> (r: Vec<ApplicationProcess>)
    ensures
        forall|i: int|
            0 <= i < r.deep_view().len() ==> spec_path_registered(
                registered.deep_view(),
                #[trigger] r.deep_view()[i].path,
            ),
{
    let entries = snapshot_processes(sys);
    let r = filter_processes(&entries, registered);
    proof {
        lemma_matching_processes_registered(entries.deep_view(), registered.deep_view());
    }
    r
}

/// The first listed process with the given id, if any.
pub open spec fn spec_find_process(processes: Seq<ProcessView>, pid: u32) -> Option<ProcessView>
    decreases processes.len(),
{
    if processes.len() == 0 {
        None
    } else if processes.first().pid == pid {
        Some(processes.first())
    } else {
        spec_find_process(processes.drop_first(), pid)
    }
}

/// The first process with the given id, if one is listed.
pub fn get_application_process(
    processes: &Vec<ApplicationProcess>,
    pid: u32,
) -> (r: Option<ApplicationProcess>)
    ensures
        r.deep_view() == spec_find_process(processes.deep_view(), pid),
{
    let processes_len = processes.len();
    let mut i: usize = 0;
    assert(processes.deep_view().skip(0) =~= processes.deep_view());
    while i < processes_len
        invariant
            processes_len == processes@.len(),
            0 <= i <= processes_len,
            spec_find_process(processes.deep_view(), pid) == spec_find_process(
                processes.deep_view().skip(i as int),
                pid,
            ),
            forall|j: int| 0 <= j < i ==> #[trigger] processes@[j].pid != pid,
        decreases processes_len - i,
    {
        let ghost suffix = processes.deep_view().skip(i as int);
        assert(suffix.first() == processes.deep_view()[i as int]);
        assert(suffix.drop_first() =~= processes.deep_view().skip(i as int + 1));
        if processes[i].pid == pid {
            let p = processes[i].clone();
            assert(p.deep_view() == processes.deep_view()[i as int]);
            return Some(p);
        }
        i = i + 1;
    }
    assert(processes.deep_view().skip(processes_len as int) =~= Seq::<ProcessView>::empty());
    None
}

/// Every process the matching keeps carries a registered path.
proof fn lemma_matching_processes_registered(
    entries: Seq<(u32, Option<Seq<char>>, Option<Seq<char>>)>,
    registered: Seq<Seq<char>>,
)
    ensures
        forall|i: int|
            0 <= i < spec_matching_processes(entries, registered).len()
                ==> spec_path_registered(
                registered,
                #[trigger] spec_matching_processes(entries, registered)[i].path,
            ),
    decreases entries.len(),
{
    if entries.len() == 0 {
    } else {
        lemma_matching_processes_registered(entries.drop_last(), registered);
    }
}

} // verus!
