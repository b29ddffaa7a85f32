//! The application observer: snapshot diffing and event routing.
//!
//! A background loop (run by the embedding program) takes one process
//! snapshot per poll, restricted to registered paths. The pure work stands
//! here: the set difference between the previous and the current snapshot,
//! and the fan-out of the resulting added/removed events to the subscribers
//! registered under each process's path. Registration is keyed by exact
//! executable path; a subscriber can be unregistered and immediately
//! re-registered under a new path without losing its place.

use vstd::prelude::*;

use crate::process::{ApplicationProcess, ProcessView};

verus! {

/// A process of the target set appeared or went away, by process id.
#[derive(Debug, Clone, Copy, PartialEq, Eq, Structural)]
pub enum ApplicationEvent {
    Added(u32),
    Removed(u32),
}

/// The change between two consecutive process snapshots.
#[derive(Debug)]
pub struct ApplicationDiff {
    /// Processes in the current snapshot only.
    pub added: Vec<ApplicationProcess>,
    /// Processes in the previous snapshot only.
    pub removed: Vec<ApplicationProcess>,
}

/// `p` stands among `list`, by mathematical equality of all attributes.
pub open spec fn spec_contains_process(list: Seq<ProcessView>, p: ProcessView) -> bool {
    list.contains(p)
}

/// The processes of `from` that do not stand in `other`, in `from`'s order.
pub open spec fn spec_difference(from: Seq<ProcessView>, other: Seq<ProcessView>) -> Seq<
    ProcessView,
>
    decreases from.len(),
{
    if from.len() == 0 {
        Seq::empty()
    } else {
        let rest = spec_difference(from.drop_last(), other);
        if !spec_contains_process(other, from.last()) {
            rest.push(from.last())
        } else {
            rest
        }
    }
}

/// Whether two processes agree in id, name and path.
pub fn process_eq(a: &ApplicationProcess, b: &ApplicationProcess) -> (r: bool)
    ensures
        r == (a@ == b@),
{
    if a.pid != b.pid {
        return false;
    }
    let names_equal = match (&a.name, &b.name) {
        (Some(x), Some(y)) => x.eq(y),
        (None, None) => true,
        _ => false,
    };
    if !names_equal {
        return false;
    }
    a.path.eq(&b.path)
}

/// Whether a process equal to `p` stands among `list`.
pub fn contains_process(list: &Vec<ApplicationProcess>, p: &ApplicationProcess) -> (r: bool)
    ensures
        r == spec_contains_process(list.deep_view(), p@),
{
    let list_len = list.len();
    let mut i: usize = 0;
    while i < list_len
        invariant
            list_len == list@.len(),
            0 <= i <= list_len,
            forall|j: int| 0 <= j < i ==> #[trigger] list@[j]@ != p@,
        decreases list_len - i,
    {
        if process_eq(&list[i], p) {
            assert(list.deep_view()[i as int] == p@);
            return true;
        }
        i = i + 1;
    }
    assert forall|j: int| 0 <= j < list.deep_view().len() implies #[trigger] list.deep_view()[j]
        != p@ by {
        assert(list.deep_view()[j] == list@[j]@);
    }
    false
}

/// The processes of `from` that do not stand in `other`, in order.
fn difference(
    from: &Vec<ApplicationProcess>,
    other: &Vec<ApplicationProcess>,
) -> (r: Vec<ApplicationProcess>)
    ensures
        r.deep_view() == spec_difference(from.deep_view(), other.deep_view()),
{
    let mut r: Vec<ApplicationProcess> = Vec::new();
    let from_len = from.len();
    let mut i: usize = 0;
    while i < from_len
        invariant
            from_len == from@.len(),
            0 <= i <= from_len,
            r.deep_view() == spec_difference(
                from.deep_view().subrange(0, i as int),
                other.deep_view(),
            ),
        decreases from_len - i,
    {
        let ghost prefix = from.deep_view().subrange(0, i as int);
        let ghost next_prefix = from.deep_view().subrange(0, i as int + 1);
        assert(next_prefix.drop_last() =~= prefix);
        assert(next_prefix.last() == from.deep_view()[i as int]);
        let ghost r_before = r.deep_view();
        let p = &from[i];
        assert(p.deep_view() == from.deep_view()[i as int]);
        if !contains_process(other, p) {
            r.push(p.clone());
            assert(r.deep_view() =~= r_before.push(from.deep_view()[i as int]));
        }
        i = i + 1;
    }
    assert(from.deep_view().subrange(0, from_len as int) =~= from.deep_view());
    r
}

/// Diffs two consecutive snapshots: added is current minus previous,
/// removed is previous minus current, each in its snapshot's order.
pub fn compute_application_diff(
    previous: &Vec<ApplicationProcess>,
    current: &Vec<ApplicationProcess>,
) -> (r: ApplicationDiff)
    ensures
        r.added.deep_view() == spec_difference(current.deep_view(), previous.deep_view()),
        r.removed.deep_view() == spec_difference(previous.deep_view(), current.deep_view()),
{
    ApplicationDiff { added: difference(current, previous), removed: difference(previous, current) }
}

/// The registered subscriptions: for each target path, the subscribers that
/// want the events of processes running under that exact path. The channel
/// each subscriber listens on is its owner's business; the table holds the
/// routing only.
#[derive(Debug)]
pub struct ListenerTable {
    /// Path → subscriber ids, paths and ids unique.
    pub entries: Vec<(String, Vec<u128>)>,
}

impl ListenerTable {
    /// The table as mathematical values.
    pub open spec fn v(self) -> Seq<(Seq<char>, Seq<u128>)> {
        Seq::new(
            self.entries@.len(),
            |i: int| (self.entries@[i].0@, self.entries@[i].1@),
        )
    }

    /// Paths unique, each path's subscriber list non-empty with unique ids.
    pub open spec fn wf(self) -> bool {
        &&& forall|i: int, j: int|
            0 <= i < j < self.v().len() ==> #[trigger] self.v()[i].0 != #[trigger] self.v()[j].0
        &&& forall|i: int|
            0 <= i < self.v().len() ==> (#[trigger] self.v()[i].1.len()) > 0
        &&& forall|i: int, x: int, y: int|
            0 <= i < self.v().len() && 0 <= x < y < self.v()[i].1.len() ==> #[trigger] self.v()[
                i
            ].1[x] != #[trigger] self.v()[i].1[y]
    }

    /// A path stands in the table.
    pub open spec fn spec_has_path(self, path: Seq<char>) -> bool {
        exists|i: int| 0 <= i < self.v().len() && #[trigger] self.v()[i].0 == path
    }

    /// The subscribers registered under a path (empty when unregistered).
    pub open spec fn spec_subscribers(self, path: Seq<char>) -> Seq<u128> {
        if self.spec_has_path(path) {
            self.v()[choose|i: int| 0 <= i < self.v().len() && #[trigger] self.v()[i].0 == path].1
        } else {
            Seq::empty()
        }
    }

    /// An empty table: nothing registered.
    pub fn new() -> (r: ListenerTable)
        ensures
            r.wf(),
            r.v().len() == 0,
    {
        ListenerTable { entries: Vec::new() }
    }

    /// The index of a path's entry, if registered.
    fn find_path(&self, path: &String) -> (r: Option<usize>)
        ensures
            match r {
                Some(i) => i < self.v().len() && self.v()[i as int].0 == path@,
                None => !self.spec_has_path(path@),
            },
    {
        let entries_len = self.entries.len();
        let mut i: usize = 0;
        while i < entries_len
            invariant
                entries_len == self.entries@.len(),
                0 <= i <= entries_len,
                forall|j: int| 0 <= j < i ==> #[trigger] self.v()[j].0 != path@,
            decreases entries_len - i,
        {
            if self.entries[i].0.eq(path) {
                assert(self.v()[i as int].0 == path@);
                return Some(i);
            }
            i = i + 1;
        }
        None
    }

    /// The index of a subscriber in a list, if present.
    fn find_subscriber(list: &Vec<u128>, subscriber: u128) -> (r: Option<usize>)
        ensures
            match r {
                Some(i) => i < list@.len() && list@[i as int] == subscriber,
                None => !list@.contains(subscriber),
            },
    {
        let list_len = list.len();
        let mut i: usize = 0;
        while i < list_len
            invariant
                list_len == list@.len(),
                0 <= i <= list_len,
                forall|j: int| 0 <= j < i ==> #[trigger] list@[j] != subscriber,
            decreases list_len - i,
        {
            if list[i] == subscriber {
                return Some(i);
            }
            i = i + 1;
        }
        None
    }

    /// Registers a subscriber under a target path. Registering an already
    /// registered subscriber again under the same path changes nothing.
    pub fn listen_application(&mut self, target_app_path: String, subscriber: u128)
        requires
            old(self).wf(),
        ensures
            final(self).wf(),
            final(self).spec_has_path(target_app_path@),
            final(self).spec_subscribers(target_app_path@).contains(subscriber),
            forall|p: Seq<char>|
                p != target_app_path@ ==> #[trigger] final(self).spec_subscribers(p) == old(
                    self,
                ).spec_subscribers(p),
            forall|s: u128|
                s != subscriber ==> (#[trigger] final(self).spec_subscribers(
                    target_app_path@,
                ).contains(s) <==> old(self).spec_subscribers(target_app_path@).contains(s)),
    {
        let ghost old_table = *self;
        match self.find_path(&target_app_path) {
            Some(i) => {
                let ghost path_v = target_app_path@;
                let pair = &mut self.entries[i];
                match Self::find_subscriber(&pair.1, subscriber) {
                    Some(_) => {
                        proof {
                            assert(self.v() =~= old_table.v());
                            lemma_subscribers_frame(old_table, *self, path_v);
                        }
                    },
                    None => {
                        pair.1.push(subscriber);
                        proof {
                            assert(self.v() =~= old_table.v().update(
                                i as int,
                                (path_v, old_table.v()[i as int].1.push(subscriber)),
                            ));
                            lemma_listen_update(old_table, *self, i as int, path_v, subscriber);
                        }
                    },
                }
            },
            None => {
                let ghost path_v = target_app_path@;
                let mut subscribers: Vec<u128> = Vec::new();
                subscribers.push(subscriber);
                assert(subscribers@ =~= seq![subscriber]);
                self.entries.push((target_app_path, subscribers));
                proof {
                    let n = old_table.v().len() as int;
                    assert(self.v() =~= old_table.v().push((path_v, seq![subscriber])));
                    assert(self.v().drop_last() =~= old_table.v());
                    assert(self.v().last() == (path_v, seq![subscriber]));
                    lemma_listen_push(old_table, *self, subscriber);
                }
            },
        }
    }

    /// Unregisters a subscriber from a target path, reporting whether it was
    /// registered there — so that its channel can be moved atomically to a
    /// new path. A path left without subscribers leaves the table.
    pub fn unlisten_application(&mut self, target_app_path: &String, subscriber: u128) -> (r:
        bool)
        requires
            old(self).wf(),
        ensures
            final(self).wf(),
            r == old(self).spec_subscribers(target_app_path@).contains(subscriber),
            !final(self).spec_subscribers(target_app_path@).contains(subscriber),
            forall|p: Seq<char>|
                p != target_app_path@ ==> #[trigger] final(self).spec_subscribers(p) == old(
                    self,
                ).spec_subscribers(p),
            forall|s: u128|
                s != subscriber ==> (#[trigger] final(self).spec_subscribers(
                    target_app_path@,
                ).contains(s) <==> old(self).spec_subscribers(target_app_path@).contains(s)),
    {
        let ghost old_table = *self;
        let ghost path_v = target_app_path@;
        match self.find_path(target_app_path) {
            Some(i) => {
                let pair = &mut self.entries[i];
                match Self::find_subscriber(&pair.1, subscriber) {
                    Some(j) => {
                        pair.1.remove(j);
                        if self.entries[i].1.len() == 0 {
                            self.entries.remove(i);
                            proof {
                                assert(self.v() =~= old_table.v().remove(i as int));
                                lemma_unlisten_remove_entry(
                                    old_table,
                                    *self,
                                    i as int,
                                    path_v,
                                    subscriber,
                                    j as int,
                                );
                            }
                        } else {
                            proof {
                                assert(self.v() =~= old_table.v().update(
                                    i as int,
                                    (path_v, old_table.v()[i as int].1.remove(j as int)),
                                ));
                                lemma_unlisten_update(
                                    old_table,
                                    *self,
                                    i as int,
                                    path_v,
                                    subscriber,
                                    j as int,
                                );
                            }
                        }
                        true
                    },
                    None => {
                        proof {
                            assert(self.v() =~= old_table.v());
                            lemma_subscribers_frame(old_table, *self, path_v);
                            lemma_subscribers_of_entry(old_table, i as int);
                        }
                        false
                    },
                }
            },
            None => {
                proof {
                    assert(!old_table.spec_has_path(path_v));
                }
                false
            },
        }
    }
}

/// The (subscriber, event) deliveries one process's transition asks for:
/// one event per subscriber registered under the process's path, in
/// registration order.
pub open spec fn spec_deliveries_for(
    table_subscribers: Seq<u128>,
    event: ApplicationEvent,
) -> Seq<(u128, ApplicationEvent)> {
    table_subscribers.map_values(|s: u128| (s, event))
}

/// The deliveries a list of transitions asks for, processes in list order.
pub open spec fn spec_deliveries(
    table: ListenerTable,
    procs: Seq<ProcessView>,
    added: bool,
) -> Seq<(u128, ApplicationEvent)>
    decreases procs.len(),
{
    if procs.len() == 0 {
        Seq::empty()
    } else {
        let p = procs.last();
        let event = if added {
            ApplicationEvent::Added(p.pid)
        } else {
            ApplicationEvent::Removed(p.pid)
        };
        spec_deliveries(table, procs.drop_last(), added) + spec_deliveries_for(
            table.spec_subscribers(p.path),
            event,
        )
    }
}

impl ListenerTable {
    /// The subscribers registered under a path, as values; empty when the
    /// path is not registered.
    pub fn subscribers_of(&self, path: &String) -> (r: Vec<u128>)
        requires
            self.wf(),
        ensures
            r@ == self.spec_subscribers(path@),
    {
        match self.find_path(path) {
            Some(i) => {
                proof {
                    lemma_subscribers_of_entry(*self, i as int);
                }
                let entry = &self.entries[i];
                let mut r: Vec<u128> = Vec::new();
                let list_len = entry.1.len();
                let mut j: usize = 0;
                while j < list_len
                    invariant
                        list_len == entry.1@.len(),
                        0 <= j <= list_len,
                        r@ == entry.1@.subrange(0, j as int),
                    decreases list_len - j,
                {
                    r.push(entry.1[j]);
                    assert(r@ =~= entry.1@.subrange(0, j as int + 1));
                    j = j + 1;
                }
                assert(entry.1@.subrange(0, list_len as int) =~= entry.1@);
                r
            },
            None => Vec::new(),
        }
    }

    /// The deliveries one diff asks for: every added process's event to the
    /// subscribers under its path, then every removed process's, best-effort
    /// delivery itself being the channel owner's business.
    pub fn route_application_diff(&self, diff: &ApplicationDiff) -> (r: Vec<
        (u128, ApplicationEvent),
    >)
        requires
            self.wf(),
        ensures
            r@ == spec_deliveries(*self, diff.added.deep_view(), true) + spec_deliveries(
                *self,
                diff.removed.deep_view(),
                false,
            ),
    {
        let mut r: Vec<(u128, ApplicationEvent)> = Vec::new();
        self.route_processes(&diff.added, true, &mut r);
        let ghost after_added = r@;
        self.route_processes(&diff.removed, false, &mut r);
        assert(r@ =~= spec_deliveries(*self, diff.added.deep_view(), true) + spec_deliveries(
            *self,
            diff.removed.deep_view(),
            false,
        ));
        r
    }

    /// Appends the deliveries for one list of transitions.
    fn route_processes(
        &self,
        procs: &Vec<ApplicationProcess>,
        added: bool,
        out: &mut Vec<(u128, ApplicationEvent)>,
    )
        requires
            self.wf(),
        ensures
            final(out)@ == old(out)@ + spec_deliveries(*self, procs.deep_view(), added),
    {
        let procs_len = procs.len();
        let mut i: usize = 0;
        while i < procs_len
            invariant
                self.wf(),
                procs_len == procs@.len(),
                0 <= i <= procs_len,
                out@ == old(out)@ + spec_deliveries(
                    *self,
                    procs.deep_view().subrange(0, i as int),
                    added,
                ),
            decreases procs_len - i,
        {
            let ghost prefix = procs.deep_view().subrange(0, i as int);
            let ghost next_prefix = procs.deep_view().subrange(0, i as int + 1);
            assert(next_prefix.drop_last() =~= prefix);
            assert(next_prefix.last() == procs.deep_view()[i as int]);
            let p = &procs[i];
            assert(p.deep_view() == procs.deep_view()[i as int]);
            let event = if added {
                ApplicationEvent::Added(p.pid)
            } else {
                ApplicationEvent::Removed(p.pid)
            };
            let subscribers = self.subscribers_of(&p.path);
            let ghost out_before = out@;
            let subscribers_len = subscribers.len();
            let mut j: usize = 0;
            while j < subscribers_len
                invariant
                    subscribers_len == subscribers@.len(),
                    0 <= j <= subscribers_len,
                    out@ == out_before + subscribers@.subrange(0, j as int).map_values(
                        |s: u128| (s, event),
                    ),
                decreases subscribers_len - j,
            {
                out.push((subscribers[j], event));
                assert(out@ =~= out_before + subscribers@.subrange(0, j as int + 1).map_values(
                    |s: u128| (s, event),
                ));
                j = j + 1;
            }
            assert(subscribers@.subrange(0, subscribers_len as int) =~= subscribers@);
            assert(out@ =~= old(out)@ + spec_deliveries(*self, next_prefix, added));
            i = i + 1;
        }
        assert(procs.deep_view().subrange(0, procs_len as int) =~= procs.deep_view());
    }
}

/// Two tables with equal contents route every path alike.
proof fn lemma_subscribers_frame(a: ListenerTable, b: ListenerTable, path: Seq<char>)
    requires
        a.v() == b.v(),
    ensures
        forall|p: Seq<char>| #[trigger] a.spec_subscribers(p) == b.spec_subscribers(p),
{
    assert forall|p: Seq<char>| #[trigger] a.spec_subscribers(p) == b.spec_subscribers(p) by {
        if a.spec_has_path(p) {
            assert(b.spec_has_path(p));
        }
        if b.spec_has_path(p) {
            assert(a.spec_has_path(p));
        }
    }
}

/// In a well-formed table, the subscribers of the path at entry `i` are that
/// entry's list.
proof fn lemma_subscribers_of_entry(t: ListenerTable, i: int)
    requires
        t.wf(),
        0 <= i < t.v().len(),
    ensures
        t.spec_subscribers(t.v()[i].0) == t.v()[i].1,
{
    assert(t.spec_has_path(t.v()[i].0));
    let k = choose|k: int| 0 <= k < t.v().len() && #[trigger] t.v()[k].0 == t.v()[i].0;
    if k != i {
        assert(t.v()[k].0 != t.v()[i].0);
    }
}

proof fn lemma_listen_update(
    a: ListenerTable,
    b: ListenerTable,
    i: int,
    path: Seq<char>,
    subscriber: u128,
)
    requires
        a.wf(),
        0 <= i < a.v().len(),
        a.v()[i].0 == path,
        !a.v()[i].1.contains(subscriber),
        b.v() == a.v().update(i, (path, a.v()[i].1.push(subscriber))),
    ensures
        b.wf(),
        b.spec_has_path(path),
        b.spec_subscribers(path).contains(subscriber),
        forall|p: Seq<char>|
            p != path ==> #[trigger] b.spec_subscribers(p) == a.spec_subscribers(p),
        forall|s: u128|
            s != subscriber ==> (#[trigger] b.spec_subscribers(path).contains(s) <==> a
                .spec_subscribers(path).contains(s)),
{
    assert(b.wf()) by {
        assert(forall|x: int|
            0 <= x < b.v().len() && x != i ==> b.v()[x] == a.v()[x]);
    }
    assert(b.spec_has_path(path)) by {
        assert(b.v()[i].0 == path);
    }
    lemma_subscribers_of_entry(b, i);
    lemma_subscribers_of_entry(a, i);
    assert(b.spec_subscribers(path)[a.v()[i].1.len() as int] == subscriber);
    assert forall|p: Seq<char>|
        p != path implies #[trigger] b.spec_subscribers(p) == a.spec_subscribers(p) by {
        if a.spec_has_path(p) {
            let k = choose|k: int| 0 <= k < a.v().len() && #[trigger] a.v()[k].0 == p;
            assert(k != i);
            assert(b.v()[k] == a.v()[k]);
            lemma_subscribers_of_entry(a, k);
            lemma_subscribers_of_entry(b, k);
        } else {
            assert(!b.spec_has_path(p)) by {
                if b.spec_has_path(p) {
                    let k = choose|k: int| 0 <= k < b.v().len() && #[trigger] b.v()[k].0 == p;
                    assert(k != i);
                    assert(a.v()[k].0 == p);
                }
            }
        }
    }
    assert forall|s: u128|
        s != subscriber implies (#[trigger] b.spec_subscribers(path).contains(s) <==> a
        .spec_subscribers(path).contains(s)) by {
        let bs = b.spec_subscribers(path);
        let as_ = a.spec_subscribers(path);
        assert(bs == as_.push(subscriber));
        if bs.contains(s) {
            let k = choose|k: int| 0 <= k < bs.len() && bs[k] == s;
            assert(k < as_.len());
            assert(as_[k] == s);
        }
        if as_.contains(s) {
            let k = choose|k: int| 0 <= k < as_.len() && as_[k] == s;
            assert(bs[k] == s);
        }
    }
}

proof fn lemma_listen_push(a: ListenerTable, b: ListenerTable, subscriber: u128)
    requires
        a.wf(),
        b.v().len() == a.v().len() + 1,
        b.v().drop_last() == a.v(),
        b.v().last().1 == seq![subscriber],
        !a.spec_has_path(b.v().last().0),
    ensures
        b.wf(),
        b.spec_has_path(b.v().last().0),
        b.spec_subscribers(b.v().last().0).contains(subscriber),
        forall|p: Seq<char>|
            p != b.v().last().0 ==> #[trigger] b.spec_subscribers(p) == a.spec_subscribers(p),
        forall|s: u128|
            s != subscriber ==> (#[trigger] b.spec_subscribers(b.v().last().0).contains(s) <==> a
                .spec_subscribers(b.v().last().0).contains(s)),
{
    let n = a.v().len() as int;
    let path = b.v().last().0;
    assert(forall|x: int| 0 <= x < n ==> #[trigger] b.v()[x] == a.v()[x]);
    assert(b.wf()) by {
        assert forall|x: int, y: int| 0 <= x < y < b.v().len() implies #[trigger] b.v()[x].0
            != #[trigger] b.v()[y].0 by {
            if y == n {
                assert(b.v()[x] == a.v()[x]);
                if b.v()[x].0 == path {
                    assert(a.spec_has_path(path));
                }
            }
        }
        assert(b.v()[n].1.len() == 1);
    }
    assert(b.spec_has_path(path)) by {
        assert(b.v()[n].0 == path);
    }
    lemma_subscribers_of_entry(b, n);
    assert(b.spec_subscribers(path)[0] == subscriber);
    assert forall|p: Seq<char>|
        p != path implies #[trigger] b.spec_subscribers(p) == a.spec_subscribers(p) by {
        if a.spec_has_path(p) {
            let k = choose|k: int| 0 <= k < a.v().len() && #[trigger] a.v()[k].0 == p;
            assert(b.v()[k] == a.v()[k]);
            lemma_subscribers_of_entry(a, k);
            lemma_subscribers_of_entry(b, k);
        } else {
            assert(!b.spec_has_path(p)) by {
                if b.spec_has_path(p) {
                    let k = choose|k: int| 0 <= k < b.v().len() && #[trigger] b.v()[k].0 == p;
                    assert(k != n);
                    assert(a.v()[k].0 == p);
                }
            }
        }
    }
    assert forall|s: u128|
        s != subscriber implies (#[trigger] b.spec_subscribers(path).contains(s) <==> a
        .spec_subscribers(path).contains(s)) by {
        assert(b.spec_subscribers(path) == seq![subscriber]);
        assert(a.spec_subscribers(path) == Seq::<u128>::empty());
        if b.spec_subscribers(path).contains(s) {
            let k = choose|k: int| 0 <= k < 1 && b.spec_subscribers(path)[k] == s;
            assert(s == subscriber);
        }
    }
}

proof fn lemma_unlisten_update(
    a: ListenerTable,
    b: ListenerTable,
    i: int,
    path: Seq<char>,
    subscriber: u128,
    j: int,
)
    requires
        a.wf(),
        0 <= i < a.v().len(),
        a.v()[i].0 == path,
        0 <= j < a.v()[i].1.len(),
        a.v()[i].1[j] == subscriber,
        a.v()[i].1.remove(j).len() > 0,
        b.v() == a.v().update(i, (path, a.v()[i].1.remove(j))),
    ensures
        b.wf(),
        a.spec_subscribers(path).contains(subscriber),
        !b.spec_subscribers(path).contains(subscriber),
        forall|p: Seq<char>|
            p != path ==> #[trigger] b.spec_subscribers(p) == a.spec_subscribers(p),
        forall|s: u128|
            s != subscriber ==> (#[trigger] b.spec_subscribers(path).contains(s) <==> a
                .spec_subscribers(path).contains(s)),
{
    let old_list = a.v()[i].1;
    let new_list = old_list.remove(j);
    assert(forall|x: int| 0 <= x < b.v().len() && x != i ==> b.v()[x] == a.v()[x]);
    assert(b.wf()) by {
        assert forall|x: int, s: int, t: int|
            0 <= x < b.v().len() && 0 <= s < t < b.v()[x].1.len() implies #[trigger] b.v()[x].1[s]
            != #[trigger] b.v()[x].1[t] by {
            if x == i {
                assert(b.v()[x].1 == new_list);
                assert(new_list[s] == if s < j {
                    old_list[s]
                } else {
                    old_list[s + 1]
                });
                assert(new_list[t] == if t < j {
                    old_list[t]
                } else {
                    old_list[t + 1]
                });
            }
        }
    }
    lemma_subscribers_of_entry(a, i);
    lemma_subscribers_of_entry(b, i);
    assert(a.spec_subscribers(path).contains(subscriber)) by {
        assert(a.spec_subscribers(path)[j] == subscriber);
    }
    assert(!b.spec_subscribers(path).contains(subscriber)) by {
        if b.spec_subscribers(path).contains(subscriber) {
            let k = choose|k: int| 0 <= k < new_list.len() && new_list[k] == subscriber;
            assert(new_list[k] == if k < j {
                old_list[k]
            } else {
                old_list[k + 1]
            });
            if k < j {
                assert(old_list[k] == old_list[j]);
            } else {
                assert(old_list[k + 1] == old_list[j]);
            }
        }
    }
    assert forall|p: Seq<char>|
        p != path implies #[trigger] b.spec_subscribers(p) == a.spec_subscribers(p) by {
        if a.spec_has_path(p) {
            let k = choose|k: int| 0 <= k < a.v().len() && #[trigger] a.v()[k].0 == p;
            assert(k != i);
            assert(b.v()[k] == a.v()[k]);
            lemma_subscribers_of_entry(a, k);
            lemma_subscribers_of_entry(b, k);
        } else {
            assert(!b.spec_has_path(p)) by {
                if b.spec_has_path(p) {
                    let k = choose|k: int| 0 <= k < b.v().len() && #[trigger] b.v()[k].0 == p;
                    assert(k != i);
                    assert(a.v()[k].0 == p);
                }
            }
        }
    }
    assert forall|s: u128|
        s != subscriber implies (#[trigger] b.spec_subscribers(path).contains(s) <==> a
        .spec_subscribers(path).contains(s)) by {
        if new_list.contains(s) {
            let k = choose|k: int| 0 <= k < new_list.len() && new_list[k] == s;
            assert(new_list[k] == if k < j {
                old_list[k]
            } else {
                old_list[k + 1]
            });
            if k < j {
                assert(old_list.contains(s)) by {
                    assert(old_list[k] == s);
                }
            } else {
                assert(old_list.contains(s)) by {
                    assert(old_list[k + 1] == s);
                }
            }
        }
        if old_list.contains(s) {
            let k = choose|k: int| 0 <= k < old_list.len() && old_list[k] == s;
            assert(k != j);
            if k < j {
                assert(new_list[k] == s);
            } else {
                assert(new_list[k - 1] == old_list[k]);
            }
        }
    }
}

proof fn lemma_unlisten_remove_entry(
    a: ListenerTable,
    b: ListenerTable,
    i: int,
    path: Seq<char>,
    subscriber: u128,
    j: int,
)
    requires
        a.wf(),
        0 <= i < a.v().len(),
        a.v()[i].0 == path,
        0 <= j < a.v()[i].1.len(),
        a.v()[i].1[j] == subscriber,
        a.v()[i].1.remove(j).len() == 0,
        b.v() == a.v().remove(i),
    ensures
        b.wf(),
        a.spec_subscribers(path).contains(subscriber),
        !b.spec_subscribers(path).contains(subscriber),
        forall|p: Seq<char>|
            p != path ==> #[trigger] b.spec_subscribers(p) == a.spec_subscribers(p),
        forall|s: u128|
            s != subscriber ==> (#[trigger] b.spec_subscribers(path).contains(s) <==> a
                .spec_subscribers(path).contains(s)),
{
    assert(a.v()[i].1.len() == 1);
    assert(a.v()[i].1 =~= seq![subscriber]);
    assert(forall|x: int|
        0 <= x < b.v().len() ==> #[trigger] b.v()[x] == (if x < i {
            a.v()[x]
        } else {
            a.v()[x + 1]
        }));
    assert(b.wf());
    lemma_subscribers_of_entry(a, i);
    assert(a.spec_subscribers(path).contains(subscriber)) by {
        assert(a.spec_subscribers(path)[0] == subscriber);
    }
    assert(!b.spec_has_path(path)) by {
        if b.spec_has_path(path) {
            let k = choose|k: int| 0 <= k < b.v().len() && #[trigger] b.v()[k].0 == path;
            if k < i {
                assert(a.v()[k].0 == path);
            } else {
                assert(a.v()[k + 1].0 == path);
            }
        }
    }
    assert forall|p: Seq<char>|
        p != path implies #[trigger] b.spec_subscribers(p) == a.spec_subscribers(p) by {
        if a.spec_has_path(p) {
            let k = choose|k: int| 0 <= k < a.v().len() && #[trigger] a.v()[k].0 == p;
            assert(k != i);
            if k < i {
                assert(b.v()[k] == a.v()[k]);
                lemma_subscribers_of_entry(a, k);
                lemma_subscribers_of_entry(b, k);
            } else {
                assert(b.v()[k - 1] == a.v()[k]);
                lemma_subscribers_of_entry(a, k);
                lemma_subscribers_of_entry(b, k - 1);
            }
        } else {
            assert(!b.spec_has_path(p)) by {
                if b.spec_has_path(p) {
                    let k = choose|k: int| 0 <= k < b.v().len() && #[trigger] b.v()[k].0 == p;
                    if k < i {
                        assert(a.v()[k].0 == p);
                    } else {
                        assert(a.v()[k + 1].0 == p);
                    }
                }
            }
        }
    }
    assert forall|s: u128|
        s != subscriber implies (#[trigger] b.spec_subscribers(path).contains(s) <==> a
        .spec_subscribers(path).contains(s)) by {
        assert(b.spec_subscribers(path) == Seq::<u128>::empty());
        if a.spec_subscribers(path).contains(s) {
            let k = choose|k: int|
                0 <= k < a.spec_subscribers(path).len() && a.spec_subscribers(path)[k] == s;
            assert(s == subscriber);
        }
    }
}

} // verus!
