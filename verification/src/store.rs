//! The stashed-window store and its crash-recovery mirror.

use vstd::prelude::*;

verus! {

/// A window that was stashed: the window to show again (its raw handle
/// value) and the process to resume. `start_time` is the process's creation
/// time, which tells it apart from a later process that was given the same
/// pid; `title` is the cleaned window title, kept for display only.
#[derive(Clone)]
pub struct Handle {
    pub hwnd: isize,
    pub pid: u32,
    pub start_time: u64,
    pub title: String,
}

/// What a `Handle` holds, as plain values.
pub struct HandleView {
    pub hwnd: isize,
    pub pid: u32,
    pub start_time: u64,
    pub title: Seq<char>,
}

impl View for Handle {
    type V = HandleView;

    open spec fn view(&self) -> HandleView {
        HandleView { hwnd: self.hwnd, pid: self.pid, start_time: self.start_time, title: self.title@ }
    }
}

/// The views of a sequence of handles.
pub open spec fn handle_views(v: Seq<Handle>) -> Seq<HandleView> {
    v.map_values(|h: Handle| h@)
}

/// The store of stashed windows, in the order they were stashed.
pub struct Handles(pub Vec<Handle>);

impl View for Handles {
    type V = Seq<HandleView>;

    open spec fn view(&self) -> Seq<HandleView> {
        handle_views(self.0@)
    }
}

impl Handles {
    /// A store holding `entries`.
    pub fn new(entries: Vec<Handle>) -> (h: Handles)
        ensures
            h@ == handle_views(entries@),
    {
        Handles(entries)
    }

    /// The number of stashed windows.
    pub fn len(&self) -> (n: usize)
        ensures
            n == self@.len(),
    {
        self.0.len()
    }

    /// Whether nothing is stashed.
    pub fn is_empty(&self) -> (b: bool)
        ensures
            b == (self@.len() == 0),
    {
        self.0.len() == 0
    }
}

/// Draining a store hands out everything it held, in order, and leaves it
/// empty: the pair is (what is handed out, what is left).
pub open spec fn drained(store: Seq<HandleView>) -> (Seq<HandleView>, Seq<HandleView>) {
    (store, Seq::empty())
}

/// Pulls every handle out of the store, leaving it empty. Draining rather
/// than copying means a later stash/restore cycle can never resume a stale,
/// since-recycled pid or show a window that is no longer owned.
pub fn drain_handles(handles: &mut Handles) -> (out: Vec<Handle>)
    ensures
        (handle_views(out@), final(handles)@) == drained(old(handles)@),
{
    let mut out: Vec<Handle> = Vec::new();
    core::mem::swap(&mut out, &mut handles.0);
    proof {
        assert(handle_views(handles.0@) =~= Seq::<HandleView>::empty());
    }
    out
}

/// Draining twice: the second drain hands out nothing, whatever the store
/// held before the first.
pub proof fn drain_twice_yields_nothing(store: Seq<HandleView>)
    ensures
        drained(drained(store).1).0 == Seq::<HandleView>::empty(),
        drained(store).0 == store,
{
}

/// The on-disk form of a `Handle`, written every time a stash succeeds and
/// cleared every time a restore fully succeeds, so that a later run can find
/// and resume processes left suspended by a run that ended abnormally.
/// `start_time` is 0 in records written before start times were kept.
#[derive(Clone)]
pub struct PersistedHandle {
    pub pid: u32,
    pub hwnd: isize,
    pub start_time: u64,
    pub title: String,
}

/// What a `PersistedHandle` holds, as plain values.
pub struct PersistedView {
    pub pid: u32,
    pub hwnd: isize,
    pub start_time: u64,
    pub title: Seq<char>,
}

impl View for PersistedHandle {
    type V = PersistedView;

    open spec fn view(&self) -> PersistedView {
        PersistedView {
            pid: self.pid,
            hwnd: self.hwnd,
            start_time: self.start_time,
            title: self.title@,
        }
    }
}

/// The views of a sequence of records.
pub open spec fn persisted_views(v: Seq<PersistedHandle>) -> Seq<PersistedView> {
    v.map_values(|p: PersistedHandle| p@)
}

/// The record written for a stashed window: the same four values.
pub open spec fn persisted_of(h: HandleView) -> PersistedView {
    PersistedView { pid: h.pid, hwnd: h.hwnd, start_time: h.start_time, title: h.title }
}

/// The records written for a store: one per handle, in order.
pub open spec fn records_of(store: Seq<HandleView>) -> Seq<PersistedView> {
    store.map_values(|h: HandleView| persisted_of(h))
}

/// The crash-recovery records for the stashed windows, one per handle, in
/// order, each with the handle's pid, window, start time and title.
pub fn to_persisted(handles: &[Handle]) -> (records: Vec<PersistedHandle>)
    ensures
        persisted_views(records@) == records_of(handle_views(handles@)),
{
    let mut records: Vec<PersistedHandle> = Vec::new();
    let n = handles.len();
    let mut i: usize = 0;
    while i < n
        invariant
            i <= n,
            n == handles@.len(),
            persisted_views(records@) =~= records_of(handle_views(handles@.take(i as int))),
        decreases n - i,
    {
        let h = &handles[i];
        let ghost before = records@;
        records.push(
            PersistedHandle { pid: h.pid, hwnd: h.hwnd, start_time: h.start_time, title: h.title.clone() },
        );
        proof {
            assert(handles@.take(i + 1) == handles@.take(i as int).push(handles@[i as int]));
            assert(persisted_views(records@) =~= persisted_views(before).push(
                persisted_of(handles@[i as int]@),
            ));
            assert(records_of(handle_views(handles@.take(i + 1))) =~= records_of(
                handle_views(handles@.take(i as int)),
            ).push(persisted_of(handles@[i as int]@)));
        }
        i = i + 1;
    }
    proof {
        assert(handles@.take(n as int) == handles@);
    }
    records
}

} // verus!
