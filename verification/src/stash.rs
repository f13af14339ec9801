//! The decisions of a stash pass: which windows are taken, what is recorded
//! for each, and what the pass reports.

use vstd::prelude::*;

use crate::policy::{admits_exe, admits_window, exe_admitted, opt_view, window_admitted};
use crate::store::{handle_views, Handle, HandleView, Handles};
use crate::text::{
    after_first, after_first_is_after_the_first_occurrence, after_first_of_an_absent_char, chars_of, find_char, joined, skip_chars, string_from_chars, trim_chars, trimmed,
    views,
};

verus! {

broadcast use vstd::string::group_string_axioms;

/// A short label for a window title: for titles of the form
/// "Document — App" the part after the first em dash, otherwise the whole
/// title; trimmed of surrounding whitespace either way.
pub open spec fn cleaned_title(title: Seq<char>) -> Seq<char> {
    match after_first(title, '—') {
        Some(rest) => trimmed(rest),
        None => trimmed(title),
    }
}

/// Trims a window title to a short, human-friendly label: for titles of the
/// form "Document — App" it keeps the part after the em dash.
pub fn clean_title(title: &str) -> (r: String)
    ensures
        r@ == cleaned_title(title@),
{
    let v = chars_of(title);
    let t = match find_char(v.as_slice(), '—') {
        Some(i) => {
            assert(i < v.len());
            let rest = skip_chars(v.as_slice(), i + 1);
            trim_chars(rest.as_slice())
        },
        None => trim_chars(v.as_slice()),
    };
    string_from_chars(t.as_slice())
}

/// How many titles a stash report previews at most.
pub const PREVIEW_LIMIT: usize = 3;

/// The titles a report previews for the windows stashed so far: those of the
/// first three, in order.
pub open spec fn preview_of(stashed: Seq<HandleView>) -> Seq<Seq<char>> {
    let first = if stashed.len() <= PREVIEW_LIMIT {
        stashed
    } else {
        stashed.take(PREVIEW_LIMIT as int)
    };
    first.map_values(|h: HandleView| h.title)
}

/// The start time recorded for a stashed process: the one read before
/// suspending it, or 0 when it could not be read.
pub open spec fn recorded_start(start_time: Option<u64>) -> u64 {
    match start_time {
        Some(t) => t,
        None => 0,
    }
}

/// What a stash pass knows of a window whose process it may suspend.
pub struct CandidateView {
    pub hwnd: isize,
    pub pid: u32,
    pub own_pid: u32,
    pub title: Seq<char>,
    pub exe: Option<Seq<char>>,
}

/// A listed window that passed the checks made before its process is looked
/// at: its owner is known, it is not this process's own, and its title is
/// not allow-listed. Only `StashBatch::screen` makes one.
pub struct ScreenedWindow {
    hwnd: isize,
    pid: u32,
    own_pid: u32,
    title: String,
}

impl View for ScreenedWindow {
    type V = (isize, u32, u32, Seq<char>);

    closed spec fn view(&self) -> (isize, u32, u32, Seq<char>) {
        (self.hwnd, self.pid, self.own_pid, self.title@)
    }
}

impl ScreenedWindow {
    #[verifier::type_invariant]
    spec fn admitted(self) -> bool {
        window_admitted(self.pid, self.own_pid, self.title@)
    }

    /// The pid owning the window.
    pub fn pid(&self) -> (p: u32)
        ensures
            p == self@.1,
    {
        self.pid
    }

    /// The second check, on the window's executable file name (`None` when
    /// it could not be read): a block-listed executable ends the window's
    /// candidacy. A window that passes both checks is a candidate.
    pub fn check_exe(self, exe: Option<String>) -> (c: Option<Candidate>)
        ensures
            c is Some <==> exe_admitted(opt_view(exe)),
            c matches Some(k) ==> k@ == (CandidateView {
                hwnd: self@.0,
                pid: self@.1,
                own_pid: self@.2,
                title: self@.3,
                exe: opt_view(exe),
            }),
    {
        proof {
            use_type_invariant(&self);
        }
        if admits_exe(&exe) {
            let ScreenedWindow { hwnd, pid, own_pid, title } = self;
            Some(Candidate { hwnd, pid, own_pid, title, exe })
        } else {
            None
        }
    }
}

/// A window that passed every check, so its process may be suspended. Only
/// `ScreenedWindow::check_exe` makes one.
pub struct Candidate {
    hwnd: isize,
    pid: u32,
    own_pid: u32,
    title: String,
    exe: Option<String>,
}

impl View for Candidate {
    type V = CandidateView;

    closed spec fn view(&self) -> CandidateView {
        CandidateView {
            hwnd: self.hwnd,
            pid: self.pid,
            own_pid: self.own_pid,
            title: self.title@,
            exe: opt_view(self.exe),
        }
    }
}

impl Candidate {
    #[verifier::type_invariant]
    spec fn admitted(self) -> bool {
        window_admitted(self.pid, self.own_pid, self.title@) && exe_admitted(opt_view(self.exe))
    }

    /// The pid whose process is to be suspended.
    pub fn pid(&self) -> (p: u32)
        ensures
            p == self@.pid,
    {
        self.pid
    }

    /// The window to hide once the process is suspended.
    pub fn hwnd(&self) -> (h: isize)
        ensures
            h == self@.hwnd,
    {
        self.hwnd
    }
}

/// Every window of a pass was admitted: the `i`-th stashed window's raw
/// title and executable name are `admissions[i]`, its owner is known and is
/// not this process, its title is not allow-listed, its executable is not
/// block-listed, and it is recorded under its cleaned title.
pub open spec fn all_admitted(
    stashed: Seq<HandleView>,
    own_pid: u32,
    admissions: Seq<(Seq<char>, Option<Seq<char>>)>,
) -> bool {
    &&& admissions.len() == stashed.len()
    &&& forall|i: int|
        0 <= i < stashed.len() ==> {
            &&& window_admitted(#[trigger] stashed[i].pid, own_pid, admissions[i].0)
            &&& exe_admitted(admissions[i].1)
            &&& stashed[i].title == cleaned_title(admissions[i].0)
        }
}

/// One stash pass in progress: this process's pid, the windows stashed so
/// far, in order, with what admitted each, and the titles previewed in the
/// pass's report.
pub struct StashBatch {
    own_pid: u32,
    stashed: Vec<Handle>,
    admissions: Ghost<Seq<(Seq<char>, Option<Seq<char>>)>>,
    preview: Vec<String>,
}

impl StashBatch {
    /// The pid of the process making the pass.
    pub closed spec fn own_pid(&self) -> u32 {
        self.own_pid
    }

    /// The windows stashed so far in this pass.
    pub closed spec fn stashed(&self) -> Seq<HandleView> {
        handle_views(self.stashed@)
    }

    /// The raw title and executable name that admitted each stashed window.
    pub closed spec fn admissions(&self) -> Seq<(Seq<char>, Option<Seq<char>>)> {
        self.admissions@
    }

    /// The titles this pass's report previews so far.
    pub closed spec fn preview(&self) -> Seq<Seq<char>> {
        views(self.preview@)
    }

    /// The pass's invariant: every stashed window was admitted, and the
    /// preview holds the titles of the first stashed windows, at most three.
    pub open spec fn wf(&self) -> bool {
        &&& self.preview() == preview_of(self.stashed())
        &&& all_admitted(self.stashed(), self.own_pid(), self.admissions())
    }

    /// A pass by the process `own_pid` that has stashed nothing yet.
    pub fn new(own_pid: u32) -> (b: StashBatch)
        ensures
            b.own_pid() == own_pid,
            b.stashed() == Seq::<HandleView>::empty(),
            b.wf(),
    {
        let b = StashBatch {
            own_pid,
            stashed: Vec::new(),
            admissions: Ghost(Seq::empty()),
            preview: Vec::new(),
        };
        proof {
            assert(b.preview() =~= preview_of(b.stashed()));
        }
        b
    }

    /// The first check on a listed window: whether it is a window this pass
    /// may consider at all (see `window_admitted`).
    pub fn screen(&self, hwnd: isize, pid: u32, title: String) -> (w: Option<ScreenedWindow>)
        ensures
            w is Some <==> window_admitted(pid, self.own_pid(), title@),
            w matches Some(s) ==> s@ == (hwnd, pid, self.own_pid(), title@),
    {
        if admits_window(pid, self.own_pid, title.as_str()) {
            Some(ScreenedWindow { hwnd, pid, own_pid: self.own_pid, title })
        } else {
            None
        }
    }

    /// Accounts for a candidate whose process the pass tried to suspend.
    /// `suspended` is what the attempt returned, `start_time` the creation
    /// time read before it. Only when the suspension succeeded is the window
    /// recorded (with its cleaned title) and may it be hidden, so a window
    /// is never hidden while its process still runs. Returns whether to hide.
    pub fn record(
        &mut self,
        candidate: Candidate,
        start_time: Option<u64>,
        suspended: &Result<(), String>,
    ) -> (hide: bool)
        requires
            old(self).wf(),
            candidate@.own_pid == old(self).own_pid(),
        ensures
            final(self).wf(),
            final(self).own_pid() == old(self).own_pid(),
            hide == suspended is Ok,
            hide ==> final(self).stashed() == old(self).stashed().push(
                HandleView {
                    hwnd: candidate@.hwnd,
                    pid: candidate@.pid,
                    start_time: recorded_start(start_time),
                    title: cleaned_title(candidate@.title),
                },
            ),
            !hide ==> final(self).stashed() == old(self).stashed(),
    {
        proof {
            use_type_invariant(&candidate);
        }
        match suspended {
            Ok(()) => {
                let ghost cv = candidate@;
                let Candidate { hwnd, pid, own_pid: _, title: raw_title, exe: _ } = candidate;
                let title = clean_title(raw_title.as_str());
                let start = match start_time {
                    Some(t) => t,
                    None => 0,
                };
                let ghost old_stashed = self.stashed();
                let ghost old_preview = self.preview();
                let ghost old_adm = self.admissions();
                if self.preview.len() < PREVIEW_LIMIT {
                    self.preview.push(clean_title(raw_title.as_str()));
                }
                self.stashed.push(Handle { hwnd, pid, start_time: start, title });
                self.admissions = Ghost(old_adm.push((cv.title, cv.exe)));
                proof {
                    let new_h = HandleView {
                        hwnd,
                        pid,
                        start_time: recorded_start(start_time),
                        title: cleaned_title(cv.title),
                    };
                    assert(self.stashed() =~= old_stashed.push(new_h));
                    assert(old_preview.len() == if old_stashed.len() <= 3 {
                        old_stashed.len()
                    } else {
                        3
                    });
                    if old_stashed.len() < 3 {
                        assert(self.preview() =~= old_preview.push(cleaned_title(cv.title)));
                        assert(self.stashed().take(self.stashed().len() as int) == self.stashed());
                    } else {
                        assert(self.preview() =~= old_preview);
                        assert(self.stashed().take(3) =~= old_stashed.take(3));
                    }
                    assert(self.preview() =~= preview_of(self.stashed()));
                    assert forall|i: int| 0 <= i < self.stashed().len() implies {
                        &&& window_admitted(
                            #[trigger] self.stashed()[i].pid,
                            self.own_pid(),
                            self.admissions()[i].0,
                        )
                        &&& exe_admitted(self.admissions()[i].1)
                        &&& self.stashed()[i].title == cleaned_title(self.admissions()[i].0)
                    } by {
                        if i < old_stashed.len() {
                            assert(self.stashed()[i] == old_stashed[i]);
                            assert(self.admissions()[i] == old_adm[i]);
                        }
                    }
                }
                true
            },
            Err(_) => false,
        }
    }

    /// Ends the pass: the windows it stashed join the store, after those
    /// already there, and the report is the previewed titles joined by ", "
    /// with the number of processes suspended in this pass.
    pub fn finish(self, store: &mut Handles) -> (report: (String, usize))
        requires
            self.wf(),
        ensures
            final(store)@ == old(store)@ + self.stashed(),
            report.0@ == joined(preview_of(self.stashed()), ", "@),
            report.1 == self.stashed().len(),
    {
        let mut stashed = self.stashed;
        let count = stashed.len();
        let text = crate::text::join(&self.preview, ", ");
        let ghost added = handle_views(stashed@);
        let ghost before = store@;
        store.0.append(&mut stashed);
        proof {
            assert(store@ =~= before + added);
        }
        (text, count)
    }
}

/// A report previews at most three titles, and all of them while no more
/// than three windows were stashed.
pub proof fn preview_is_at_most_three(stashed: Seq<HandleView>)
    ensures
        preview_of(stashed).len() <= PREVIEW_LIMIT,
        stashed.len() <= PREVIEW_LIMIT ==> preview_of(stashed).len() == stashed.len(),
{
}

/// A title with no em dash is only trimmed: nothing else is cut from it.
pub proof fn title_without_em_dash_is_only_trimmed(title: Seq<char>)
    requires
        !title.contains('—'),
    ensures
        cleaned_title(title) == trimmed(title),
{
    after_first_of_an_absent_char(title, '—');
}

/// A title with an em dash keeps, trimmed, exactly what follows its first
/// em dash (at `k`), later em dashes included.
pub proof fn title_with_em_dash_keeps_what_follows_the_first(title: Seq<char>, k: int)
    requires
        0 <= k < title.len(),
        title[k] == '—',
        forall|j: int| 0 <= j < k ==> #[trigger] title[j] != '—',
    ensures
        cleaned_title(title) == trimmed(title.skip(k + 1)),
{
    after_first_is_after_the_first_occurrence(title, '—', k);
}

/// The start time recorded for a stashed process is exactly the one read
/// before suspending it, whole, and 0 when none could be read.
pub proof fn recorded_start_is_the_reading(t: u64)
    ensures
        recorded_start(Some(t)) == t,
        recorded_start(None) == 0u64,
{
}

/// A stash report previews the titles of the first stashed windows, in
/// order, at most three of them.
pub proof fn preview_is_the_first_titles(stashed: Seq<HandleView>)
    ensures
        preview_of(stashed).len() == if stashed.len() < 3 {
            stashed.len()
        } else {
            3
        },
        forall|i: int| 0 <= i < preview_of(stashed).len() ==> #[trigger] preview_of(stashed)[i] == stashed[i].title,
{
}

} // verus!
