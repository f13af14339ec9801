//! Which windows and processes a stash may touch, and how a recorded process
//! is recognised again.

use vstd::prelude::*;

use crate::text::{
    ascii_lower, chars_eq_ignore_ascii_case, chars_of, contains_chars, eq_ignore_ascii_case, has_substring,
    to_lowercase, unicode_lowercase,
};

verus! {

broadcast use vstd::string::group_string_axioms;

/// System surfaces that are never stashed, matched loosely by window title.
pub const TITLE_ALLOWLIST: [&'static str; 2] = ["Task Manager", "Windows Security"];

/// Executables whose suspension would freeze the Windows shell, matched by
/// file name.
pub const EXE_BLOCKLIST: [&'static str; 1] = ["explorer.exe"];

/// `title`, lower-cased, contains one of the allow-listed titles, lower-cased.
pub open spec fn allowlisted_title(title: Seq<char>) -> bool {
    exists|i: int|
        0 <= i < TITLE_ALLOWLIST@.len() && #[trigger] has_substring(
            unicode_lowercase(title),
            unicode_lowercase(TITLE_ALLOWLIST@[i]@),
        )
}

/// `exe` equals one of the block-listed executable names up to ASCII case.
pub open spec fn blocklisted_exe(exe: Seq<char>) -> bool {
    exists|i: int|
        0 <= i < EXE_BLOCKLIST@.len() && #[trigger] eq_ignore_ascii_case(exe, EXE_BLOCKLIST@[i]@)
}

/// True if `title` loosely (case-insensitive substring) matches one of the
/// always-visible system surfaces that are never stashed.
pub fn is_allowlisted_title(title: &str) -> (b: bool)
    ensures
        b == allowlisted_title(title@),
{
    let lower = to_lowercase(title);
    let hay = chars_of(lower.as_str());
    let n = TITLE_ALLOWLIST.len();
    let mut i: usize = 0;
    while i < n
        invariant
            i <= n,
            n == TITLE_ALLOWLIST@.len(),
            hay@ == unicode_lowercase(title@),
            forall|k: int|
                0 <= k < i ==> !#[trigger] has_substring(
                    unicode_lowercase(title@),
                    unicode_lowercase(TITLE_ALLOWLIST@[k]@),
                ),
        decreases n - i,
    {
        let allowed = to_lowercase(TITLE_ALLOWLIST[i]);
        let needle = chars_of(allowed.as_str());
        if contains_chars(hay.as_slice(), needle.as_slice()) {
            return true;
        }
        i = i + 1;
    }
    false
}

/// True if `exe` (a bare file name, e.g. "explorer.exe") is one that must
/// never be suspended: an exact match up to ASCII case.
pub fn is_blocklisted_exe(exe: &str) -> (b: bool)
    ensures
        b == blocklisted_exe(exe@),
{
    let name = chars_of(exe);
    let n = EXE_BLOCKLIST.len();
    let mut i: usize = 0;
    while i < n
        invariant
            i <= n,
            n == EXE_BLOCKLIST@.len(),
            name@ == exe@,
            forall|k: int| 0 <= k < i ==> !#[trigger] eq_ignore_ascii_case(exe@, EXE_BLOCKLIST@[k]@),
        decreases n - i,
    {
        let blocked = chars_of(EXE_BLOCKLIST[i]);
        if chars_eq_ignore_ascii_case(name.as_slice(), blocked.as_slice()) {
            return true;
        }
        i = i + 1;
    }
    false
}

/// Whether the process now behind a pid is the one recorded with
/// `recorded_start_time`, given `current_start_time`, the creation time that
/// the pid's process reports now (`None` if it cannot be queried, e.g. it has
/// exited). A zero recorded time comes from records written before start
/// times were kept: for those, a live process is enough.
pub open spec fn same_process(current_start_time: Option<u64>, recorded_start_time: u64) -> bool {
    match current_start_time {
        Some(current) => recorded_start_time == 0 || current == recorded_start_time,
        None => false,
    }
}

/// True if the process behind a pid is still the exact one that was stashed,
/// rather than an unrelated process that was later given the same pid.
/// `current_start_time` is the pid's creation time as the system reports it
/// now, `None` when the process cannot be queried.
pub fn is_same_process(current_start_time: Option<u64>, recorded_start_time: u64) -> (b: bool)
    ensures
        b == same_process(current_start_time, recorded_start_time),
{
    match current_start_time {
        Some(current) => recorded_start_time == 0 || current == recorded_start_time,
        None => false,
    }
}

/// A FILETIME's two halves as one count of 100 ns ticks.
pub fn filetime_ticks(high: u32, low: u32) -> (t: u64)
    ensures
        t == high as nat * 0x1_0000_0000 + low as nat,
{
    let h: u64 = high as u64;
    let l: u64 = low as u64;
    let t = (h << 32u64) | l;
    assert(t == h * 0x1_0000_0000 + l) by (bit_vector)
        requires
            h < 0x1_0000_0000,
            l < 0x1_0000_0000,
            t == (h << 32u64) | l,
    ;
    t
}

/// Whether an enumerated top-level window is one the stash considers: it has
/// a title, is visible, and is not pinned to the exact screen origin (such
/// windows are typically off-screen shell or host windows).
pub open spec fn listed_window(title: Seq<char>, visible: bool, left: i32, top: i32) -> bool {
    title.len() > 0 && visible && (left != 0 || top != 0)
}

/// Whether an enumerated top-level window is one the stash considers.
pub fn window_is_listed(title: &str, visible: bool, left: i32, top: i32) -> (b: bool)
    ensures
        b == listed_window(title@, visible, left, top),
{
    !title.is_empty() && visible && (left != 0 || top != 0)
}

/// Whether a listed window passes the checks made before its process is
/// looked at: its owner is known (pid 0 means it could not be identified),
/// it is not this process's own window, and its title is not allow-listed.
pub open spec fn window_admitted(pid: u32, own_pid: u32, title: Seq<char>) -> bool {
    pid != 0 && pid != own_pid && !allowlisted_title(title)
}

/// Whether a listed window passes the checks made before its process is
/// looked at.
pub fn admits_window(pid: u32, own_pid: u32, title: &str) -> (b: bool)
    ensures
        b == window_admitted(pid, own_pid, title@),
{
    if pid == 0 || pid == own_pid {
        return false;
    }
    !is_allowlisted_title(title)
}

/// Whether a window's process may be suspended given its executable's file
/// name: a block-listed name excludes it; an unknown name (the process could
/// not be queried) does not.
pub open spec fn exe_admitted(exe: Option<Seq<char>>) -> bool {
    match exe {
        Some(name) => !blocklisted_exe(name),
        None => true,
    }
}

/// The view of an optional string.
pub open spec fn opt_view(s: Option<String>) -> Option<Seq<char>> {
    match s {
        Some(t) => Some(t@),
        None => None,
    }
}

/// Whether a window's process may be suspended given its executable's file
/// name, `None` when that name could not be read.
pub fn admits_exe(exe: &Option<String>) -> (b: bool)
    ensures
        b == exe_admitted(opt_view(*exe)),
{
    match exe {
        Some(name) => !is_blocklisted_exe(name.as_str()),
        None => true,
    }
}

/// The block list ignores ASCII case: two names equal up to ASCII case are
/// either both blocked or both not.
pub proof fn blocklist_ignores_ascii_case(a: Seq<char>, b: Seq<char>)
    requires
        eq_ignore_ascii_case(a, b),
    ensures
        blocklisted_exe(a) == blocklisted_exe(b),
{
    if blocklisted_exe(a) {
        let i = choose|i: int|
            0 <= i < EXE_BLOCKLIST@.len() && #[trigger] eq_ignore_ascii_case(a, EXE_BLOCKLIST@[i]@);
        let t = EXE_BLOCKLIST@[i]@;
        assert forall|k: int| 0 <= k < b.len() implies ascii_lower(#[trigger] b[k]) == ascii_lower(
            t[k],
        ) by {
            assert(ascii_lower(a[k]) == ascii_lower(b[k]));
            assert(ascii_lower(a[k]) == ascii_lower(t[k]));
        }
        assert(eq_ignore_ascii_case(b, t));
    }
    if blocklisted_exe(b) {
        let i = choose|i: int|
            0 <= i < EXE_BLOCKLIST@.len() && #[trigger] eq_ignore_ascii_case(b, EXE_BLOCKLIST@[i]@);
        let t = EXE_BLOCKLIST@[i]@;
        assert forall|k: int| 0 <= k < a.len() implies ascii_lower(#[trigger] a[k]) == ascii_lower(
            t[k],
        ) by {
            assert(ascii_lower(a[k]) == ascii_lower(b[k]));
            assert(ascii_lower(b[k]) == ascii_lower(t[k]));
        }
        assert(eq_ignore_ascii_case(a, t));
    }
}

/// A pid that now belongs to a process started at another time is never
/// taken for the recorded process (unless the record predates start times),
/// and neither is a pid whose process cannot be queried.
pub proof fn recycled_or_gone_process_is_not_resumed(current: Option<u64>, recorded: u64)
    requires
        current is None || (recorded != 0 && current != Some(recorded)),
    ensures
        !same_process(current, recorded),
{
}

/// A window of this process, or of an unidentified owner, is never admitted.
pub proof fn own_and_unknown_windows_are_never_admitted(pid: u32, own_pid: u32, title: Seq<char>)
    requires
        pid == 0 || pid == own_pid,
    ensures
        !window_admitted(pid, own_pid, title),
{
}

/// A window with a known owner other than this process is refused by title
/// exactly when its lower case contains, as a contiguous run, the lower case
/// of "Task Manager" or of "Windows Security".
pub proof fn windows_are_refused_by_lowercase_title_substring(pid: u32, own_pid: u32, title: Seq<char>)
    requires
        pid != 0,
        pid != own_pid,
    ensures
        window_admitted(pid, own_pid, title) == !(
            (exists|i: int|
                0 <= i && i + unicode_lowercase("Task Manager"@).len() <= unicode_lowercase(title).len()
                    && #[trigger] unicode_lowercase(title).subrange(
                    i,
                    i + unicode_lowercase("Task Manager"@).len(),
                ) == unicode_lowercase("Task Manager"@))
            || (exists|i: int|
                0 <= i && i + unicode_lowercase("Windows Security"@).len() <= unicode_lowercase(
                    title,
                ).len() && #[trigger] unicode_lowercase(title).subrange(
                    i,
                    i + unicode_lowercase("Windows Security"@).len(),
                ) == unicode_lowercase("Windows Security"@))
        ),
{
    let lt = unicode_lowercase(title);
    assert(TITLE_ALLOWLIST@.len() == 2);
    assert(TITLE_ALLOWLIST@[0]@ == "Task Manager"@);
    assert(TITLE_ALLOWLIST@[1]@ == "Windows Security"@);
    if allowlisted_title(title) {
        let i = choose|i: int|
            0 <= i < TITLE_ALLOWLIST@.len() && #[trigger] has_substring(
                lt,
                unicode_lowercase(TITLE_ALLOWLIST@[i]@),
            );
        assert(i == 0 || i == 1);
    } else {
        assert(!has_substring(lt, unicode_lowercase(TITLE_ALLOWLIST@[0]@)));
        assert(!has_substring(lt, unicode_lowercase(TITLE_ALLOWLIST@[1]@)));
    }
}

/// A recorded process is recognised exactly when its pid's process can be
/// queried and either started at the recorded time or the record predates
/// start times (0).
pub proof fn same_process_exactly(current: Option<u64>, recorded: u64)
    ensures
        current is None ==> !same_process(current, recorded),
        current matches Some(c) ==> (same_process(current, recorded) <==> (recorded == 0 || c == recorded)),
{
}

} // verus!
