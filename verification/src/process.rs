//! The outcomes of suspending and resuming a whole process through ntdll's
//! `NtSuspendProcess` / `NtResumeProcess`, as results with readable reasons.

use vstd::prelude::*;

use crate::text::{append_decimal, append_hex8, append_str, decimal, hex_fixed, string_from_chars};

verus! {

broadcast use vstd::string::group_string_axioms;

/// The ntdll entry point that suspends (`suspend`) or resumes a process.
pub open spec fn entry_label(suspend: bool) -> Seq<char> {
    if suspend {
        "NtSuspendProcess"@
    } else {
        "NtResumeProcess"@
    }
}

/// The name of the ntdll entry point that suspends (`suspend`) or resumes a
/// process; it also labels that call's failures.
pub fn nt_entry_name(suspend: bool) -> (name: &'static str)
    ensures
        name@ == entry_label(suspend),
{
    if suspend {
        "NtSuspendProcess"
    } else {
        "NtResumeProcess"
    }
}

/// The reason given when the process `pid` cannot be opened; `cause` is the
/// system's description of the failure.
pub open spec fn open_failure_message(pid: u32, cause: Seq<char>) -> Seq<char> {
    "OpenProcess("@ + decimal(pid as nat) + ") failed: "@ + cause
}

/// The reason given when the entry point cannot be found in ntdll.dll.
pub open spec fn unresolved_message(suspend: bool) -> Seq<char> {
    "could not resolve "@ + entry_label(suspend) + " in ntdll.dll"@
}

/// The reason given when the entry point reports failure for `pid`: the
/// status printed as eight upper-case hexadecimal digits of its 32-bit two's
/// complement form.
pub open spec fn status_failure_message(pid: u32, suspend: bool, status: i32) -> Seq<char> {
    entry_label(suspend) + " failed for pid "@ + decimal(pid as nat) + ": NTSTATUS 0x"@
        + hex_fixed((status as u32) as nat, 8)
}

/// The reason given when the process `pid` cannot be opened.
pub fn open_process_failure(pid: u32, cause: &str) -> (m: String)
    ensures
        m@ == open_failure_message(pid, cause@),
{
    let mut v: Vec<char> = Vec::new();
    append_str(&mut v, "OpenProcess(");
    append_decimal(&mut v, pid);
    append_str(&mut v, ") failed: ");
    append_str(&mut v, cause);
    string_from_chars(v.as_slice())
}

/// The reason given when the entry point cannot be resolved.
pub fn unresolved_entry(suspend: bool) -> (m: String)
    ensures
        m@ == unresolved_message(suspend),
{
    let mut v: Vec<char> = Vec::new();
    append_str(&mut v, "could not resolve ");
    append_str(&mut v, nt_entry_name(suspend));
    append_str(&mut v, " in ntdll.dll");
    string_from_chars(v.as_slice())
}

/// The outcome of the entry point's call on `pid`, given the `NTSTATUS` it
/// returned: success exactly when the status is not negative (what
/// `NTSTATUS::is_ok` tests), otherwise the reason, naming the call, the pid
/// and the status.
pub fn nt_status_outcome(pid: u32, suspend: bool, status: i32) -> (r: Result<(), String>)
    ensures
        r is Ok <==> status >= 0,
        match r {
            Ok(()) => true,
            Err(m) => m@ == status_failure_message(pid, suspend, status),
        },
{
    if status >= 0 {
        Ok(())
    } else {
        let mut v: Vec<char> = Vec::new();
        append_str(&mut v, nt_entry_name(suspend));
        append_str(&mut v, " failed for pid ");
        append_decimal(&mut v, pid);
        append_str(&mut v, ": NTSTATUS 0x");
        append_hex8(&mut v, status as u32);
        Err(string_from_chars(v.as_slice()))
    }
}

} // verus!
