use stash::capture::{encode_screenshot, primary_screen};
use stash::policy::{
    admits_exe, admits_window, filetime_ticks, is_allowlisted_title, is_blocklisted_exe,
    is_same_process, window_is_listed,
};
use stash::process::{nt_entry_name, nt_status_outcome, open_process_failure, unresolved_entry};
use stash::recovery::{orphan_report, settle_record_read, RecordRead, RestoreBatch};
use stash::stash::{clean_title, StashBatch};
use stash::store::{drain_handles, to_persisted, Handle, Handles, PersistedHandle};
use stash::text::file_name_of;
use stash::tray::{tray_menu_action, TrayAction};

#[test]
fn clean_title_keeps_part_after_em_dash() {
    assert_eq!(clean_title("readme.txt — Notepad"), "Notepad");
}

#[test]
fn clean_title_trims_surrounding_whitespace_after_split() {
    assert_eq!(clean_title("doc —   Notepad  "), "Notepad");
}

#[test]
fn clean_title_passes_through_titles_without_an_em_dash() {
    assert_eq!(clean_title("Calculator"), "Calculator");
    assert_eq!(clean_title("  Calculator  "), "Calculator");
}

#[test]
fn allowlisted_title_matches_are_case_and_substring_insensitive() {
    assert!(is_allowlisted_title("Task Manager"));
    assert!(is_allowlisted_title("task manager"));
    assert!(is_allowlisted_title("Windows Security - Virus & threat protection"));
    assert!(!is_allowlisted_title("Notepad"));
}

#[test]
fn blocklisted_exe_matches_are_case_insensitive_but_exact() {
    assert!(is_blocklisted_exe("explorer.exe"));
    assert!(is_blocklisted_exe("EXPLORER.EXE"));
    // Exact match only: a substring match would block unrelated executables
    // that merely contain "explorer" in their name.
    assert!(!is_blocklisted_exe("myexplorer.exe"));
    assert!(!is_blocklisted_exe("notepad.exe"));
}

fn fake_handle(pid: u32, title: &str) -> Handle {
    Handle {
        hwnd: pid as isize,
        pid,
        start_time: 0,
        title: title.to_string(),
    }
}

#[test]
fn drain_handles_empties_the_store_and_returns_every_entry_in_order() {
    let mut handles = Handles::new(vec![
        fake_handle(111, "Notepad"),
        fake_handle(222, "Calculator"),
    ]);

    let drained = drain_handles(&mut handles);

    assert_eq!(drained.len(), 2);
    assert_eq!(drained[0].pid, 111);
    assert_eq!(drained[1].pid, 222);
    assert!(handles.0.is_empty(), "drain must leave the store empty");
}

#[test]
fn drain_handles_on_an_empty_store_returns_empty() {
    let mut handles = Handles::new(Vec::new());
    let drained = drain_handles(&mut handles);
    assert!(drained.is_empty());
}

#[test]
fn a_second_drain_after_the_first_never_resees_old_entries() {
    let mut handles = Handles::new(vec![fake_handle(111, "Notepad")]);

    let first = drain_handles(&mut handles);
    let second = drain_handles(&mut handles);

    assert_eq!(first.len(), 1);
    assert!(second.is_empty());
}

// The creation time that a live process reports; its pid's current start
// time, as the system would hand it over.
const LIVE_START: u64 = 133_500_000_000_000_000;

#[test]
fn a_zero_start_time_falls_back_to_plain_liveness() {
    // A live process and a legacy record (start time 0) count as the same
    // process, while a mismatched non-zero timestamp does not.
    assert!(is_same_process(Some(LIVE_START), 0));
    assert!(!is_same_process(Some(LIVE_START), 1));
}

#[test]
fn a_matching_start_time_identifies_the_same_process() {
    let start = filetime_ticks((LIVE_START >> 32) as u32, LIVE_START as u32);

    assert!(start > 0);
    assert_eq!(start, LIVE_START);
    assert!(is_same_process(Some(LIVE_START), start));
}

#[test]
fn a_process_that_cannot_be_queried_is_never_the_same() {
    assert!(!is_same_process(None, 0));
    assert!(!is_same_process(None, LIVE_START));
}

#[test]
fn filetime_halves_combine_high_first() {
    assert_eq!(filetime_ticks(1, 2), 0x1_0000_0002);
    assert_eq!(filetime_ticks(0, 7), 7);
    assert_eq!(filetime_ticks(u32::MAX, u32::MAX), u64::MAX);
}

#[test]
fn clean_title_splits_at_the_first_em_dash_only() {
    assert_eq!(clean_title("a — b — c"), "b — c");
    assert_eq!(clean_title("—"), "");
    assert_eq!(clean_title("\u{3000}Paint\u{a0}\t"), "Paint");
    assert_eq!(clean_title(""), "");
}

#[test]
fn allowlist_lowercases_both_sides() {
    assert!(is_allowlisted_title("TASK MANAGER"));
    assert!(is_allowlisted_title("windows security"));
    assert!(!is_allowlisted_title("Task Managr"));
    assert!(!is_allowlisted_title(""));
}

#[test]
fn listed_windows_need_a_title_visibility_and_an_offset() {
    assert!(window_is_listed("Notepad", true, 10, 0));
    assert!(window_is_listed("Notepad", true, 0, -5));
    assert!(!window_is_listed("Notepad", true, 0, 0));
    assert!(!window_is_listed("Notepad", false, 10, 10));
    assert!(!window_is_listed("", true, 10, 10));
}

#[test]
fn own_unknown_and_allowlisted_windows_are_not_admitted() {
    assert!(admits_window(42, 7, "Notepad"));
    assert!(!admits_window(0, 7, "Notepad"));
    assert!(!admits_window(7, 7, "Notepad"));
    assert!(!admits_window(42, 7, "Task Manager"));
}

#[test]
fn blocklisted_executables_are_not_admitted_but_unknown_ones_are() {
    assert!(admits_exe(&Some("notepad.exe".to_string())));
    assert!(!admits_exe(&Some("Explorer.EXE".to_string())));
    assert!(admits_exe(&None));
}

#[test]
fn file_name_is_the_last_path_component() {
    assert_eq!(file_name_of("C:\\Windows\\explorer.exe"), "explorer.exe");
    assert_eq!(file_name_of("C:/Program Files/app.exe"), "app.exe");
    assert_eq!(file_name_of("plain.exe"), "plain.exe");
    assert_eq!(file_name_of("dir\\"), "");
    assert_eq!(file_name_of(""), "");
}

#[test]
fn nt_outcomes_name_the_call_pid_and_status() {
    assert_eq!(nt_entry_name(true), "NtSuspendProcess");
    assert_eq!(nt_entry_name(false), "NtResumeProcess");
    assert_eq!(nt_status_outcome(4242, true, 0), Ok(()));
    assert_eq!(nt_status_outcome(4242, false, 0x103), Ok(()));
    assert_eq!(
        nt_status_outcome(4242, true, 0xC000_0022u32 as i32),
        Err("NtSuspendProcess failed for pid 4242: NTSTATUS 0xC0000022".to_string())
    );
    assert_eq!(
        nt_status_outcome(0, false, -1),
        Err("NtResumeProcess failed for pid 0: NTSTATUS 0xFFFFFFFF".to_string())
    );
    assert_eq!(
        nt_status_outcome(u32::MAX, true, i32::MIN),
        Err("NtSuspendProcess failed for pid 4294967295: NTSTATUS 0x80000000".to_string())
    );
}

#[test]
fn open_and_resolve_failures_read_well() {
    assert_eq!(
        open_process_failure(17, "Access is denied."),
        "OpenProcess(17) failed: Access is denied."
    );
    assert_eq!(
        unresolved_entry(true),
        "could not resolve NtSuspendProcess in ntdll.dll"
    );
    assert_eq!(
        unresolved_entry(false),
        "could not resolve NtResumeProcess in ntdll.dll"
    );
}

#[test]
fn screenshots_are_standard_padded_base64() {
    assert_eq!(encode_screenshot(b""), "");
    assert_eq!(encode_screenshot(b"M"), "TQ==");
    assert_eq!(encode_screenshot(b"Ma"), "TWE=");
    assert_eq!(encode_screenshot(b"Man"), "TWFu");
    assert_eq!(encode_screenshot(&[0xfb, 0xff, 0xbf]), "+/+/");
    assert_eq!(encode_screenshot(b"hello world~"), "aGVsbG8gd29ybGR+");
}

#[test]
fn the_primary_screen_is_captured_or_none_is_reported() {
    assert_eq!(primary_screen(&[false, true, false]), Ok(1));
    assert_eq!(primary_screen(&[true]), Ok(0));
    assert_eq!(primary_screen(&[false, true, true]), Ok(1));
    assert_eq!(primary_screen(&[false, false]), Ok(0));
    assert_eq!(
        primary_screen(&[]),
        Err("no screens available to capture".to_string())
    );
}

fn stash_one(
    batch: &mut StashBatch,
    hwnd: isize,
    pid: u32,
    title: &str,
    start_time: Option<u64>,
    suspended: Result<(), String>,
) -> bool {
    let screened = batch.screen(hwnd, pid, title.to_string()).expect("window is admitted");
    assert_eq!(screened.pid(), pid);
    let candidate = screened
        .check_exe(Some("notepad.exe".to_string()))
        .expect("executable is admitted");
    assert_eq!(candidate.pid(), pid);
    assert_eq!(candidate.hwnd(), hwnd);
    batch.record(candidate, start_time, &suspended)
}

#[test]
fn a_stash_pass_records_only_suspended_windows_and_previews_three() {
    let mut store = Handles::new(vec![fake_handle(1, "Earlier")]);
    let mut batch = StashBatch::new(7);

    assert!(stash_one(&mut batch, 10, 100, "a.txt — Notepad", Some(5), Ok(())));
    assert!(!stash_one(&mut batch, 11, 101, "Elevated", Some(6), Err("denied".to_string())));
    assert!(stash_one(&mut batch, 12, 102, " Calculator ", None, Ok(())));
    assert!(stash_one(&mut batch, 13, 103, "Paint", Some(7), Ok(())));
    assert!(stash_one(&mut batch, 14, 104, "Mail", Some(8), Ok(())));

    let (preview, count) = batch.finish(&mut store);
    assert_eq!(preview, "Notepad, Calculator, Paint");
    assert_eq!(count, 4);
    assert_eq!(store.len(), 5);
    assert_eq!(store.0[0].title, "Earlier");
    assert_eq!(store.0[1].pid, 100);
    assert_eq!(store.0[1].hwnd, 10);
    assert_eq!(store.0[1].start_time, 5);
    assert_eq!(store.0[1].title, "Notepad");
    assert_eq!(store.0[2].pid, 102);
    assert_eq!(store.0[2].start_time, 0);
    assert_eq!(store.0[2].title, "Calculator");
    assert_eq!(store.0[4].pid, 104);
}

#[test]
fn system_windows_never_become_candidates() {
    let batch = StashBatch::new(7);
    assert!(batch.screen(1, 0, "Notepad".to_string()).is_none());
    assert!(batch.screen(1, 7, "Notepad".to_string()).is_none());
    assert!(batch.screen(1, 42, "Task Manager".to_string()).is_none());
    let screened = batch.screen(1, 42, "File Explorer".to_string()).unwrap();
    assert!(screened.check_exe(Some("EXPLORER.EXE".to_string())).is_none());
    let screened = batch.screen(1, 42, "Notepad".to_string()).unwrap();
    assert!(screened.check_exe(None).is_some());
}

#[test]
fn an_empty_stash_pass_reports_nothing() {
    let mut store = Handles::new(Vec::new());
    let batch = StashBatch::new(7);
    let (preview, count) = batch.finish(&mut store);
    assert_eq!(preview, "");
    assert_eq!(count, 0);
    assert!(store.is_empty());
}

#[test]
fn records_mirror_the_store() {
    let mut h = fake_handle(4242, "Notepad");
    h.hwnd = -17;
    h.start_time = LIVE_START;
    let records = to_persisted(&[h, fake_handle(7, "Mail")]);
    assert_eq!(records.len(), 2);
    assert_eq!(records[0].pid, 4242);
    assert_eq!(records[0].hwnd, -17);
    assert_eq!(records[0].start_time, LIVE_START);
    assert_eq!(records[0].title, "Notepad");
    assert_eq!(records[1].pid, 7);
    assert_eq!(records[1].title, "Mail");
}

fn run_restore(batch: &mut RestoreBatch, outcomes: &[Result<(), String>]) -> Vec<(u32, isize, bool)> {
    let mut seen = Vec::new();
    let mut k = 0;
    while let Some((pid, hwnd)) = batch.next_target() {
        let show = batch.note_resume(outcomes[k].clone());
        seen.push((pid, hwnd, show));
        k += 1;
    }
    seen
}

#[test]
fn a_live_restore_clears_the_record_only_on_full_success() {
    let mut live = fake_handle(5, "Notepad");
    live.start_time = LIVE_START;
    let drained = vec![live, fake_handle(6, "Legacy"), fake_handle(8, "Gone")];
    let current = [Some(LIVE_START), Some(3), None];

    let mut batch = RestoreBatch::for_store(&drained, &current);
    let seen = run_restore(&mut batch, &[Ok(()), Ok(())]);
    assert_eq!(seen, vec![(5, 5, true), (6, 6, true)]);
    let end = batch.finish();
    assert_eq!(end.result, Ok(()));
    assert!(end.clear_record);

    let mut batch = RestoreBatch::for_store(&drained, &[Some(LIVE_START), Some(3), Some(4)]);
    let seen = run_restore(
        &mut batch,
        &[Err("first".to_string()), Ok(()), Err("second".to_string())],
    );
    assert_eq!(seen, vec![(5, 5, false), (6, 6, true), (8, 8, false)]);
    let end = batch.finish();
    assert_eq!(end.result, Err("first; second".to_string()));
    assert!(!end.clear_record);
}

#[test]
fn a_recycled_pid_is_not_resumed() {
    let mut h = fake_handle(5, "Notepad");
    h.start_time = LIVE_START;
    let mut batch = RestoreBatch::for_store(&[h], &[Some(LIVE_START + 1)]);
    assert_eq!(batch.next_target(), None);
    let end = batch.finish();
    assert_eq!(end.result, Ok(()));
    assert!(end.clear_record);
}

#[test]
fn an_orphan_resume_always_clears_the_record() {
    let records = vec![record(1, 10, "A")];
    let mut batch = RestoreBatch::for_record(&records, &[Some(10)]);
    let seen = run_restore(&mut batch, &[Err("gone".to_string())]);
    assert_eq!(seen, vec![(1, 1, false)]);
    let end = batch.finish();
    assert_eq!(end.result, Err("gone".to_string()));
    assert!(end.clear_record);

    let batch = RestoreBatch::for_record(&[], &[]);
    let end = batch.finish();
    assert_eq!(end.result, Ok(()));
    assert!(end.clear_record);
}

#[test]
fn an_orphan_resume_resumes_what_the_check_counted() {
    let records = vec![
        record(1, 10, "A"),
        record(2, 20, "B"),
        record(3, 0, "C"),
    ];
    let current = [Some(10), None, Some(99)];
    let report = orphan_report(&records, &current);
    let mut batch = RestoreBatch::for_record(&records, &current);
    let seen = run_restore(&mut batch, &[Ok(()), Ok(())]);
    assert_eq!(report.count, seen.len());
    assert_eq!(seen, vec![(1, 1, true), (3, 3, true)]);
}

fn record(pid: u32, start_time: u64, title: &str) -> PersistedHandle {
    PersistedHandle {
        pid,
        hwnd: pid as isize,
        start_time,
        title: title.to_string(),
    }
}

#[test]
fn orphan_reports_count_only_live_processes() {
    let empty = orphan_report(&[], &[]);
    assert!(!empty.found);
    assert_eq!(empty.preview, "");
    assert_eq!(empty.count, 0);
    assert!(!empty.clear_record);

    let records = vec![record(1, 10, "A"), record(2, 20, "B")];
    let dead = orphan_report(&records, &[None, Some(21)]);
    assert!(!dead.found);
    assert_eq!(dead.preview, "");
    assert_eq!(dead.count, 0);
    assert!(dead.clear_record);

    let records = vec![
        record(1, 10, "A"),
        record(2, 20, "B"),
        record(3, 0, "C"),
        record(4, 40, "D"),
        record(5, 50, "E"),
    ];
    let live = orphan_report(&records, &[Some(10), None, Some(99), Some(40), Some(50)]);
    assert!(live.found);
    assert_eq!(live.preview, "A, C, D");
    assert_eq!(live.count, 4);
    assert!(!live.clear_record);
}

#[test]
fn unreadable_or_malformed_records_are_moved_aside() {
    let (entries, quarantine) = settle_record_read(RecordRead::Missing);
    assert!(entries.is_empty() && !quarantine);
    let (entries, quarantine) = settle_record_read(RecordRead::NoLocation);
    assert!(entries.is_empty() && !quarantine);
    let (entries, quarantine) = settle_record_read(RecordRead::Unreadable);
    assert!(entries.is_empty() && quarantine);
    let (entries, quarantine) = settle_record_read(RecordRead::Malformed);
    assert!(entries.is_empty() && quarantine);
    let (entries, quarantine) =
        settle_record_read(RecordRead::Parsed(vec![record(4242, 0, "Notepad")]));
    assert_eq!(entries.len(), 1);
    assert_eq!(entries[0].pid, 4242);
    assert!(!quarantine);
}

#[test]
fn tray_entries_show_or_restore_and_quit() {
    assert_eq!(tray_menu_action("show"), TrayAction::ShowWindow);
    assert_eq!(tray_menu_action("quit"), TrayAction::RestoreAndQuit);
    assert_eq!(tray_menu_action("Quit"), TrayAction::Ignore);
    assert_eq!(tray_menu_action(""), TrayAction::Ignore);
}
