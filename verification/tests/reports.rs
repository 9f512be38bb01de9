//! Exact outputs of the command reports and request builders, their edge
//! cases and every error they can give.
use issuectl::aging::{archive_lines, stale_lines, StaleIssue};
use issuectl::apply::{check_expected_version, check_patch_head, PatchSlug};
use issuectl::complete::{completion_labels, completion_slugs, completion_users, sorted_unique, CompletionIssue};
use issuectl::cycles::{cycle_plan_lines, cycle_rollup_lines, cycle_status_lines, CycleRollup, CycleStatus};
use issuectl::history::{activity_lines, timeline_lines, ActivityEntry, TimelineEvent};
use issuectl::settings::{config_lines, ResolvedSetting};
use issuectl::metrics::{metrics_lines, CycleTimeText, MetricsView};
use issuectl::editor::{choose_editor, editor_script};
use issuectl::outcomes::{attach_lines, created_lines, AttachedFile};
use issuectl::stamp::{close_stamp_guard, stamp_refusal};
use issuectl::counts::count_keys;
use issuectl::request::build_bulk_request;
use issuectl::bulk::BulkSpec;
use issuectl::formatting::{format_mode, format_report, FormatEntry, FormatMode};
use issuectl::intake::{filed_line, intake_show_tail, intake_transition_line};
use issuectl::number::decimal_string_i64;
use issuectl::outcomes::{bulk_report, mutation_line, BulkOutcome};
use issuectl::ready::{count_checked, ready_lines, Checkbox, ReadyReport, SectionStatus};
use issuectl::rename::{rename_report, touched_file_count, RenameChange};
use issuectl::request::Patch;
use issuectl::schedule::{schedule_list_lines, schedule_run_lines, Materialized, RecurrenceDef, ScheduleRun};
use issuectl::scope::{list_flag_terms, ListField, ListFlags};
use issuectl::stats::{count_in_folder, open_keys, stats_totals_line, StatField, StatIssue};
use issuectl::table::IssueRow;
use issuectl::update::{
    close_outcome_line, parse_commit_specs, update_outcome_line, update_request, NumberPatch, UpdateArgs,
};

fn owned(v: &[&str]) -> Vec<String> {
    v.iter().map(|s| s.to_string()).collect()
}

fn section(present: bool, items: &[(bool, &str)]) -> SectionStatus {
    SectionStatus {
        present,
        items: items.iter().map(|(c, t)| Checkbox { checked: *c, text: t.to_string() }).collect(),
    }
}

#[test]
fn ready_report_lists_unchecked_criteria() {
    let r = ReadyReport {
        slug: "login-loop".to_string(),
        status: "in-progress".to_string(),
        ready: false,
        acceptance: section(true, &[(true, "a"), (false, "b"), (false, "c")]),
        tests: section(false, &[]),
        notes_present: true,
    };
    assert_eq!(
        ready_lines(&r),
        owned(&[
            "issue: login-loop (in-progress)",
            "ready: false",
            "  Acceptance Criteria: 1 of 3 checked",
            "    [ ] b",
            "    [ ] c",
            "  Tests Run: 0 of 0 checked (section missing)",
            "  Implementation Notes: present",
        ])
    );
    assert_eq!(count_checked(&r.acceptance.items), 1);
}

#[test]
fn ready_report_when_done() {
    let r = ReadyReport {
        slug: "a".to_string(),
        status: "done".to_string(),
        ready: true,
        acceptance: section(true, &[(true, "x")]),
        tests: section(true, &[(true, "t")]),
        notes_present: false,
    };
    let l = ready_lines(&r);
    assert_eq!(l[1], "ready: true");
    assert_eq!(l[2], "  Acceptance Criteria: 1 of 1 checked");
    assert_eq!(l[3], "  Tests Run: 1 of 1 checked");
    assert_eq!(l[4], "  Implementation Notes: missing");
    assert_eq!(l.len(), 5);
}

#[test]
fn cycle_rollups_table_and_empty() {
    assert_eq!(cycle_rollup_lines(&vec![]), owned(&["(no cycles found)"]));
    let l = cycle_rollup_lines(&vec![CycleRollup { cycle: "2024-W05".to_string(), open: 3, closed: 12, total: 15 }]);
    assert_eq!(l[0], format!("{:<14} {:>5} {:>7} {:>6}", "CYCLE", "OPEN", "CLOSED", "TOTAL"));
    assert_eq!(l[1], format!("{:<14} {:>5} {:>7} {:>6}", "2024-W05", 3, 12, 15));
}

#[test]
fn cycle_status_with_and_without_tallies() {
    let mut s = CycleStatus {
        cycle: "2024-W05".to_string(),
        open: 2,
        closed: 1,
        total: 3,
        by_status: vec![("open".to_string(), 2)],
        by_type: vec![],
    };
    assert_eq!(
        cycle_status_lines(&s),
        owned(&["Cycle 2024-W05:  open: 2, closed: 1, total: 3", "", "By status (open):", &format!("  {:<14} 2", "open")])
    );
    s.by_status.clear();
    s.by_type = vec![("bug".to_string(), 1), ("feature".to_string(), 1)];
    let l = cycle_status_lines(&s);
    assert_eq!(l[2], "By type (open):");
    assert_eq!(l[4], format!("  {:<14} 1", "feature"));
}

#[test]
fn cycle_plan_heading_and_notice() {
    assert_eq!(cycle_plan_lines("w1", &vec![]), owned(&["(no issues in cycle w1)"]));
    let row = IssueRow {
        slug: "a".to_string(),
        title: "T".to_string(),
        issue_type: "bug".to_string(),
        status: "open".to_string(),
        priority: "high".to_string(),
        assignee: String::new(),
    };
    let l = cycle_plan_lines("w1", &vec![row]);
    assert_eq!(l[0], "Cycle w1:");
    assert!(l[1].starts_with("Slug"));
    assert_eq!(l.last().unwrap(), "1 issue(s)");
}

#[test]
fn schedule_list_columns() {
    assert_eq!(schedule_list_lines(&vec![]), owned(&["(no recurrences in .issuectl/recurrences/)"]));
    let l = schedule_list_lines(&vec![RecurrenceDef {
        name: "weekly-review".to_string(),
        schedule: "0 9 * * 1".to_string(),
        title: "Weekly review".to_string(),
    }]);
    assert_eq!(l[0], format!("{:<24} {:<18} TITLE", "NAME", "SCHEDULE"));
    assert_eq!(l[1], format!("{:<24} {:<18} {}", "weekly-review", "0 9 * * 1", "Weekly review"));
}

#[test]
fn schedule_run_reports_each_outcome() {
    let run = ScheduleRun {
        recurrences_evaluated: 4,
        materialized: vec![Materialized {
            recurrence: "weekly".to_string(),
            occurrence: "2024-01-01T09:00".to_string(),
            slug: "weekly-review-1".to_string(),
        }],
        subscribed: owned(&["new"]),
        capped: owned(&["busy"]),
        errors: vec![("broken".to_string(), "bad cron".to_string())],
    };
    let live = schedule_run_lines(&run, false, 50);
    assert_eq!(live.out, owned(&["materialized weekly @ 2024-01-01T09:00 → weekly-review-1"]));
    assert_eq!(
        live.err,
        owned(&[
            "subscribed recurrence \"new\" at this run; first issue will materialize at next cron tick",
            "warning: recurrence \"busy\" hit the per-run catch-up cap (50 occurrences); rerun to continue",
            "warning: recurrence broken: bad cron",
        ])
    );
    let dry = schedule_run_lines(&run, true, 50);
    assert_eq!(dry.out, owned(&["[dry-run] would materialize weekly @ 2024-01-01T09:00"]));
    let idle = ScheduleRun { recurrences_evaluated: 4, materialized: vec![], subscribed: vec![], capped: vec![], errors: vec![] };
    assert_eq!(schedule_run_lines(&idle, false, 50).out, owned(&["no occurrences due (4 recurrence(s) evaluated)"]));
    assert_eq!(schedule_run_lines(&idle, true, 50).out, owned(&["[dry-run] no occurrences due (4 recurrence(s) evaluated)"]));
}

fn stat(folder: &str, ty: &str, assignee: &str) -> StatIssue {
    StatIssue {
        folder: folder.to_string(),
        issue_type: ty.to_string(),
        status: "open".to_string(),
        priority: "normal".to_string(),
        assignee: assignee.to_string(),
    }
}

#[test]
fn stats_totals_and_open_keys() {
    let issues = vec![stat("open", "bug", "alice"), stat("closed", "bug", ""), stat("open", "feature", ""), stat("inbox", "bug", "")];
    assert_eq!(stats_totals_line(&issues), "Total: 4  (open: 2, closed: 1)");
    assert_eq!(count_in_folder(&issues, "inbox"), 1);
    assert_eq!(open_keys(&issues, StatField::Type), owned(&["bug", "feature"]));
    assert_eq!(open_keys(&issues, StatField::Assignee), owned(&["alice", "(none)"]));
    assert_eq!(open_keys(&issues, StatField::Priority), owned(&["normal", "normal"]));
}

#[test]
fn signed_decimal_rendering() {
    assert_eq!(decimal_string_i64(0), "0");
    assert_eq!(decimal_string_i64(-42), "-42");
    assert_eq!(decimal_string_i64(i64::MIN), i64::MIN.to_string());
    assert_eq!(decimal_string_i64(i64::MAX), i64::MAX.to_string());
}

#[test]
fn stale_report_rows() {
    assert_eq!(stale_lines(14, &vec![]), owned(&["No issues stale for 14+ days."]));
    let l = stale_lines(
        14,
        &vec![
            StaleIssue {
                slug: "a".to_string(),
                status: "in-progress".to_string(),
                in_progress: true,
                days_inactive: 30,
                last_activity: "2024-01-01".to_string(),
                source: "git".to_string(),
                assignee: Some("alice".to_string()),
            },
            StaleIssue {
                slug: "b".to_string(),
                status: "open".to_string(),
                in_progress: false,
                days_inactive: 15,
                last_activity: "2024-01-10".to_string(),
                source: "updated".to_string(),
                assignee: None,
            },
        ],
    );
    assert_eq!(
        l,
        owned(&[
            "2 issue(s) with no activity in 14+ days:",
            "  a (in-progress) [in-progress]  30 days, last 2024-01-01 via git — alice",
            "  b (open)  15 days, last 2024-01-10 via updated",
        ])
    );
}

#[test]
fn archive_report_moves_and_skips() {
    let none = archive_lines(30, false, &vec![], &vec![("x".to_string(), "locked".to_string())]);
    assert_eq!(none.out, owned(&["Nothing to archive (closed 30+ days ago)."]));
    assert_eq!(none.err, owned(&["Warning: skipped x (locked)"]));
    let moved = vec![("a".to_string(), "archive/a".to_string())];
    assert_eq!(archive_lines(30, true, &moved, &vec![]).out, owned(&["Would archive 1 issue(s):", "  a → archive/a"]));
    assert_eq!(archive_lines(30, false, &moved, &vec![]).out[0], "Archived 1 issue(s):");
}

#[test]
fn intake_show_tail_blocks() {
    assert_eq!(intake_show_tail(&vec![], None), owned(&["", "(no Triage analysis section yet)"]));
    assert_eq!(
        intake_show_tail(&owned(&["log.txt"]), Some("Root cause: X".to_string())),
        owned(&["", "Attachments:", "  log.txt", "", "## Triage analysis", "Root cause: X"])
    );
    assert_eq!(intake_transition_line("a", "rejected"), "a → rejected");
}

fn completion_issue(slug: &str, folder: &str, labels: Option<&[&str]>, reporter: Option<&str>, assignee: Option<&str>) -> CompletionIssue {
    CompletionIssue {
        slug: slug.to_string(),
        folder: folder.to_string(),
        labels: labels.map(owned),
        reporter: reporter.map(str::to_string),
        assignee: assignee.map(str::to_string),
        owner: None,
    }
}

#[test]
fn completion_values_sorted_once() {
    let issues = vec![
        completion_issue("b", "open", Some(&["ui", "api"]), Some("zed"), Some("amy")),
        completion_issue("a", "closed", Some(&["api"]), None, Some("amy")),
        completion_issue("c", "open", None, Some("bob"), None),
    ];
    assert_eq!(completion_slugs(&issues, false), owned(&["b", "c"]));
    assert_eq!(completion_slugs(&issues, true), owned(&["b", "a", "c"]));
    assert_eq!(completion_labels(&issues), owned(&["api", "ui"]));
    assert_eq!(completion_users(&issues), owned(&["amy", "bob", "zed"]));
    assert_eq!(sorted_unique(&owned(&["b", "B", "a", "b", "ä"])), owned(&["B", "a", "b", "ä"]));
    assert!(sorted_unique(&vec![]).is_empty());
}

fn entry(path: &str, changed: bool, diff: Option<&str>) -> FormatEntry {
    FormatEntry { path: path.to_string(), changed, diff: diff.map(str::to_string) }
}

#[test]
fn format_modes_and_report() {
    assert!(matches!(format_mode(true, true), FormatMode::Check));
    assert!(matches!(format_mode(false, true), FormatMode::Diff));
    assert!(matches!(format_mode(false, false), FormatMode::Write));
    let es = vec![entry("a.md", false, None), entry("b.md", true, Some("-x\n+y\n"))];
    let w = format_report(&es, &FormatMode::Write);
    assert_eq!(w.text, "formatted: b.md\n");
    assert!(w.any_changed);
    assert_eq!(format_report(&es, &FormatMode::Check).text, "would format: b.md\n");
    assert_eq!(format_report(&es, &FormatMode::Diff).text, "-x\n+y\n");
    let clean = vec![entry("a.md", false, None), entry("c.md", false, None)];
    let c = format_report(&clean, &FormatMode::Check);
    assert_eq!(c.text, "All 2 file(s) already formatted.\n");
    assert!(!c.any_changed);
    assert_eq!(format_report(&clean, &FormatMode::Diff).text, "");
}

fn args() -> UpdateArgs {
    UpdateArgs {
        slug: "a".to_string(),
        status: None,
        issue_type: None,
        assignee: None,
        no_reporter: false,
        no_assignee: false,
        owner: None,
        no_owner: false,
        priority: None,
        epic: None,
        no_epic: false,
        lane: None,
        no_lane: false,
        lane_seq: None,
        no_lane_seq: false,
        add_collision: vec![],
        remove_collision: vec![],
        add_labels: vec![],
        remove_labels: vec![],
        add_related: vec![],
        remove_related: vec![],
        add_blocked_by: vec![],
        remove_blocked_by: vec![],
        add_commits: vec![],
        custom_fields: vec![],
        clear_fields: vec![],
        set_body: None,
        expected_version: None,
    }
}

fn is_replace(p: &Patch, v: &str) -> bool {
    matches!(p, Patch::Replace(s) if s == v)
}

#[test]
fn update_request_routes_every_flag() {
    let mut a = args();
    a.status = Some("done".to_string());
    a.assignee = Some("alice".to_string());
    a.no_assignee = true;
    a.no_owner = true;
    a.no_reporter = true;
    a.lane_seq = Some(-3);
    a.add_labels = owned(&["ui"]);
    a.add_commits = owned(&[" abc123 : fix it "]);
    a.custom_fields = vec![("team".to_string(), "core".to_string())];
    a.clear_fields = owned(&["area"]);
    a.expected_version = Some("sha256:1".to_string());
    let r = update_request(a).unwrap();
    assert!(is_replace(&r.status, "done"));
    assert!(is_replace(&r.assignee, "alice"));
    assert!(matches!(r.owner, Patch::Clear));
    assert!(matches!(r.reporter, Patch::Clear));
    assert!(matches!(r.priority, Patch::Keep));
    assert!(matches!(r.epic, Patch::Keep));
    assert!(matches!(r.lane_seq, NumberPatch::Replace(-3)));
    assert_eq!(r.add_labels, owned(&["ui"]));
    assert_eq!(r.add_commits, vec![("abc123".to_string(), "fix it".to_string())]);
    assert_eq!(r.custom_fields.len(), 2);
    assert!(r.custom_fields[0].0 == "team" && is_replace(&r.custom_fields[0].1, "core"));
    assert!(r.custom_fields[1].0 == "area" && matches!(r.custom_fields[1].1, Patch::Clear));
    assert_eq!(r.expected_version.as_deref(), Some("sha256:1"));
    let mut b = args();
    b.no_lane_seq = true;
    assert!(matches!(update_request(b).unwrap().lane_seq, NumberPatch::Clear));
}

#[test]
fn update_request_refuses_bad_flags() {
    let mut a = args();
    a.add_commits = owned(&["abc:ok", "nocolon", ":x"]);
    a.custom_fields = vec![("k".to_string(), "1".to_string()), ("k".to_string(), "2".to_string())];
    assert_eq!(update_request(a).err().unwrap(), "commit spec must be HASH:summary, got \"nocolon\"");
    let mut b = args();
    b.custom_fields = vec![("k".to_string(), "1".to_string()), ("k".to_string(), "2".to_string())];
    assert_eq!(update_request(b).err().unwrap(), "--field \"k\" given more than once");
    let mut c = args();
    c.clear_fields = owned(&["z", "z"]);
    assert_eq!(update_request(c).err().unwrap(), "--clear-field \"z\" given more than once");
    let mut d = args();
    d.custom_fields = vec![("z".to_string(), "1".to_string()), ("m".to_string(), "2".to_string())];
    d.clear_fields = owned(&["z", "m"]);
    assert_eq!(update_request(d).err().unwrap(), "field \"m\" appears in both --field and --clear-field");
    assert_eq!(parse_commit_specs(&owned(&["a:b", "c: d"])).unwrap(), vec![
        ("a".to_string(), "b".to_string()),
        ("c".to_string(), "d".to_string()),
    ]);
}

#[test]
fn update_and_close_confirmations() {
    assert_eq!(update_outcome_line("a", true, false, "issues/a"), "Updated a: closing status set (issues/a)");
    assert_eq!(update_outcome_line("a", false, true, "issues/a"), "Updated a: re-opened (issues/a)");
    assert_eq!(update_outcome_line("a", false, false, "issues/a"), "Updated a");
    assert_eq!(close_outcome_line("a", true, &Some("bob".to_string()), "issues/a"), "Closed a (by bob) (issues/a)");
    assert_eq!(close_outcome_line("a", true, &None, "issues/a"), "Closed a (issues/a)");
    assert_eq!(close_outcome_line("a", false, &None, "issues/a"), "Updated a");
}

fn change(slug: &str, field: &str, n: usize) -> RenameChange {
    RenameChange { slug: slug.to_string(), field: field.to_string(), occurrences: n }
}

#[test]
fn rename_report_counts_files_once() {
    let cs = vec![change("b", "related", 2), change("a", "body", 1), change("b", "blocked_by", 1)];
    assert_eq!(touched_file_count(&cs), 2);
    let skipped = vec![("c".to_string(), "unreadable".to_string())];
    let dry = rename_report("old", "new", true, "issues/new", &cs, &skipped);
    assert_eq!(
        dry.out,
        owned(&[
            "Would rename old → new and rewrite 4 reference(s) across 2 file(s)",
            "  b related (2)",
            "  a body (1)",
            "  b blocked_by (1)",
        ])
    );
    assert_eq!(
        dry.err,
        owned(&["Warning: skipped c (unreadable); any references to old there were left untouched — run `issuectl doctor`"])
    );
    let live = rename_report("old", "new", false, "issues/new", &cs, &vec![]);
    assert_eq!(live.out, owned(&["Renamed old → new (issues/new); rewrote 4 reference(s) across 2 file(s)"]));
    assert!(live.err.is_empty());
}

fn slug_shape(s: &str) -> bool {
    !s.is_empty() && s.chars().all(|c| c.is_ascii_lowercase() || c.is_ascii_digit() || c == '-')
}

#[test]
fn patch_head_checks_in_order() {
    assert_eq!(
        check_patch_head(false, PatchSlug::Missing, true, slug_shape).unwrap_err(),
        "patch file must be a YAML mapping at the top level"
    );
    assert_eq!(check_patch_head(true, PatchSlug::Missing, false, slug_shape).unwrap_err(), "patch file must declare `slug:`");
    assert_eq!(check_patch_head(true, PatchSlug::NotText, false, slug_shape).unwrap_err(), "`slug:` must be a string");
    assert_eq!(
        check_patch_head(true, PatchSlug::Text("Bad Slug".to_string()), true, slug_shape).unwrap_err(),
        "invalid slug shape: \"Bad Slug\""
    );
    let e = check_patch_head(true, PatchSlug::Text("some-issue".to_string()), true, slug_shape).unwrap_err();
    assert!(e.contains("dry_run") && e.contains("CLI flag"));
    assert_eq!(check_patch_head(true, PatchSlug::Text("some-issue".to_string()), false, slug_shape).unwrap(), "some-issue");
}

#[test]
fn expected_version_required_in_machine_mode() {
    assert!(check_expected_version(false, &None).is_ok());
    assert!(check_expected_version(true, &Some("sha256:abc123".to_string())).is_ok());
    for v in [None, Some(""), Some("   "), Some(" sha256:abc ")] {
        let err = check_expected_version(true, &v.map(str::to_string)).unwrap_err();
        assert!(err.contains("expected_version"), "expected expected_version error for {v:?}, got {err}");
    }
}

#[test]
fn bulk_report_text_forms() {
    assert_eq!(bulk_report(&vec![], true), "No issues match the query.\n");
    let rs = vec![
        BulkOutcome { slug: "a".to_string(), diff: Some("--- a\n+++ a\n".to_string()) },
        BulkOutcome { slug: "b".to_string(), diff: Some(String::new()) },
    ];
    assert_eq!(bulk_report(&rs, true), "2 issue(s) would be updated:\n  a\n  b\n\n--- a\n+++ a\n");
    assert_eq!(bulk_report(&rs, false), "Updated 2 issue(s):\n  a\n  b\n");
    assert_eq!(mutation_line("Updated labels for", "a"), "Updated labels for a");
}

#[test]
fn list_flags_become_terms_in_order() {
    let t = list_flag_terms(ListFlags {
        assignee: None,
        issue_type: Some("bug".to_string()),
        priority: None,
        status: Some("open".to_string()),
        epic: None,
        label: Some("ui".to_string()),
    });
    assert_eq!(t.len(), 3);
    assert!(matches!(t[0].0, ListField::Type) && t[0].1 == "bug");
    assert!(matches!(t[1].0, ListField::Status) && t[1].1 == "open");
    assert!(matches!(t[2].0, ListField::Label) && t[2].1 == "ui");
    let none = list_flag_terms(ListFlags { assignee: None, issue_type: None, priority: None, status: None, epic: None, label: None });
    assert!(none.is_empty());
}

#[test]
fn activity_rows_and_notice() {
    assert_eq!(activity_lines(&vec![]), owned(&["(no issue-file activity in range)"]));
    let l = activity_lines(&vec![ActivityEntry {
        date: "2024-01-02".to_string(),
        sha: "abc1234".to_string(),
        slugs: owned(&["a", "b"]),
        summary: "close a and b".to_string(),
    }]);
    assert_eq!(l, owned(&["2024-01-02  abc1234  a,b  close a and b"]));
}

#[test]
fn timeline_rows_pad_the_transition() {
    assert_eq!(timeline_lines("a", &vec![]), owned(&["(no history for a)"]));
    let l = timeline_lines(
        "a",
        &vec![
            TimelineEvent {
                date: "2024-01-01".to_string(),
                sha: "111".to_string(),
                prev_status: None,
                status: "open".to_string(),
                summary: "create".to_string(),
            },
            TimelineEvent {
                date: "2024-01-05".to_string(),
                sha: "222".to_string(),
                prev_status: Some("open".to_string()),
                status: "done".to_string(),
                summary: "finish".to_string(),
            },
        ],
    );
    assert_eq!(l[0], format!("2024-01-01  111  {:<28} create", "(created) open"));
    assert_eq!(l[1], format!("2024-01-05  222  {:<28} finish", "open → done"));
}

#[test]
fn config_show_indents_multiline_values() {
    let values = vec![
        ResolvedSetting { key: "author".to_string(), source: "file".to_string(), value: "\"bob\"".to_string() },
        ResolvedSetting { key: "lanes".to_string(), source: "default".to_string(), value: "[\n  \"a\"\n]".to_string() },
    ];
    let l = config_lines(".issuectl/config.toml", false, &values);
    assert_eq!(l[0], ".issuectl/config.toml (missing; built-in defaults apply)");
    assert_eq!(l[1], "author [file]: \"bob\"");
    assert_eq!(l[2], format!("lanes [default]:\n  {}", "[\n  \"a\"\n]".replace('\n', "\n  ")));
    assert_eq!(config_lines("p", true, &vec![]), owned(&["p"]));
}

#[test]
fn metrics_window_and_tallies() {
    let mut m = MetricsView {
        since_days: Some(30),
        throughput: 7,
        cycle_time: Some(CycleTimeText { median: "3".to_string(), p90: "9".to_string(), mean: "4.5".to_string(), sample: 7 }),
        closed_by_assignee: vec![("alice".to_string(), 5)],
        workload_by_assignee: vec![],
    };
    assert_eq!(
        metrics_lines(&m),
        owned(&[
            "Since 30d:",
            "  throughput: 7",
            "  cycle time (days): median 3, p90 9, mean 4.5 (n=7)",
            "",
            "Closed in window by assignee:",
            &format!("  {:<20} 5", "alice"),
        ])
    );
    m.since_days = None;
    m.cycle_time = None;
    m.closed_by_assignee.clear();
    assert_eq!(metrics_lines(&m), owned(&["All-time:", "  throughput: 7", "  cycle time: (no samples)"]));
}

#[test]
fn editor_choice_order() {
    let s = |v: &str| Some(v.to_string());
    assert_eq!(choose_editor(s("nano"), s("vim"), s("ed")).unwrap(), "nano");
    assert_eq!(choose_editor(None, s("vim"), s("ed")).unwrap(), "vim");
    assert_eq!(choose_editor(None, s("  "), s("ed")).unwrap(), "ed");
    assert_eq!(
        choose_editor(None, None, s("")).unwrap_err(),
        "no editor configured; pass --editor <cmd> or set $VISUAL / $EDITOR"
    );
    assert_eq!(editor_script("code -w"), "code -w \"$@\"");
}

#[test]
fn attach_and_create_confirmations() {
    let l = attach_lines(
        "a",
        &vec![
            AttachedFile { source: "/tmp/log.txt".to_string(), path: "issues/a/attachments/log.txt".to_string(), renamed: false, original_name: "log.txt".to_string() },
            AttachedFile { source: "/tmp/x/log.txt".to_string(), path: "issues/a/attachments/log-1.txt".to_string(), renamed: true, original_name: "log.txt".to_string() },
        ],
    );
    assert_eq!(
        l,
        owned(&[
            "Attached 2 file(s) to @a:",
            "  /tmp/log.txt -> issues/a/attachments/log.txt",
            "  /tmp/x/log.txt -> issues/a/attachments/log-1.txt (renamed from log.txt)",
        ])
    );
    assert_eq!(created_lines("a", "Title", "issues/a/item.md"), owned(&["Created a: Title", "  issues/a/item.md"]));
}

#[test]
fn intake_file_confirmation() {
    assert_eq!(filed_line("a", false), "Filed a (untriaged)");
    assert_eq!(filed_line("a", true), "Existing issue a returned (deduplicated on source-ref)");
}

#[test]
fn completion_lists_depend_only_on_the_values() {
    let one = vec![completion_issue("a", "open", Some(&["x", "y", "x"]), None, None)];
    let two = vec![
        completion_issue("b", "open", Some(&["y"]), None, None),
        completion_issue("c", "open", Some(&["x"]), None, None),
    ];
    assert_eq!(completion_labels(&one), completion_labels(&two));
}

const STAMP_REFUSAL: &str = "--commit abc resolves to the current HEAD, which --stamp rewrites; drop --commit and record the stamped sha afterwards with `update --add-commit`";

#[test]
fn stamp_refusal_names_the_commit() {
    assert!(stamp_refusal(None).is_ok());
    assert_eq!(stamp_refusal(Some("abc".to_string())).unwrap_err(), STAMP_REFUSAL);
}

#[test]
fn close_stamp_guard_refuses_head() {
    let rev = |r: &str| -> Option<String> {
        match r {
            "HEAD" => Some("h1".to_string()),
            "abc^{commit}" => Some("h1".to_string()),
            "def^{commit}" => Some("h0".to_string()),
            _ => None,
        }
    };
    let commits = owned(&["def:one", "abc:two"]);
    assert_eq!(close_stamp_guard(true, &commits, rev).unwrap_err(), STAMP_REFUSAL);
    assert!(close_stamp_guard(false, &commits, |_: &str| -> Option<String> { panic!("not called") }).is_ok());
    assert!(close_stamp_guard(true, &owned(&["def:one"]), rev).is_ok());
    assert!(close_stamp_guard(true, &vec![], rev).is_ok());
}

#[test]
fn tallies_hold_only_keys_that_occur() {
    assert!(count_keys(&vec![]).is_empty());
    let t = count_keys(&owned(&["b", "a", "b"]));
    assert_eq!(t, vec![("a".to_string(), 1), ("b".to_string(), 2)]);
    assert!(t.iter().all(|(_, n)| *n > 0));
}

#[test]
fn bulk_request_custom_map_holds_only_routed_keys() {
    let spec = BulkSpec {
        set: vec![("team".to_string(), "core".to_string()), ("priority".to_string(), "high".to_string())],
        clear: owned(&["area"]),
        add_labels: vec![],
        remove_labels: vec![],
        add_related: vec![],
        remove_related: vec![],
    };
    let r = build_bulk_request(&spec, false);
    let keys: Vec<&str> = r.custom_fields.iter().map(|(k, _)| k.as_str()).collect();
    assert_eq!(keys, vec!["area", "team"]);
}
