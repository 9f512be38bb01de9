//! Scenarios for each part of the library: exact outputs, edge cases, every
//! error, and the properties stated as laws, on concrete values.
use issuectl::args::{parse_days, parse_non_empty, parse_slug_arg};
use issuectl::bulk::{bulk_field_slot, is_bulk_routable_builtin, set_field_slot, validate_bulk_spec, validate_field_patches, BulkSpec, FieldSlot};
use issuectl::cli::{argv_has_json_flag, bubbled_error_code, bubbled_exit_code, subcommand_error_hint, FailureKind};
use issuectl::commits::parse_commit_spec;
use issuectl::counts::{count_keys, order_by_count};
use issuectl::diff::render_unified_diff;
use issuectl::display::{truncate, truncate_key};
use issuectl::help::{help_argument, help_examples, json_help_document, select_command, ArgSpec, CommandSpec};
use issuectl::input::{read_capped, read_capped_file, Fetched, InputSource, MAX_INPUT_BYTES};
use issuectl::intake::{has_label, is_legacy_intake_item, queue_provenance, IntakeItem};
use issuectl::labels::{resolve_label_target, LabelOp};
use issuectl::notes::{finish_body_file, finish_note_text, note_text_source, NoteSource};
use issuectl::number::{decimal_string, parse_usize};
use issuectl::pick::{parse_selection, pick_candidates, pick_step, PickItem, PickStep};
use issuectl::refs::{at_refs, blocks_of, IssueDeps};
use issuectl::report::{count_line, dag_row_line, deprecation_message, join_strings, DagRow};
use issuectl::scan::{inbox_draft, scan_text, split_lines, todo_hit_line, TodoStatus};
use issuectl::scope::{folder_default_filter, resolve_cycle_name};
use issuectl::stamp::{short_sha, stamp_report_human, stamp_would_orphan_commit, StampOutcome};
use issuectl::table::{issue_detail_lines, issue_table_lines, IssueDetail, IssueRow};
use issuectl::todo::{parse_todo_marker, TodoMarker};
use issuectl::tree::{epic_tree_lines, TreeNode};
use issuectl::usage::usage_command_path;
use issuectl::sync::{sync_report_lines, AttributionKind, SyncReport};

use issuectl::intake::{legacy_count, legacy_warning, queue_lines, queue_rows};
use issuectl::skills::{pi_status_lines, PiSkillRow, PiSkillState, PiStatus};
use issuectl::skills::{pi_prune_lines, PiPruneKind, PrunedEntry, SkippedEntry};
use issuectl::report::{dag_lines, DagLane, DagView};
use issuectl::scan::{walk_step, WalkStep};
use issuectl::args::pick_user;
use issuectl::report::import_summary;
use issuectl::migrate::{action_kind, migrate_lines, MigrationAction};
use issuectl::cli::{usage_error_action, ParseFailure, UsageAction};
use issuectl::request::{build_bulk_request, Patch};
use issuectl::report::{inbox_lines, workload_lines, WorkloadRow};
use issuectl::skills::{skill_catalog_lines, InstallTarget, SkillEntry};

fn strings(v: &[&str]) -> Vec<String> {
    v.iter().map(|s| s.to_string()).collect()
}

fn slug_rule(s: &str) -> bool {
    !s.is_empty()
        && s.chars().all(|c| c.is_ascii_lowercase() || c.is_ascii_digit() || c == '-')
        && !s.starts_with('-')
        && !s.ends_with('-')
}

// ── text and numbers ────────────────────────────────────────────────────

#[test]
fn truncate_cuts_to_width_with_ellipsis() {
    assert_eq!(truncate("hello world", 6), "hello…");
    assert_eq!(truncate("hello", 1), "…");
    // Idempotent: a truncated cell truncates to itself.
    let once = truncate("hello world", 6);
    assert_eq!(truncate(&once, 6), once);
}

#[test]
fn truncate_key_fits_column() {
    assert_eq!(truncate_key("payments-team", 8), "payment…");
    assert_eq!(truncate_key("short", 8), "short");
    assert_eq!(truncate_key("ab", 0), "…");
}

#[test]
fn parse_days_messages_name_the_input() {
    let e = parse_days("7days").unwrap_err();
    assert!(e.contains("7days"), "{e}");
    let e = parse_days("-5").unwrap_err();
    assert!(e.contains("-5"), "{e}");
    assert_eq!(parse_days("+12d").unwrap(), 12);
    assert!(parse_days("99999999999999999999").is_err());
    // Round trip: any count written in decimal, with or without `d`.
    for n in [0i64, 1, 9, 10, 365, i64::MAX] {
        assert_eq!(parse_days(&n.to_string()).unwrap(), n);
        assert_eq!(parse_days(&format!("{n}d")).unwrap(), n);
    }
}

#[test]
fn parse_non_empty_keeps_value_and_quotes_padding() {
    assert_eq!(parse_non_empty("alice").unwrap(), "alice");
    let e = parse_non_empty(" a").unwrap_err();
    assert!(e.contains("\" a\""), "{e}");
    assert!(e.contains("\"a\""), "{e}");
    assert_eq!(parse_non_empty("").unwrap_err(), "value cannot be empty or whitespace");
}

#[test]
fn parse_slug_arg_applies_store_rule() {
    assert_eq!(parse_slug_arg("login-loop", slug_rule).unwrap(), "login-loop");
    assert!(parse_slug_arg("../etc", slug_rule).is_err());
    assert!(parse_slug_arg(" login", slug_rule).is_err());
}

#[test]
fn commit_spec_trims_both_halves() {
    assert_eq!(
        parse_commit_spec("  abc : fix: the login  ").unwrap(),
        ("abc".to_string(), "fix: the login".to_string())
    );
    assert!(parse_commit_spec(":summary").is_err());
    assert!(parse_commit_spec("abc:   ").is_err());
    let e = parse_commit_spec("abc").unwrap_err();
    assert_eq!(e, "commit spec must be HASH:summary, got \"abc\"");
}

#[test]
fn decimal_and_usize_round_trip() {
    for n in [0usize, 7, 10, 12345, usize::MAX] {
        assert_eq!(decimal_string(n), n.to_string());
        assert_eq!(parse_usize(&n.to_string()), Some(n));
    }
    assert_eq!(parse_usize("+5"), Some(5));
    assert_eq!(parse_usize("-5"), None);
    assert_eq!(parse_usize(""), None);
    assert_eq!(parse_usize("+"), None);
    assert_eq!(parse_usize("18446744073709551616"), None);
}

// ── bulk and keys ───────────────────────────────────────────────────────

#[test]
fn bulk_spec_messages() {
    let e = validate_bulk_spec(&BulkSpec::default()).unwrap_err();
    assert!(e.starts_with("bulk requires at least one mutation"), "{e}");
    let dup = BulkSpec { set: vec![("b".into(), "1".into()), ("b".into(), "2".into())], ..Default::default() };
    assert_eq!(validate_bulk_spec(&dup).unwrap_err(), "--set \"b\" given more than once");
    let dup_clear = BulkSpec { clear: strings(&["x", "x"]), ..Default::default() };
    assert_eq!(validate_bulk_spec(&dup_clear).unwrap_err(), "--clear \"x\" given more than once");
    // The smallest key in both lists is named.
    let overlap = BulkSpec {
        set: vec![("zeta".into(), "1".into()), ("alpha".into(), "2".into())],
        clear: strings(&["zeta", "alpha"]),
        ..Default::default()
    };
    assert_eq!(validate_bulk_spec(&overlap).unwrap_err(), "field \"alpha\" appears in both --set and --clear");
    let labels_only = BulkSpec { add_labels: strings(&["x"]), ..Default::default() };
    assert!(labels_only.is_empty() == false);
    assert!(validate_bulk_spec(&labels_only).is_ok());
}

#[test]
fn field_patches_use_update_flags() {
    let e = validate_field_patches(&vec![("team".into(), "a".into())], &strings(&["team"])).unwrap_err();
    assert_eq!(e, "field \"team\" appears in both --field and --clear-field");
    assert!(validate_field_patches(&vec![("team".into(), "a".into())], &strings(&["size"])).is_ok());
}

#[test]
fn field_slots_route_built_ins() {
    assert_eq!(bulk_field_slot("status"), FieldSlot::Status);
    assert_eq!(bulk_field_slot("type"), FieldSlot::Type);
    assert_eq!(bulk_field_slot("epic"), FieldSlot::Epic);
    assert_eq!(bulk_field_slot("team"), FieldSlot::Custom);
    assert_eq!(set_field_slot("type"), FieldSlot::Custom);
    assert_eq!(set_field_slot("owner"), FieldSlot::Owner);
    for k in ["status", "type", "priority", "assignee", "owner", "epic"] {
        assert!(is_bulk_routable_builtin(k));
    }
    assert!(!is_bulk_routable_builtin("labels"));
}

#[test]
fn label_target_forms_agree() {
    let positional = resolve_label_target(Some(LabelOp::Add), Some("ui".into()), None, None).unwrap();
    let flag = resolve_label_target(None, None, Some("ui".into()), None).unwrap();
    assert_eq!(positional, flag);
    assert_eq!(resolve_label_target(None, None, None, Some("ui".into())).unwrap(), (LabelOp::Remove, "ui".to_string()));
    assert!(resolve_label_target(None, None, Some("a".into()), Some("b".into())).unwrap_err().starts_with("internal error"));
    assert!(resolve_label_target(None, None, None, None).is_err());
}

// ── scope ───────────────────────────────────────────────────────────────

#[test]
fn folder_scope_precedence() {
    assert_eq!(folder_default_filter(true, true, false), None);
    assert_eq!(folder_default_filter(false, true, true), Some("closed"));
    assert_eq!(folder_default_filter(false, false, true), None);
    assert_eq!(folder_default_filter(false, false, false), Some("open"));
}

#[test]
fn cycle_alias_resolves() {
    assert_eq!(resolve_cycle_name("  CURRENT \n", "2024-W07".to_string()), "2024-W07");
    assert_eq!(resolve_cycle_name(" sprint-3 ", "2024-W07".to_string()), "sprint-3");
    assert_eq!(resolve_cycle_name("currently", "2024-W07".to_string()), "currently");
}

// ── command line ────────────────────────────────────────────────────────

#[test]
fn json_flag_ignored_after_separator() {
    assert!(argv_has_json_flag(&strings(&["issuectl", "list", "--json"])));
    assert!(!argv_has_json_flag(&strings(&["issuectl", "note", "x", "--", "--json"])));
    assert!(!argv_has_json_flag(&strings(&["--json"])));
    assert!(!argv_has_json_flag(&Vec::new()));
}

#[test]
fn subcommand_hints() {
    let h = subcommand_error_hint(true, Some("dupz".into()), "Usage: issuectl [OPTIONS] <COMMAND>", strings(&["dups"])).unwrap();
    assert_eq!(h, "`dups` is an alias for `duplicates` — run `issuectl duplicates …`.");
    let h = subcommand_error_hint(true, Some("ls".into()), "Usage: issuectl <COMMAND>", Vec::new()).unwrap();
    assert_eq!(h, "`ls` is an alias for `list` — run `issuectl list …`.");
    let h = subcommand_error_hint(true, Some("x-1".into()), "Usage: issuectl body <COMMAND>", Vec::new()).unwrap();
    assert_eq!(h, "`body` is a subcommand group — did you mean `issuectl body set x-1`?");
    assert!(subcommand_error_hint(false, Some("ls".into()), "Usage: issuectl <COMMAND>", Vec::new()).is_none());
}

#[test]
fn usage_path_reads_subcommands() {
    assert_eq!(usage_command_path("Usage: issuectl body set <SLUG>"), strings(&["body", "set"]));
    assert_eq!(usage_command_path("error: x\n\n  Usage: issuectl [OPTIONS] <COMMAND>\n"), Vec::<String>::new());
    assert_eq!(usage_command_path("no usage here"), Vec::<String>::new());
}

#[test]
fn bubbled_codes() {
    assert_eq!(bubbled_error_code(FailureKind::NotFound), "not-found");
    assert_eq!(bubbled_error_code(FailureKind::TransitionViolation), "transition-illegal");
    assert_eq!(bubbled_error_code(FailureKind::Other), "command-failed");
    assert_eq!(bubbled_exit_code(FailureKind::TransitionViolation), 2);
    assert_eq!(bubbled_exit_code(FailureKind::NotFound), 1);
}

// ── notes and capped input ──────────────────────────────────────────────

#[test]
fn note_sources_and_text() {
    assert!(matches!(note_text_source(None, None, true, Some(1u8)), Ok(NoteSource::File(1))));
    assert!(matches!(note_text_source::<u8>(None, None, true, None), Ok(NoteSource::Stdin)));
    assert_eq!(finish_note_text("  hi  \n").unwrap(), "hi");
    assert_eq!(finish_note_text("\n").unwrap_err(), "note text is empty");
    assert_eq!(finish_body_file("b.md", "  x \n").unwrap(), "  x");
    assert_eq!(finish_body_file("b.md", " \n").unwrap_err(), "--body-file b.md is empty");
}

#[test]
fn capped_read_messages() {
    let e = read_capped(|n| Ok(vec![b'a'; n as usize]), 4, "note", "stdin").unwrap_err();
    assert_eq!(e, "note from stdin exceeds the 4-byte limit");
    let e = read_capped(|_| Ok(vec![0xe2, 0x82]), 4, "body", "f.md").unwrap_err();
    assert_eq!(e, "body from f.md is not valid UTF-8 (first invalid byte at offset 0)");
    let e = read_capped(|_| Err("boom".to_string()), 4, "body", "f.md").unwrap_err();
    assert_eq!(e, "cannot read body from f.md: boom");
    assert_eq!(read_capped(|_| Ok("€uro".as_bytes().to_vec()), 8, "body", "f.md").unwrap(), "€uro");
}

#[test]
fn capped_file_routes_dash_to_stdin() {
    let seen = std::cell::Cell::new(None);
    let got = read_capped_file("-", "note", |src, n| {
        seen.set(Some((matches!(src, InputSource::Stdin), n)));
        Fetched::Bytes(b"piped".to_vec())
    })
    .unwrap();
    assert_eq!(got, "piped");
    assert_eq!(seen.get(), Some((true, MAX_INPUT_BYTES + 1)));
    let e = read_capped_file("-", "note", |_, _| Fetched::Terminal).unwrap_err();
    assert_eq!(e, "stdin is a terminal; pipe the note text in, or pass a real file path to --from-file");
    let e = read_capped_file("./-", "body", |src, _| {
        assert!(matches!(src, InputSource::File));
        Fetched::Failed("denied".to_string())
    })
    .unwrap_err();
    assert_eq!(e, "cannot read body from ./-: denied");
}

// ── intake ──────────────────────────────────────────────────────────────

fn intake(status: &str, labels: Option<&[&str]>, provenance: Option<&str>) -> IntakeItem {
    IntakeItem {
        status: status.to_string(),
        labels: labels.map(strings),
        provenance: provenance.map(str::to_string),
    }
}

#[test]
fn intake_labels_and_legacy_forms() {
    let it = intake("open", Some(&["needs-triage", "ui"]), None);
    assert!(has_label(&it, "ui"));
    assert!(!has_label(&it, "u"));
    assert!(is_legacy_intake_item(&it));
    assert!(!is_legacy_intake_item(&intake("triage", Some(&["deferred"]), None)));
    assert!(is_legacy_intake_item(&intake("open", Some(&["deferred"]), None)));
    assert!(!has_label(&intake("open", None, None), "ui"));
}

#[test]
fn provenance_rules() {
    // An explicit value wins over the labels.
    assert_eq!(queue_provenance(&intake("open", Some(&["via:email"]), Some("slack"))).as_deref(), Some("slack"));
    // Unanimous `via:` labels name the channel.
    assert_eq!(queue_provenance(&intake("open", Some(&["ui", "via:email", "via:email"]), None)).as_deref(), Some("email"));
    // Disagreeing labels name none; neither does an empty channel.
    assert_eq!(queue_provenance(&intake("open", Some(&["via:email", "via:phone"]), None)), None);
    assert_eq!(queue_provenance(&intake("open", Some(&["via:"]), None)), None);
    assert_eq!(queue_provenance(&intake("open", None, None)), None);
}

// ── dependency references ───────────────────────────────────────────────

fn deps(slug: &str, blocked_by: &[&str]) -> IssueDeps {
    IssueDeps { slug: slug.to_string(), blocked_by: strings(blocked_by) }
}

#[test]
fn blocks_view_is_sorted_and_excludes_self() {
    let issues = vec![
        deps("zeta", &["core"]),
        deps("core", &["core"]),
        deps("alpha", &["core", "other"]),
        deps("mid", &["other"]),
        deps("beta", &["core"]),
    ];
    assert_eq!(blocks_of(&issues, "core"), strings(&["alpha", "beta", "zeta"]));
    assert_eq!(blocks_of(&issues, "other"), strings(&["alpha", "mid"]));
    assert!(blocks_of(&issues, "nobody").is_empty());
    assert_eq!(at_refs(&strings(&["a", "b-c"])), strings(&["@a", "@b-c"]));
}

// ── tallies ─────────────────────────────────────────────────────────────

#[test]
fn tallies_count_and_order() {
    let keys = strings(&["open", "done", "open", "wip", "done", "open"]);
    let t = count_keys(&keys);
    assert_eq!(t, vec![("done".to_string(), 2), ("open".to_string(), 3), ("wip".to_string(), 1)]);
    // Counts add up to the number of keys.
    assert_eq!(t.iter().map(|(_, c)| c).sum::<usize>(), keys.len());
    let ordered = order_by_count(t);
    assert_eq!(ordered, vec![("open".to_string(), 3), ("done".to_string(), 2), ("wip".to_string(), 1)]);
    // Ties keep ascending key order.
    let tie = order_by_count(count_keys(&strings(&["b", "a", "c", "a", "b"])));
    assert_eq!(tie, vec![("a".to_string(), 2), ("b".to_string(), 2), ("c".to_string(), 1)]);
    assert_eq!(count_line("open", 3), format!("  {:20} {}", "open", 3));
    assert_eq!(count_line("a-very-long-status-name-x", 12), "  a-very-long-status-name-x 12");
    assert!(count_keys(&Vec::new()).is_empty());
}

// ── reports ─────────────────────────────────────────────────────────────

#[test]
fn join_and_deprecation() {
    assert_eq!(join_strings(&strings(&["a", "b", "c"]), ", "), "a, b, c");
    assert_eq!(join_strings(&Vec::new(), ","), "");
    assert_eq!(
        deprecation_message("`issuectl ls`", &strings(&["issuectl", "list"]), Some("see docs")),
        "`issuectl ls` is deprecated and will be removed in issuectl 0.18.0; use `issuectl list` instead; see docs"
    );
    assert_eq!(
        deprecation_message("x", &strings(&["y"]), None),
        "x is deprecated and will be removed in issuectl 0.18.0; use `y` instead"
    );
}

#[test]
fn dag_rows() {
    let row = DagRow {
        slug: "login-loop".into(),
        status: "open".into(),
        title: "Fix it".into(),
        blockers_open: strings(&["a", "b"]),
        blockers_missing: strings(&["ghost"]),
        reserved: true,
        collision: Vec::new(),
        spawnable: false,
        is_head_of_line: true,
    };
    let expected = format!(
        "  {} {:<28} {:<12} {}{}",
        "◆", "login-loop", "open", "Fix it", " blocked-by:a,b missing-dep:ghost [reserved]"
    );
    assert_eq!(dag_row_line(&row), expected);
    let plain = DagRow { blockers_open: Vec::new(), blockers_missing: Vec::new(), reserved: false, spawnable: true, ..row };
    assert_eq!(dag_row_line(&plain), format!("  ▶ {:<28} {:<12} Fix it", "login-loop", "open"));
}

// ── the interactive picker ──────────────────────────────────────────────

fn item(slug: &str, title: &str, folder: &str, labels: Option<&[&str]>) -> PickItem {
    PickItem { slug: slug.into(), title: title.into(), folder: folder.into(), labels: labels.map(strings) }
}

#[test]
fn picker_matches_case_insensitively() {
    let items = vec![
        item("login-loop", "Login LOOP on Safari", "open", None),
        item("old-bug", "Crash", "closed", Some(&["Safari"])),
        item("ui-polish", "Polish", "open", Some(&["SAFARI-only"])),
        item("inbox-1", "Draft", "inbox", None),
    ];
    assert_eq!(pick_candidates(&items, &Some("safari".into()), false), vec![0, 2]);
    assert_eq!(pick_candidates(&items, &Some("safari".into()), true), vec![0, 1, 2]);
    assert_eq!(pick_candidates(&items, &None, false), vec![0, 2]);
    assert_eq!(pick_candidates(&items, &None, true), vec![0, 1, 2, 3]);
    assert_eq!(pick_candidates(&items, &Some("ÄÖ".into()), true), Vec::<usize>::new());
}

#[test]
fn picker_steps_and_selection() {
    assert!(matches!(pick_step(0, true), PickStep::NoMatch));
    assert!(matches!(pick_step(1, false), PickStep::Take(0)));
    assert!(matches!(pick_step(3, true), PickStep::Take(0)));
    assert!(matches!(pick_step(3, false), PickStep::Ask));
    assert_eq!(parse_selection(" 2\n", 3), Ok(1));
    assert_eq!(parse_selection("3", 3), Ok(2));
    assert_eq!(parse_selection("0\n", 3), Err("selection out of range: 0".to_string()));
    assert_eq!(parse_selection("4\n", 3), Err("selection out of range: 4".to_string()));
    assert_eq!(parse_selection("two\n", 3), Err("invalid selection: \"two\\n\"".to_string()));
    for n in 1..=5usize {
        assert_eq!(parse_selection(&format!("{n}\n"), 5), Ok(n - 1));
    }
}

// ── TODO markers ────────────────────────────────────────────────────────

#[test]
fn todo_markers() {
    assert!(matches!(parse_todo_marker("// TODO(issue: @login-loop) fix", slug_rule), Some(TodoMarker::Linked(s)) if s == "login-loop"));
    assert!(matches!(parse_todo_marker("// TODO(issue:)", slug_rule), Some(TodoMarker::Untracked)));
    assert!(matches!(parse_todo_marker("// TODO(issue: Bad Slug)", slug_rule), Some(TodoMarker::Untracked)));
    assert!(parse_todo_marker("// TODO(issue: open", slug_rule).is_none());
    assert!(parse_todo_marker("// TODO: plain", slug_rule).is_none());
}

#[test]
fn lines_match_std() {
    for text in ["", "a", "a\n", "a\r\nb", "a\n\nb\n", "x\r", "\r\n\r\n", "one\ntwo\r\nthree\r"] {
        let expected: Vec<String> = text.lines().map(str::to_string).collect();
        assert_eq!(split_lines(text), expected, "for {text:?}");
        assert!(split_lines(text).iter().all(|l| !l.contains('\n')));
    }
}

#[test]
fn scanning_a_file() {
    let known = vec![("open-one".to_string(), false), ("done-one".to_string(), true), ("done-one".to_string(), false)];
    let text = "fn a() {}\n  // TODO(issue: open-one) wire up  \n// TODO(issue: nowhere)\n// TODO(issue:)\n// TODO(issue: done-one)\r\n";
    let hits = scan_text(text, &known, slug_rule).unwrap();
    let summary: Vec<(usize, Option<String>, &str)> =
        hits.iter().map(|h| (h.line, h.slug.clone(), h.status.as_str())).collect();
    assert_eq!(
        summary,
        vec![
            (2, Some("open-one".to_string()), "tracked"),
            (3, Some("nowhere".to_string()), "unknown"),
            (4, None, "untracked"),
            // the later entry for a slug wins
            (5, Some("done-one".to_string()), "tracked"),
        ]
    );
    assert_eq!(hits[0].context, "// TODO(issue: open-one) wire up");
    assert!(scan_text("a\0b TODO(issue:)", &known, slug_rule).is_none());
    let long = format!("// TODO(issue:) {}", "x".repeat(300));
    let h = scan_text(&long, &Vec::new(), slug_rule).unwrap();
    assert_eq!(h[0].context.chars().count(), 200);
    assert!(matches!(h[0].status, TodoStatus::Untracked));
}

#[test]
fn hit_lines_and_drafts() {
    let hits = scan_text("x\n// TODO(issue: a-b) note\n// TODO(issue:)", &vec![("a-b".to_string(), true)], slug_rule).unwrap();
    assert_eq!(todo_hit_line("src/x.rs", &hits[0]), "stale src/x.rs:2 a-b  // TODO(issue: a-b) note");
    let bare = scan_text("TODO(issue:)", &Vec::new(), slug_rule).unwrap();
    assert_eq!(todo_hit_line("f", &bare[0]), "untracked f:1 -  TODO(issue:)");
    let (title, desc) = inbox_draft("src/x.rs", &hits[1]);
    assert_eq!(title, "// TODO(issue:)");
    assert_eq!(desc, "_Source: src/x.rs:3_\n\n```\n// TODO(issue:)\n```\n");
}

// ── stamp guard and reports ─────────────────────────────────────────────

#[test]
fn stamp_guard_finds_head_commit() {
    let rev = |r: &str| -> Option<String> {
        match r {
            "HEAD" => Some("abc123".to_string()),
            "abc^{commit}" => Some("abc123".to_string()),
            "def^{commit}" => Some("def456".to_string()),
            _ => None,
        }
    };
    assert_eq!(stamp_would_orphan_commit(&strings(&["def:one", " abc :two"]), rev), Some("abc".to_string()));
    assert_eq!(stamp_would_orphan_commit(&strings(&["def:one", ":empty"]), rev), None);
    assert_eq!(stamp_would_orphan_commit(&Vec::new(), |_: &str| -> Option<String> { panic!("not called") }), None);
    assert_eq!(stamp_would_orphan_commit(&strings(&["abc:x"]), |_: &str| None), None);
}

#[test]
fn stamp_reports() {
    assert_eq!(short_sha("0123456789abcdef0123"), "0123456789ab");
    assert_eq!(short_sha("abc"), "abc");
    let s = StampOutcome::Stamped { old: "1".repeat(40), sha: "fedcba9876543210fedc".to_string() };
    assert_eq!(stamp_report_human(&s), "Stamped Fixes-Issue trailer into fedcba987654 (HEAD rewritten).");
    let a = StampOutcome::AlreadyPresent { sha: "x".into() };
    assert_eq!(stamp_report_human(&a), "Fixes-Issue trailer already present on HEAD; nothing to stamp.");
    let k = StampOutcome::Skipped { reason: "dirty tree".into() };
    assert_eq!(stamp_report_human(&k), "Trailer not stamped: dirty tree");
}

// ── diff preview ────────────────────────────────────────────────────────

#[test]
fn unified_diff_preview() {
    assert_eq!(render_unified_diff("same\n", "same\n", Some("a".into()), "x".into()), "");
    let d = render_unified_diff("a\nb\n", "a\nc\n", Some("login-loop".into()), "/abs/item.md".into());
    assert!(d.starts_with("--- a/issues/login-loop/item.md\n+++ b/issues/login-loop/item.md\n"), "{d}");
    assert!(d.contains("-b\n") && d.contains("+c\n"), "{d}");
    let d = render_unified_diff("a\n", "b\n", None, "/abs/item.md".into());
    assert!(d.starts_with("--- a//abs/item.md\n"), "{d}");
}

// ── help document ───────────────────────────────────────────────────────

fn arg(id: &str, long: Option<&str>, short: Option<char>, global: bool, positional: bool, hidden: bool) -> ArgSpec {
    ArgSpec {
        id: id.into(),
        short,
        long: long.map(str::to_string),
        required: positional,
        global,
        hidden,
        positional,
        long_help: None,
        help: Some(format!("{id} help")),
        takes_values: positional,
        value_names: strings(&["V"]),
        default_values: strings(&["d"]),
        possible_values: Vec::new(),
        env: None,
    }
}

fn cmd(name: &str, hidden: bool, args: Vec<ArgSpec>, subs: Vec<CommandSpec>) -> CommandSpec {
    CommandSpec {
        name: name.into(),
        long_about: Some(format!("{name} long")),
        about: Some(format!("{name} short")),
        hidden,
        visible_aliases: Vec::new(),
        args,
        subcommands: subs,
    }
}

#[test]
fn help_examples_by_command() {
    let top = help_examples(&strings(&["issuectl"]));
    assert_eq!(top.len(), 4);
    assert_eq!(top[1].argv, strings(&["issuectl", "show", "login-loop", "--json"]));
    let close = help_examples(&strings(&["issuectl", "close"]));
    assert_eq!(close[0].description, "Close an issue as fixed");
    assert!(help_examples(&strings(&["issuectl", "stats"])).is_empty());
}

#[test]
fn help_arguments_and_documents() {
    let flag = arg("verbose", Some("verbose"), Some('v'), false, false, false);
    let h = help_argument(&flag);
    assert_eq!(h.short.as_deref(), Some("-v"));
    assert_eq!(h.long.as_deref(), Some("--verbose"));
    assert!(h.value_names.is_empty() && h.default.is_empty());
    let pos = help_argument(&arg("slug", None, None, false, true, false));
    assert_eq!(pos.value_names, strings(&["V"]));
    assert_eq!(pos.description.as_deref(), Some("slug help"));

    let body = cmd("body", false, vec![arg("slug", None, None, false, true, false)], vec![cmd("set", false, Vec::new(), Vec::new())]);
    let root = cmd(
        "issuectl",
        false,
        vec![arg("json", Some("json"), None, true, false, false), arg("secret", Some("secret"), None, true, false, true)],
        vec![body, cmd("internal", true, Vec::new(), Vec::new())],
    );
    assert_eq!(select_command(&root, &strings(&["body", "set"])).name, "set");
    assert_eq!(select_command(&root, &strings(&["nope", "set"])).name, "issuectl");
    assert_eq!(select_command(&root, &Vec::new()).name, "issuectl");

    let doc = json_help_document(&root, &strings(&["body"]));
    assert_eq!(doc.path, strings(&["issuectl", "body"]));
    assert_eq!(doc.description.as_deref(), Some("body long"));
    assert_eq!(doc.args.len(), 1);
    assert_eq!(doc.flags.len(), 1);
    assert_eq!(doc.flags[0].long.as_deref(), Some("--json"));
    assert_eq!(doc.subcommands.len(), 1);

    let top = json_help_document(&root, &Vec::new());
    // Hidden subcommands and hidden flags are left out; the root's global
    // flags are listed once.
    assert_eq!(top.subcommands.len(), 1);
    assert_eq!(top.flags.len(), 1);
    assert_eq!(top.examples.len(), 4);
}

// ── tables and trees ────────────────────────────────────────────────────

fn row(slug: &str, title: &str, assignee: &str) -> IssueRow {
    IssueRow {
        slug: slug.into(),
        title: title.into(),
        issue_type: "bug".into(),
        status: "open".into(),
        priority: "high".into(),
        assignee: assignee.into(),
    }
}

#[test]
fn issue_table_layout() {
    assert_eq!(issue_table_lines(&Vec::new()), strings(&["No issues found."]));
    let lines = issue_table_lines(&vec![row("login-loop", "Login loop", "alice"), row("a", "Ä title", "")]);
    assert_eq!(lines[0], "Slug       Title      Type Status Pri  Assignee");
    assert_eq!(lines[1], "─".repeat(11 + 11 + 5 + 7 + 5 + 9));
    assert_eq!(lines[2], "login-loop Login loop bug  open   high alice");
    assert_eq!(lines[3], "a          Ä title    bug  open   high");
    assert_eq!(lines[4], "");
    assert_eq!(lines[5], "2 issue(s)");
    let long = issue_table_lines(&vec![row("x", &"t".repeat(60), "")]);
    assert!(long[2].contains(&format!("{}…", "t".repeat(49))));
}

#[test]
fn issue_detail_layout() {
    let d = IssueDetail {
        slug: "login-loop".into(),
        title: "Login loop".into(),
        status: "open".into(),
        folder: "open".into(),
        issue_type: "bug".into(),
        priority: "high".into(),
        assignee: Some("alice".into()),
        owner: None,
        reporter: None,
        created: Some("2024-01-01".into()),
        updated: None,
        epic: Some("auth".into()),
        labels: Some(strings(&["ui", "safari"])),
        related: Some(Vec::new()),
        closed: None,
        closed_by: None,
        commits: Some(vec![("abc".into(), "fix".into())]),
        body: "Body text".into(),
    };
    assert_eq!(
        issue_detail_lines(&d),
        vec![
            "login-loop  Login loop".to_string(),
            "─".repeat(60),
            "Status:   open  (open)".to_string(),
            "Type:     bug".to_string(),
            "Priority: high".to_string(),
            "Assignee: alice".to_string(),
            "Created:  2024-01-01".to_string(),
            "Epic:     @auth".to_string(),
            "Labels:   ui, safari".to_string(),
            "Commits:".to_string(),
            "  abc  fix".to_string(),
            String::new(),
            "Body text".to_string(),
        ]
    );
}

fn node(slug: &str, children: Vec<TreeNode>) -> TreeNode {
    TreeNode {
        slug: slug.into(),
        issue_type: "task".into(),
        status: "open".into(),
        priority: "normal".into(),
        title: format!("{slug} title"),
        children,
    }
}

#[test]
fn epic_tree_layout() {
    let tree = node("epic", vec![node("a", vec![node("a1", Vec::new())]), node("b", Vec::new())]);
    assert_eq!(
        epic_tree_lines(&tree),
        strings(&[
            "@epic  [task/open/normal]  epic title",
            "├─ @a  [task/open/normal]  a title",
            "│  └─ @a1  [task/open/normal]  a1 title",
            "└─ @b  [task/open/normal]  b title",
            "",
            "3 descendants",
        ])
    );
    let single = node("e", vec![node("x", Vec::new())]);
    assert_eq!(epic_tree_lines(&single).last().unwrap(), "1 descendant");
    assert_eq!(epic_tree_lines(&node("lone", Vec::new())), strings(&["@lone  [task/open/normal]  lone title", "", "0 descendants"]));
}

// ── the reception queue ─────────────────────────────────────────────────

fn queued(slug: &str, created: Option<&str>, status: &str, labels: &[&str], analysed: bool) -> issuectl::intake::QueueItem {
    issuectl::intake::QueueItem {
        slug: slug.into(),
        issue_type: if slug.starts_with('b') { "bug".into() } else { "task".into() },
        title: format!("{slug} title"),
        created: created.map(str::to_string),
        analysed,
        intake: intake(status, Some(labels), None),
    }
}

#[test]
fn intake_queue_order_and_filters() {
    let items = vec![
        queued("zed", Some("2024-03-01"), "untriaged", &["via:email"], false),
        queued("bug-a", None, "untriaged", &[], true),
        queued("aaa", Some("2024-03-01"), "untriaged", &["via:phone"], false),
        queued("early", Some("2024-01-15"), "untriaged", &["via:email"], true),
        queued("legacy", None, "open", &["needs-triage"], false),
        queued("bug-b", None, "deferred", &[], false),
    ];
    // Dated first, oldest first, then by slug; undated last.
    assert_eq!(queue_rows(&items, "untriaged", &None, &None, false), vec![3, 2, 0, 1]);
    assert_eq!(queue_rows(&items, "untriaged", &Some("bug".into()), &None, false), vec![1]);
    assert_eq!(queue_rows(&items, "untriaged", &None, &Some("email".into()), false), vec![3, 0]);
    assert_eq!(queue_rows(&items, "untriaged", &None, &None, true), vec![2, 0]);
    assert_eq!(queue_rows(&items, "deferred", &None, &None, false), vec![5]);
    let rows = queue_rows(&items, "untriaged", &None, &None, false);
    assert_eq!(
        queue_lines(&items, &rows, "untriaged"),
        strings(&[
            "Intake queue (untriaged) — 4 item(s), oldest first:",
            "  2024-01-15  task  early  (email)  early title",
            "  2024-03-01  task  aaa  (phone)  aaa title  [needs-analysis]",
            "  2024-03-01  task  zed  (email)  zed title  [needs-analysis]",
            "  ????-??-??  bug  bug-a  (-)  bug-a title",
        ])
    );
    assert_eq!(queue_lines(&items, &Vec::new(), "needs-info"), strings(&["No items in the needs-info queue."]));
    assert_eq!(legacy_count(&items), 1);
    assert_eq!(
        legacy_warning(1).unwrap(),
        "1 legacy label-based intake item(s) hidden from the status-based queue; run `issuectl intake migrate --apply` to admit them"
    );
    assert!(legacy_warning(0).is_none());
}

// ── skills, DAG, walk, identity ─────────────────────────────────────────

#[test]
fn pi_status_report() {
    let status = PiStatus {
        root: "/home/u/.pi".into(),
        version: "0.17.2".into(),
        skills: vec![
            PiSkillRow { name: "issuectl".into(), state: PiSkillState::UpToDate, label: "up to date".into(), recorded_version: Some("0.17.2".into()) },
            PiSkillRow { name: "old".into(), state: PiSkillState::Stale, label: "stale".into(), recorded_version: None },
        ],
        has_findings: true,
    };
    assert_eq!(
        pi_status_lines(&status),
        strings(&[
            "pi.dev skill corpus  /home/u/.pi",
            "Running issuectl 0.17.2",
            "",
            "  ✓ issuectl  up to date",
            "  ⚠ old       stale (recorded unknown ≠ running 0.17.2; `issuectl skill install --force` rewrites it to 0.17.2)",
        ])
    );
    let empty = PiStatus { skills: Vec::new(), ..status };
    assert_eq!(pi_status_lines(&empty).last().unwrap(), "  (no skill entries found)");
}

#[test]
fn pi_prune_report() {
    assert_eq!(
        pi_prune_lines(&Vec::new(), &Vec::new(), true),
        strings(&["Nothing to prune — the pi.dev skill corpus has no orphaned issuectl entries."])
    );
    let removed = vec![PrunedEntry { name: "gone".into(), kind: PiPruneKind::Missing }];
    let skipped = vec![
        SkippedEntry { name: "a".into(), path: "/p/a".into() },
        SkippedEntry { name: "b".into(), path: "/p/b".into() },
    ];
    assert_eq!(
        pi_prune_lines(&removed, &skipped, false),
        strings(&[
            "Dry run — would remove 1 entry (pass --force to apply):",
            "  - gone (missing record)",
            "",
            "Left 2 orphan entries in place for safety (symlink, extra files, or unremovable):",
            "  - a (/p/a)",
            "  - b (/p/b)",
            "  Inspect and remove these by hand if you want them gone.",
            "",
            "  Re-run with `issuectl skill pi-prune --force` to apply.",
        ])
    );
    assert_eq!(pi_prune_lines(&removed, &Vec::new(), true), strings(&["Removed 1 entry from the pi.dev skill corpus:", "  - gone (missing record)"]));
}

#[test]
fn dag_view_lines() {
    let r = |slug: &str, spawnable: bool| DagRow {
        slug: slug.into(),
        status: "open".into(),
        title: "T".into(),
        blockers_open: Vec::new(),
        blockers_missing: Vec::new(),
        reserved: false,
        collision: Vec::new(),
        spawnable,
        is_head_of_line: false,
    };
    assert_eq!(dag_lines(&DagView { spawnable_heads: 0, lanes: Vec::new(), unscheduled: Vec::new() }), strings(&["(no issues)"]));
    let view = DagView {
        spawnable_heads: 1,
        lanes: vec![DagLane { lane: "auth".into(), depth: 2, head_of_line: None, issues: vec![r("a", true)] }],
        unscheduled: vec![r("u", false)],
    };
    assert_eq!(
        dag_lines(&view),
        vec![
            "spawnable heads: 1".to_string(),
            "lane auth (depth: 2, head-of-line: —)".to_string(),
            format!("  ▶ {:<28} {:<12} T", "a", "open"),
            String::new(),
            "unscheduled".to_string(),
            format!("    {:<28} {:<12} T", "u", "open"),
        ]
    );
}

#[test]
fn walk_rules() {
    assert_eq!(walk_step("src", false, true, false, None), WalkStep::Descend);
    assert_eq!(walk_step("target", false, true, false, None), WalkStep::Skip);
    assert_eq!(walk_step(".git", false, true, false, None), WalkStep::Skip);
    assert_eq!(walk_step("main.rs", false, false, true, Some(10)), WalkStep::Scan);
    assert_eq!(walk_step("big.lock", false, false, true, Some(1_000_001)), WalkStep::Skip);
    assert_eq!(walk_step("exact", false, false, true, Some(1_000_000)), WalkStep::Scan);
    assert_eq!(walk_step("link", true, false, true, Some(1)), WalkStep::Skip);
    assert_eq!(walk_step("fifo", false, false, false, None), WalkStep::Skip);
}

#[test]
fn user_identity() {
    assert_eq!(pick_user(&vec![None, Some("  ".into()), Some(" Ada ".into()), Some("Bob".into())]), Some("Ada".to_string()));
    assert_eq!(pick_user(&vec![None, Some("\n".into())]), None);
    assert_eq!(pick_user(&Vec::new()), None);
}

#[test]
fn import_summaries() {
    let created = vec![("a-b".to_string(), "A b".to_string())];
    let failed = vec![("Bad \"one\"".to_string(), "missing title".to_string())];
    let all = import_summary(&created, &Vec::new());
    assert_eq!(all.out, strings(&["Created a-b: A b", "Imported 1 issue(s); 0 failed."]));
    assert!(all.err.is_empty());
    assert_eq!(all.exit_code, 0);
    let some = import_summary(&created, &failed);
    assert_eq!(some.err, strings(&["Failed to import \"Bad \\\"one\\\"\": missing title"]));
    assert_eq!(some.exit_code, 2);
    assert_eq!(import_summary(&Vec::new(), &failed).exit_code, 1);
}

#[test]
fn commit_reference_round_trip() {
    for (hash, summary) in [("abc123", "fix login"), ("deadbeef", "a: b"), ("x", "y")] {
        assert_eq!(
            parse_commit_spec(&format!("{hash}:{summary}")).unwrap(),
            (hash.to_string(), summary.to_string())
        );
    }
}

#[test]
fn trimmed_note_text_is_stable() {
    let once = finish_note_text("\t  note body \n\n").unwrap();
    assert_eq!(finish_note_text(&once).unwrap(), once);
}

#[test]
fn workload_tables() {
    assert_eq!(workload_lines("By cycle", &Vec::new()), strings(&["", "By cycle:", "  (no issues)"]));
    let rows = vec![WorkloadRow {
        key: "a-really-long-assignee-name".into(),
        count: 3,
        points: format!("{:.1}", 7.5f64),
        unestimated: 1,
    }];
    let lines = workload_lines("By assignee", &rows);
    assert_eq!(lines[2], format!("  {:<20} {:>6} {:>8} {:>12}", "KEY", "COUNT", "POINTS", "UNESTIMATED"));
    assert_eq!(lines[3], format!("  {:<20} {:>6} {:>8.1} {:>12}", "a-really-long-assig…", 3, 7.5f64, 1));
}

#[test]
fn inbox_listing() {
    let items = vec![
        item("draft-1", "First", "inbox", None),
        item("open-1", "Open", "open", None),
        item("draft-2", "Second", "inbox", None),
    ];
    assert_eq!(
        inbox_lines(&items),
        strings(&["Inbox drafts (2):", "  draft-1  First", "  draft-2  Second", "", "Promote one with: issuectl triage <slug>"])
    );
    assert_eq!(inbox_lines(&vec![item("o", "O", "open", None)]), strings(&["Inbox is empty."]));
}

#[test]
fn skill_catalog() {
    let t = |agent: &str| InstallTarget { agent: agent.into(), label: "project".into(), path: format!(".{agent}/skills") };
    let es = vec![
        SkillEntry { name: "issuectl".into(), description: "Track issues".into(), targets: vec![t("helix"), t("pi")] },
        SkillEntry { name: "other".into(), description: "More".into(), targets: vec![t("zed")] },
    ];
    assert_eq!(
        skill_catalog_lines(&es),
        strings(&[
            "issuectl  Track issues",
            "  [helix] project  .helix/skills",
            "  [pi   ] project  .pi/skills",
            "other  More",
            "  [zed  ] project  .zed/skills",
        ])
    );
}

fn patch_text(p: &Patch) -> String {
    match p {
        Patch::Keep => "keep".to_string(),
        Patch::Replace(v) => format!("={v}"),
        Patch::Clear => "clear".to_string(),
    }
}

#[test]
fn bulk_requests_route_patches() {
    let spec = BulkSpec {
        set: vec![("status".into(), "done".into()), ("team".into(), "core".into()), ("type".into(), "bug".into())],
        clear: strings(&["epic", "area"]),
        add_labels: strings(&["triaged"]),
        ..Default::default()
    };
    assert!(validate_bulk_spec(&spec).is_ok());
    let req = build_bulk_request(&spec, true);
    assert!(req.dry_run);
    assert_eq!(patch_text(&req.status), "=done");
    assert_eq!(patch_text(&req.issue_type), "=bug");
    assert_eq!(patch_text(&req.epic), "clear");
    assert_eq!(patch_text(&req.priority), "keep");
    let custom: Vec<(String, String)> = req.custom_fields.iter().map(|(k, p)| (k.clone(), patch_text(p))).collect();
    assert_eq!(custom, vec![("area".to_string(), "clear".to_string()), ("team".to_string(), "=core".to_string())]);
    assert_eq!(req.add_labels, strings(&["triaged"]));
    // Without the checks, a later patch for the same field wins.
    let twice = BulkSpec { set: vec![("team".into(), "a".into())], clear: strings(&["team"]), ..Default::default() };
    let req = build_bulk_request(&twice, false);
    assert_eq!(patch_text(&req.custom_fields[0].1), "clear");
}

#[test]
fn usage_error_reactions() {
    assert!(matches!(usage_error_action(true, ParseFailure::DisplayHelp, None, "Usage: x"), UsageAction::JsonHelp));
    match usage_error_action(true, ParseFailure::Other, Some("run it".into()), "error: bad\n\nUsage: x\n") {
        UsageAction::JsonError(m) => assert_eq!(m, "error: bad\n\nUsage: x\n\ntip: run it"),
        _ => panic!("expected a JSON error"),
    }
    match usage_error_action(true, ParseFailure::Other, None, "error: bad  \n") {
        UsageAction::JsonError(m) => assert_eq!(m, "error: bad"),
        _ => panic!("expected a JSON error"),
    }
    assert!(matches!(usage_error_action(true, ParseFailure::DisplayVersion, None, "1.0"), UsageAction::Default));
    match usage_error_action(false, ParseFailure::Other, Some("tip".into()), "error") {
        UsageAction::PrintWithTip(t) => assert_eq!(t, "tip"),
        _ => panic!("expected a tip"),
    }
    assert!(matches!(usage_error_action(false, ParseFailure::DisplayHelp, None, "help"), UsageAction::Default));
}

fn action(slug: &str) -> MigrationAction {
    MigrationAction {
        slug: slug.into(),
        conflict: None,
        error: None,
        status_change: None,
        dropped_labels: Vec::new(),
        set_provenance: None,
        warnings: Vec::new(),
        applied: false,
    }
}

#[test]
fn migration_reports() {
    assert_eq!(migrate_lines(true, 0, 0, 0, &Vec::new()), strings(&["Intake migration — applied: no legacy items to migrate."]));
    let plan = MigrationAction {
        status_change: Some(("open".into(), "untriaged".into())),
        dropped_labels: strings(&["needs-triage", "via:email"]),
        set_provenance: Some("email".into()),
        warnings: strings(&["title is empty"]),
        ..action("a-1")
    };
    let skip = MigrationAction { conflict: Some("already triaged".into()), ..action("b-2") };
    let fail = MigrationAction { error: Some("write failed".into()), ..action("c-3") };
    assert_eq!(action_kind(&plan), "migrate");
    assert_eq!(action_kind(&skip), "skip");
    assert_eq!(action_kind(&fail), "error");
    assert_eq!(
        migrate_lines(false, 1, 1, 1, &vec![plan, skip, fail]),
        strings(&[
            "Intake migration — dry-run (nothing written): 1 to migrate, 1 skipped (conflict), 1 failed:",
            "  PLAN  a-1  status open → untriaged; drop label(s) needs-triage, via:email; provenance → email",
            "        warn: title is empty",
            "  SKIP  b-2  — already triaged",
            "  FAIL  c-3  — write failed",
            "",
            "Re-run with `issuectl intake migrate --apply` to write these changes.",
        ])
    );
    let done = MigrationAction { applied: true, ..action("d-4") };
    assert_eq!(
        migrate_lines(true, 1, 0, 0, &vec![done]),
        strings(&["Intake migration — applied: 1 migrated, 0 skipped (conflict), 0 failed:", "  DONE  d-4  "])
    );
}

#[test]
fn only_the_first_marker_on_a_line_counts() {
    let line = "// TODO(issue: first-one) and TODO(issue: second-one)";
    assert!(matches!(parse_todo_marker(line, slug_rule), Some(TodoMarker::Linked(s)) if s == "first-one"));
    let hits = scan_text(line, &Vec::new(), slug_rule).unwrap();
    assert_eq!(hits.len(), 1);
    assert_eq!(hits[0].slug.as_deref(), Some("first-one"));
}

fn planned(slug: &str, hash: &str, kind: issuectl::sync::AttributionKind, already_present: bool) -> issuectl::sync::PlannedCommit {
    issuectl::sync::PlannedCommit {
        slug: slug.to_string(),
        hash: hash.to_string(),
        summary: "fix parser".to_string(),
        kind,
        already_present,
    }
}

#[test]
fn sync_report_lists_planned_commits_and_totals() {
    let report = SyncReport {
        range: "main..HEAD".to_string(),
        branch: Some("fix-parser".to_string()),
        planned: vec![
            planned("fix-parser", "abc1234", AttributionKind::Refs, false),
            planned("old-bug", "def5678", AttributionKind::Fixes, true),
        ],
        applied: vec![("fix-parser".to_string(), 2), ("other".to_string(), 3)],
        fixes_hints: vec!["old-bug".to_string()],
        unknown_slugs: vec!["ghost".to_string()],
        load_warnings: vec!["bad yaml".to_string()],
        warnings: vec![],
    };
    let lines = sync_report_lines(&report, false);
    assert_eq!(
        lines.out,
        vec![
            "Range: main..HEAD".to_string(),
            "Branch fallback slug: @fix-parser".to_string(),
            format!("  @{:<32} abc1234 fix parser [refs]", "fix-parser"),
            format!("  @{:<32} def5678 fix parser [fixes] (already present)", "old-bug"),
            "Added 5 commit(s) across 2 issue(s).".to_string(),
        ]
    );
    assert_eq!(
        lines.err,
        vec![
            "Hint: @old-bug has Fixes-Issue trailer — consider `issuectl close old-bug`".to_string(),
            "Warning: trailer references unknown slug @ghost (no issue with that slug)".to_string(),
            "Warning: bad yaml".to_string(),
        ]
    );
}

#[test]
fn sync_report_dry_run_and_empty_cases() {
    let mut report = SyncReport {
        range: "HEAD~3..HEAD".to_string(),
        branch: None,
        planned: vec![planned("a", "0000000", AttributionKind::Branch, false)],
        applied: vec![],
        fixes_hints: vec![],
        unknown_slugs: vec![],
        load_warnings: vec![],
        warnings: vec!["w".to_string()],
    };
    let dry = sync_report_lines(&report, true);
    assert_eq!(dry.out.len(), 2);
    assert_eq!(dry.out[1], format!("  @{:<32} 0000000 fix parser [branch] (would add)", "a"));
    let wet = sync_report_lines(&report, false);
    assert_eq!(wet.out[2], "No new commits to add (all already present).");
    assert_eq!(wet.err, vec!["Warning: w".to_string()]);
    report.planned.clear();
    let none = sync_report_lines(&report, false);
    assert_eq!(
        none.out,
        vec![
            "Range: HEAD~3..HEAD".to_string(),
            "No commits with Refs-Issue / Fixes-Issue trailers in range.".to_string(),
        ]
    );
}
