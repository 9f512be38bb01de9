//! The command line's own unit tests, run against the library. Where a
//! function takes the issue store's rules or the actual reading as
//! arguments, the helpers below stand in for them.
use issuectl::args::{parse_bulk_clear_key, parse_bulk_set, parse_custom_field, parse_custom_field_key, parse_days, parse_non_empty};
use issuectl::bulk::{validate_bulk_spec, BulkSpec};
use issuectl::cli::subcommand_error_hint;
use issuectl::commits::parse_commit_spec;
use issuectl::display::truncate;
use issuectl::help::{help_document, ArgSpec, CommandSpec};
use issuectl::input::{read_body_file_arg, read_capped, read_capped_file, Fetched, InputSource};
use issuectl::notes::{read_message_arg, NoteSource};
use issuectl::scope::list_folder_filter;

// ── stand-ins for the issue store's rules ───────────────────────────────

const RESERVED: &[(&str, &str)] = &[
    ("type", "use --type"),
    ("title", "use --title"),
    ("slug", "slugs are fixed; use `issuectl rename`"),
    ("status", "use --status"),
    ("priority", "use --priority"),
    ("labels", "use --add-label / --remove-label"),
    ("related", "use --add-related / --remove-related"),
    ("commits", "use --add-commit"),
    ("closed", "set by moving to a closing status"),
    ("created", "set automatically on creation"),
    ("updated", "set automatically on every write"),
];

fn reserved_hint(key: &str) -> Option<String> {
    RESERVED.iter().find(|(k, _)| *k == key).map(|(_, h)| h.to_string())
}

fn is_valid_key(key: &str) -> bool {
    !key.is_empty() && key.chars().all(|c| c.is_ascii_alphanumeric() || c == '_' || c == '-')
}

fn validate_key(key: &str) -> Result<(), String> {
    if !is_valid_key(key) {
        return Err(format!("custom field key {key:?} must be alphanumeric / underscore / hyphen"));
    }
    match reserved_hint(key) {
        Some(h) => Err(format!("--field {key:?} is built-in: {h}")),
        None => Ok(()),
    }
}

fn custom_field(s: &str) -> Result<(String, String), String> {
    parse_custom_field(s, validate_key)
}

fn custom_field_key(s: &str) -> Result<String, String> {
    parse_custom_field_key(s, validate_key)
}

fn bulk_set(s: &str) -> Result<(String, String), String> {
    parse_bulk_set(s, is_valid_key, reserved_hint)
}

fn bulk_clear(s: &str) -> Result<String, String> {
    parse_bulk_clear_key(s, is_valid_key, reserved_hint)
}

fn bulk_spec(set: &[(&str, &str)], add_labels: &[&str]) -> BulkSpec {
    BulkSpec {
        set: set.iter().map(|(k, v)| (k.to_string(), v.to_string())).collect(),
        add_labels: add_labels.iter().map(|s| s.to_string()).collect(),
        ..Default::default()
    }
}

/// A note source that must never be read (the text is given inline).
fn no_read(_: NoteSource<String>) -> Result<String, String> {
    panic!("no file or stdin source expected")
}

/// Serves `data` as a reader limited to the bytes asked for would.
fn serve(data: &[u8]) -> impl FnOnce(u64) -> Result<Vec<u8>, String> + '_ {
    move |n| Ok(data.iter().take(n as usize).copied().collect())
}

/// A file that does not exist.
fn missing(_: InputSource, _: u64) -> Fetched {
    Fetched::Failed("No such file or directory (os error 2)".to_string())
}

/// A file holding `text`.
fn file_with(text: &str) -> impl FnOnce(InputSource, u64) -> Fetched + '_ {
    move |_, n| Fetched::Bytes(text.as_bytes().iter().take(n as usize).copied().collect())
}

const TEST_LIMIT: u64 = 16;

fn hint(invalid: &str, usage: &str, suggestions: &[&str]) -> Option<String> {
    subcommand_error_hint(
        true,
        Some(invalid.to_string()),
        usage,
        suggestions.iter().map(|s| s.to_string()).collect(),
    )
}

fn arg(id: &str, long: Option<&str>, global: bool, positional: bool, possible: &[&str]) -> ArgSpec {
    ArgSpec {
        id: id.to_string(),
        short: None,
        long: long.map(str::to_string),
        required: false,
        global,
        hidden: false,
        positional,
        long_help: None,
        help: Some(format!("the {id}")),
        takes_values: !possible.is_empty() || positional,
        value_names: vec![id.to_uppercase()],
        default_values: Vec::new(),
        possible_values: possible.iter().map(|s| s.to_string()).collect(),
        env: None,
    }
}

fn command(name: &str, args: Vec<ArgSpec>, subcommands: Vec<CommandSpec>) -> CommandSpec {
    CommandSpec {
        name: name.to_string(),
        long_about: None,
        about: Some(format!("{name} command")),
        hidden: false,
        visible_aliases: Vec::new(),
        args,
        subcommands,
    }
}

// ── truncate ────────────────────────────────────────────────────────────

fn check_truncate_handles_non_ascii_at_boundary() {
    let title = "Käyttäjän kirjautuminen rikki sisäänkirjautumisessa";
    for n in 1..=title.chars().count() {
        let _ = truncate(title, n);
    }
    let out = truncate(title, 10);
    assert!(out.ends_with('…'));
    assert_eq!(out.chars().count(), 10);
}

#[test]
fn cli_tests_truncate_handles_non_ascii_at_boundary() {
    check_truncate_handles_non_ascii_at_boundary();
}

#[test]
fn main_truncate_handles_non_ascii_at_boundary() {
    check_truncate_handles_non_ascii_at_boundary();
}

#[test]
fn cli_tests_truncate_keeps_short_text_unchanged() {
    assert_eq!(truncate("ä", 5), "ä");
    assert_eq!(truncate("hello", 5), "hello");
}

#[test]
fn main_truncate_keeps_short_text_unchanged() {
    assert_eq!(truncate("ä", 5), "ä");
    assert_eq!(truncate("hello", 5), "hello");
}

#[test]
fn cli_tests_truncate_max_len_zero_returns_empty() {
    assert_eq!(truncate("anything", 0), "");
    assert_eq!(truncate("", 0), "");
}

#[test]
fn main_truncate_max_len_zero_returns_empty() {
    assert_eq!(truncate("anything", 0), "");
    assert_eq!(truncate("", 0), "");
}

// ── argument value parsers ──────────────────────────────────────────────

fn check_parse_days() {
    assert_eq!(parse_days("90").unwrap(), 90);
    assert_eq!(parse_days("90d").unwrap(), 90);
    assert_eq!(parse_days("0").unwrap(), 0);
    assert!(parse_days("-5").is_err());
    assert!(parse_days("7days").is_err());
    assert!(parse_days("d").is_err());
}

#[test]
fn cli_tests_parse_days_accepts_bare_and_suffix() {
    check_parse_days();
}

#[test]
fn main_parse_days_accepts_bare_and_suffix() {
    check_parse_days();
}

#[test]
fn cli_tests_parse_commit_spec_basic() {
    assert_eq!(
        parse_commit_spec("abc123:fix login").unwrap(),
        ("abc123".to_string(), "fix login".to_string())
    );
}

#[test]
fn main_parse_commit_spec_basic() {
    assert_eq!(
        parse_commit_spec("abc123:fix login").unwrap(),
        ("abc123".to_string(), "fix login".to_string())
    );
}

#[test]
fn cli_tests_parse_commit_spec_rejects_no_colon() {
    assert!(parse_commit_spec("abc123 fix").is_err());
}

#[test]
fn main_parse_commit_spec_rejects_no_colon() {
    assert!(parse_commit_spec("abc123 fix").is_err());
}

#[test]
fn cli_tests_parse_non_empty_rejects_empty_and_padded() {
    assert!(parse_non_empty("").is_err());
    assert!(parse_non_empty("  ").is_err());
    assert!(parse_non_empty(" a").is_err());
}

#[test]
fn main_parse_non_empty_rejects_empty_and_padded() {
    assert!(parse_non_empty("").is_err());
    assert!(parse_non_empty("  ").is_err());
    assert!(parse_non_empty(" a").is_err());
}

fn check_custom_field_rejects_built_in_keys() {
    for k in ["type", "title", "slug", "status", "priority"] {
        let s = format!("{k}=foo");
        assert!(custom_field(&s).is_err(), "{k} must be rejected");
    }
}

#[test]
fn cli_tests_parse_custom_field_rejects_built_in_keys() {
    check_custom_field_rejects_built_in_keys();
}

#[test]
fn main_parse_custom_field_rejects_built_in_keys() {
    check_custom_field_rejects_built_in_keys();
}

fn check_custom_field_message_points_at_real_flag() {
    let err = custom_field("commits=foo").unwrap_err();
    assert!(err.contains("--add-commit"), "expected --add-commit hint, got {err:?}");
    let err = custom_field("closed=foo").unwrap_err();
    assert!(err.contains("status") || err.contains("closing"), "expected status/closing hint, got {err:?}");
}

#[test]
fn cli_tests_parse_custom_field_message_points_at_real_flag() {
    check_custom_field_message_points_at_real_flag();
}

#[test]
fn main_parse_custom_field_message_points_at_real_flag() {
    check_custom_field_message_points_at_real_flag();
}

fn check_custom_field_accepts_kebab_and_underscore() {
    assert!(custom_field("team=payments").is_ok());
    assert!(custom_field("team-name=payments").is_ok());
    assert!(custom_field("severity_level=p1").is_ok());
    assert!(custom_field("=payments").is_err());
    assert!(custom_field("team=").is_err());
    assert!(custom_field("team:payments").is_err());
}

#[test]
fn cli_tests_parse_custom_field_accepts_kebab_and_underscore() {
    check_custom_field_accepts_kebab_and_underscore();
}

#[test]
fn main_parse_custom_field_accepts_kebab_and_underscore() {
    check_custom_field_accepts_kebab_and_underscore();
}

fn check_custom_field_rejects_padded_input() {
    assert!(custom_field(" team=payments").is_err());
    assert!(custom_field("team =payments").is_err());
    assert!(custom_field("team= payments").is_err());
    assert!(custom_field("team=payments ").is_err());
}

#[test]
fn cli_tests_parse_custom_field_rejects_padded_input() {
    check_custom_field_rejects_padded_input();
}

#[test]
fn main_parse_custom_field_rejects_padded_input() {
    check_custom_field_rejects_padded_input();
}

fn check_custom_field_key() {
    assert!(custom_field_key("team").is_ok());
    assert!(custom_field_key("team-name").is_ok());
    assert!(custom_field_key("severity_level").is_ok());
    for (k, _) in RESERVED {
        assert!(custom_field_key(k).is_err(), "{k} must be rejected as built-in");
    }
    assert!(custom_field_key("").is_err());
    assert!(custom_field_key(" team").is_err(), "padded key");
    assert!(custom_field_key("team ").is_err(), "padded key");
    assert!(custom_field_key("bad key").is_err());
    assert!(custom_field_key("team:name").is_err());
}

#[test]
fn cli_tests_parse_custom_field_key_accepts_valid_keys_and_rejects_built_ins() {
    check_custom_field_key();
}

#[test]
fn main_parse_custom_field_key_accepts_valid_keys_and_rejects_built_ins() {
    check_custom_field_key();
}

fn check_bulk_set_accepts_built_ins_and_custom() {
    assert_eq!(bulk_set("status=done").unwrap(), ("status".to_string(), "done".to_string()));
    assert_eq!(bulk_set("team=payments").unwrap(), ("team".to_string(), "payments".to_string()));
    assert!(bulk_set("status").is_err());
    assert!(bulk_set("status=").is_err());
    assert!(bulk_set("=done").is_err());
    assert!(bulk_set(" status=done").is_err());
    assert!(bulk_set("status =done").is_err());
    assert!(bulk_set("bad key=done").is_err());
}

#[test]
fn cli_tests_parse_bulk_set_accepts_built_ins_and_custom() {
    check_bulk_set_accepts_built_ins_and_custom();
}

#[test]
fn main_parse_bulk_set_accepts_built_ins_and_custom() {
    check_bulk_set_accepts_built_ins_and_custom();
}

fn check_bulk_set_rejects_unroutable() {
    let err = bulk_set("labels=foo").unwrap_err();
    assert!(err.contains("--add-label"), "got {err:?}");
    let err = bulk_set("related=foo").unwrap_err();
    assert!(err.contains("--add-related"), "got {err:?}");
    for k in ["title", "slug", "commits", "closed", "created"] {
        assert!(bulk_set(&format!("{k}=foo")).is_err(), "{k} must be rejected");
    }
    assert!(bulk_set("priority=high").is_ok());
    assert!(bulk_set("team=payments").is_ok());
}

#[test]
fn cli_tests_parse_bulk_set_rejects_unroutable_built_ins_with_hint() {
    check_bulk_set_rejects_unroutable();
}

#[test]
fn main_parse_bulk_set_rejects_unroutable_built_ins_with_hint() {
    check_bulk_set_rejects_unroutable();
}

fn check_bulk_clear_rejects_unroutable() {
    assert!(bulk_clear("labels").is_err());
    assert!(bulk_clear("title").is_err());
    assert!(bulk_clear("epic").is_ok());
    assert!(bulk_clear("team").is_ok());
}

#[test]
fn cli_tests_parse_bulk_clear_rejects_unroutable_built_ins() {
    check_bulk_clear_rejects_unroutable();
}

#[test]
fn main_parse_bulk_clear_rejects_unroutable_built_ins() {
    check_bulk_clear_rejects_unroutable();
}

// ── bulk ────────────────────────────────────────────────────────────────

fn check_validate_bulk_spec() {
    assert!(validate_bulk_spec(&BulkSpec::default()).is_err());
    let dup_set = BulkSpec {
        set: vec![("priority".into(), "high".into()), ("priority".into(), "low".into())],
        ..Default::default()
    };
    assert!(validate_bulk_spec(&dup_set).is_err());
    let overlap = BulkSpec {
        set: vec![("epic".into(), "some-epic".into())],
        clear: vec!["epic".into()],
        ..Default::default()
    };
    assert!(validate_bulk_spec(&overlap).is_err());
    assert!(validate_bulk_spec(&bulk_spec(&[("priority", "high")], &[])).is_ok());
}

#[test]
fn cli_tests_validate_bulk_spec_rejects_empty_and_dups() {
    check_validate_bulk_spec();
}

#[test]
fn main_validate_bulk_spec_rejects_empty_and_dups() {
    check_validate_bulk_spec();
}

// ── note text ───────────────────────────────────────────────────────────

#[test]
fn cli_tests_read_message_arg_prefers_positional() {
    let got = read_message_arg(Some("hello".into()), None, false, None::<String>, no_read).unwrap();
    assert_eq!(got, "hello");
}

#[test]
fn main_read_message_arg_prefers_positional() {
    let got = read_message_arg(Some("hello".into()), None, false, None::<String>, no_read).unwrap();
    assert_eq!(got, "hello");
}

#[test]
fn read_message_arg_rejects_two_inline_sources() {
    let err = read_message_arg(Some("positional".into()), Some("flag".into()), false, None::<String>, no_read)
        .unwrap_err();
    assert!(err.contains("note_body"), "got: {err}");
}

#[test]
fn read_message_arg_reads_message_flag() {
    let got = read_message_arg(None, Some("via flag".into()), false, None::<String>, no_read).unwrap();
    assert_eq!(got, "via flag");
}

#[test]
fn cli_tests_read_message_arg_requires_a_source() {
    assert!(read_message_arg(None, None, false, None::<String>, no_read).is_err());
}

#[test]
fn main_read_message_arg_requires_a_source() {
    assert!(read_message_arg(None, None, false, None::<String>, no_read).is_err());
}

fn read_note_file(src: NoteSource<String>, contents: &str) -> Result<String, String> {
    match src {
        NoteSource::File(path) => {
            read_capped_file(&path, "note", |_: InputSource, n: u64| {
                Fetched::Bytes(contents.as_bytes().iter().take(n as usize).copied().collect())
            })
        }
        _ => panic!("a file source was expected"),
    }
}

fn check_read_message_arg_reads_from_file() {
    let got = read_message_arg(None, None, false, Some("note.md".to_string()), |src| {
        read_note_file(src, "from a file\n")
    })
    .unwrap();
    assert_eq!(got, "from a file");
}

#[test]
fn cli_tests_read_message_arg_reads_from_file() {
    check_read_message_arg_reads_from_file();
}

#[test]
fn main_read_message_arg_reads_from_file() {
    check_read_message_arg_reads_from_file();
}

fn check_read_message_arg_rejects_blank_text() {
    assert!(read_message_arg(Some("   \n".into()), None, false, None::<String>, no_read).is_err());
    assert!(read_message_arg(None, None, false, Some("blank.md".to_string()), |src| {
        read_note_file(src, "\n\n")
    })
    .is_err());
}

#[test]
fn cli_tests_read_message_arg_rejects_blank_text() {
    check_read_message_arg_rejects_blank_text();
}

#[test]
fn main_read_message_arg_rejects_blank_text() {
    check_read_message_arg_rejects_blank_text();
}

// ── capped reads ────────────────────────────────────────────────────────

fn check_read_capped_at_limit() {
    let data = vec![b'a'; TEST_LIMIT as usize];
    let got = read_capped(serve(&data), TEST_LIMIT, "note", "test").unwrap();
    assert_eq!(got.len(), TEST_LIMIT as usize);
}

#[test]
fn cli_tests_read_capped_accepts_input_at_the_limit() {
    check_read_capped_at_limit();
}

#[test]
fn main_read_capped_accepts_input_at_the_limit() {
    check_read_capped_at_limit();
}

fn check_read_capped_over_limit() {
    let data = vec![b'a'; TEST_LIMIT as usize + 1];
    let err = read_capped(serve(&data), TEST_LIMIT, "note", "test").unwrap_err();
    assert!(err.contains("exceeds"), "got: {err}");
}

#[test]
fn cli_tests_read_capped_rejects_input_over_the_limit() {
    check_read_capped_over_limit();
}

#[test]
fn main_read_capped_rejects_input_over_the_limit() {
    check_read_capped_over_limit();
}

/// An endless source: it yields every byte it is asked for.
fn endless(n: u64) -> Result<Vec<u8>, String> {
    Ok(vec![b'a'; n as usize])
}

fn check_read_capped_unbounded() {
    let err = read_capped(endless, TEST_LIMIT, "body", "test").unwrap_err();
    assert!(err.contains("exceeds"), "got: {err}");
}

#[test]
fn cli_tests_read_capped_short_circuits_an_unbounded_source() {
    check_read_capped_unbounded();
}

#[test]
fn main_read_capped_short_circuits_an_unbounded_source() {
    check_read_capped_unbounded();
}

fn check_read_capped_invalid_utf8() {
    let data: &[u8] = &[b'o', b'k', 0xff, 0xfe];
    let err = read_capped(serve(data), TEST_LIMIT, "body", "test").unwrap_err();
    assert!(err.contains("UTF-8"), "got: {err}");
    assert!(err.contains("offset 2"), "got: {err}");
}

#[test]
fn cli_tests_read_capped_rejects_invalid_utf8_with_offset() {
    check_read_capped_invalid_utf8();
}

#[test]
fn main_read_capped_rejects_invalid_utf8_with_offset() {
    check_read_capped_invalid_utf8();
}

#[test]
fn cli_tests_read_capped_file_reads_a_file() {
    let got = read_capped_file("body.md", "body", file_with("hello body\n")).unwrap();
    assert_eq!(got, "hello body\n");
}

#[test]
fn main_read_capped_file_reads_a_file() {
    let got = read_capped_file("body.md", "body", file_with("hello body\n")).unwrap();
    assert_eq!(got, "hello body\n");
}

#[test]
fn cli_tests_read_capped_file_missing_path_errors() {
    assert!(read_capped_file("does-not-exist.md", "body", missing).is_err());
}

#[test]
fn main_read_capped_file_missing_path_errors() {
    assert!(read_capped_file("does-not-exist.md", "body", missing).is_err());
}

fn check_body_file_trailing() {
    let got = read_body_file_arg("notes.md", file_with("## Notes\n\nsome markdown body\n\n")).unwrap();
    assert_eq!(got, "## Notes\n\nsome markdown body");
}

#[test]
fn cli_tests_read_body_file_arg_strips_only_trailing_whitespace() {
    check_body_file_trailing();
}

#[test]
fn main_read_body_file_arg_strips_only_trailing_whitespace() {
    check_body_file_trailing();
}

fn check_body_file_leading() {
    let got = read_body_file_arg("code.md", file_with("    let x = 1;\n\nprose\n")).unwrap();
    assert_eq!(got, "    let x = 1;\n\nprose");
}

#[test]
fn cli_tests_read_body_file_arg_preserves_leading_whitespace() {
    check_body_file_leading();
}

#[test]
fn main_read_body_file_arg_preserves_leading_whitespace() {
    check_body_file_leading();
}

fn check_body_file_empty() {
    let err = read_body_file_arg("blank.md", file_with("\n\n  \n")).unwrap_err();
    assert!(err.contains("empty"), "got: {err}");
}

#[test]
fn cli_tests_read_body_file_arg_rejects_empty_file() {
    check_body_file_empty();
}

#[test]
fn main_read_body_file_arg_rejects_empty_file() {
    check_body_file_empty();
}

fn check_body_file_missing() {
    let err = read_body_file_arg("nope.md", missing).unwrap_err();
    assert!(err.contains("cannot read body"), "got: {err}");
}

#[test]
fn cli_tests_read_body_file_arg_missing_path_errors_cleanly() {
    check_body_file_missing();
}

#[test]
fn main_read_body_file_arg_missing_path_errors_cleanly() {
    check_body_file_missing();
}

// ── routing tips for mistyped subcommands ───────────────────────────────

fn check_body_slug_hint() {
    let h = hint("some-slug", "Usage: issuectl body <COMMAND>", &[]).expect("expected a routing hint");
    assert!(h.contains("body set some-slug"), "hint should point at `body set`, was: {h}");
}

#[test]
fn cli_tests_body_slug_error_hints_body_set() {
    check_body_slug_hint();
}

#[test]
fn main_body_slug_error_hints_body_set() {
    check_body_slug_hint();
}

fn check_body_hint_interleaved() {
    // `body --json some-slug`: the error still originates under `body`.
    let h = hint("some-slug", "Usage: issuectl body [OPTIONS] <COMMAND>", &[]).expect("expected a routing hint");
    assert!(h.contains("body set some-slug"), "hint should point at `body set`, was: {h}");
}

#[test]
fn cli_tests_body_hint_survives_interleaved_global_flag() {
    check_body_hint_interleaved();
}

#[test]
fn main_body_hint_survives_interleaved_global_flag() {
    check_body_hint_interleaved();
}

fn check_body_hint_not_for_option_value() {
    // `--root=body some-slug`: the unknown subcommand is at the top level.
    let h = hint("some-slug", "Usage: issuectl [OPTIONS] <COMMAND>", &[]);
    assert!(
        h.as_deref().map(|h| !h.contains("body set")).unwrap_or(true),
        "must not emit a body-set hint for a `--root` value, was: {h:?}"
    );
}

#[test]
fn cli_tests_body_hint_not_triggered_by_option_value() {
    check_body_hint_not_for_option_value();
}

#[test]
fn main_body_hint_not_triggered_by_option_value() {
    check_body_hint_not_for_option_value();
}

fn check_near_miss_inside_subcommand() {
    // `body ls`: `ls` is unknown under `body`.
    let h = hint("ls", "Usage: issuectl body <COMMAND>", &[]);
    assert!(
        h.as_deref().map(|h| !h.contains("is an alias")).unwrap_or(true),
        "must not reroute an in-`body` token to a top-level alias, was: {h:?}"
    );
}

#[test]
fn cli_tests_near_miss_inside_subcommand_is_not_rerouted() {
    check_near_miss_inside_subcommand();
}

#[test]
fn main_near_miss_inside_subcommand_is_not_rerouted() {
    check_near_miss_inside_subcommand();
}

fn check_alias_near_miss() {
    // `neew`: the parser suggests the visible alias `new`.
    let h = hint("neew", "Usage: issuectl [OPTIONS] <COMMAND>", &["new"])
        .expect("`neew` should route through visible `new` to canonical `create`");
    assert!(h.contains("new"), "hint should mention alias, was: {h}");
    assert!(h.contains("issuectl create"), "hint should name canonical `create`, was: {h}");
}

#[test]
fn cli_tests_alias_near_miss_routes_to_canonical_verb() {
    check_alias_near_miss();
}

#[test]
fn main_alias_near_miss_routes_to_canonical_verb() {
    check_alias_near_miss();
}

#[test]
fn cli_tests_unrelated_bad_subcommand_has_no_hint() {
    assert!(hint("zzzzzzzzzz", "Usage: issuectl [OPTIONS] <COMMAND>", &[]).is_none());
}

#[test]
fn main_unrelated_bad_subcommand_has_no_hint() {
    assert!(hint("zzzzzzzzzz", "Usage: issuectl [OPTIONS] <COMMAND>", &[]).is_none());
}

// ── listing scope and help ──────────────────────────────────────────────

#[test]
fn list_folder_filter_scope_rules() {
    // Bare `list`: open-only default preserved.
    assert_eq!(list_folder_filter(false, false, false, false, false), Some("open"));
    // `-s fixed`: a pinned status lifts the open-only default.
    assert_eq!(list_folder_filter(false, false, false, true, false), None);
    // `--closed -s done`: --closed stays authoritative.
    assert_eq!(list_folder_filter(false, true, false, true, false), Some("closed"));
    // `--all -s done`: no folder restriction.
    assert_eq!(list_folder_filter(true, false, false, true, false), None);
    // A lone negated status pins nothing: still open-only.
    assert_eq!(list_folder_filter(false, false, false, false, false), Some("open"));
    // Given positionally it is a query like any other.
    assert_eq!(list_folder_filter(false, false, true, false, false), None);
}

#[test]
fn help_document_includes_global_flags_and_new_examples() {
    let create = command(
        "create",
        vec![
            arg("type", Some("type"), false, false, &["bug", "feature", "task"]),
            arg("title", Some("title"), false, false, &[]),
        ],
        Vec::new(),
    );
    let root = command(
        "issuectl",
        vec![arg("json", Some("json"), true, false, &[])],
        vec![create],
    );
    let new = root.subcommands.iter().find(|c| c.name == "create").unwrap();
    let document = help_document(&root, new, vec!["issuectl".to_string(), "create".to_string()]);
    assert!(document.flags.iter().any(|flag| flag.long.as_deref() == Some("--json") && flag.global));
    assert!(document
        .flags
        .iter()
        .find(|flag| flag.long.as_deref() == Some("--type"))
        .unwrap()
        .possible_values
        .contains(&"bug".to_string()));
    assert_eq!(document.examples[0].argv[0], "issuectl");
}
