use dotfile_manager::codec::{decode_bulk, encode_record, encode_record_checked, process_template_to_struct};
use dotfile_manager::create::{
    create_template, CreateEvent, CreatePhase, CreateRun, PathState, WriteOutcome,
};
use dotfile_manager::error::TemplateError;
use dotfile_manager::registry::{
    export_templates, import_templates, insert_record, list_templates, remove_template,
    sorted_templates,
};
use dotfile_manager::resolver::match_user_input_with_existing_templates;
use dotfile_manager::template::Template;

fn t(name: &str, path: &str, git_path: &str) -> Template {
    Template::new(name.to_string(), path.to_string(), git_path.to_string())
}

fn s(v: &str) -> Option<String> {
    Some(v.to_string())
}

fn triple(x: &Template) -> (String, String, String) {
    (x.name.clone(), x.path.clone(), x.git_path.clone())
}

fn names(v: &[Template]) -> Vec<String> {
    v.iter().map(|x| x.name.clone()).collect()
}

/// Drives a creation with the observations given, in order.
fn drive(mut run: CreateRun, events: &[CreateEvent]) -> CreateRun {
    for e in events {
        run = run.step(*e);
    }
    run
}

const HOME: &str = "/home/user";

fn home() -> String {
    HOME.to_string()
}

#[test]
fn record_round_trip_through_codec() {
    let rec = t("dotfiles", "/home/user/.dotfiles", "https://example.com/r.git");
    let text = encode_record(&rec, &home());
    assert_eq!(
        text,
        "[template]\nname = \"dotfiles\"\npath = \"~/.dotfiles\"\ngit_path = \"https://example.com/r.git\"\n"
    );
    let back = process_template_to_struct(&text, &home()).unwrap();
    assert_eq!(triple(&back), triple(&rec));
}

#[test]
fn record_round_trip_with_escaped_characters() {
    let rec = t("we\"ird\\name", "/srv/a\tb", "git@example.com:x.git");
    let text = encode_record(&rec, &home());
    let back = process_template_to_struct(&text, &home()).unwrap();
    assert_eq!(triple(&back), triple(&rec));
}

#[test]
fn process_template_to_struct_expands_tilde() {
    let text = "[template]\nname = \"a\"\npath = \"~/cfg\"\ngit_path = \"g\"\n";
    let back = process_template_to_struct(text, &home()).unwrap();
    assert_eq!(back.path, "/home/user/cfg");
}

#[test]
fn process_template_to_struct_missing_field_is_malformed() {
    let text = "[template]\nname = \"a\"\npath = \"/p\"\n";
    assert_eq!(process_template_to_struct(text, &home()).unwrap_err(), TemplateError::MalformedRecord);
}

#[test]
fn process_template_to_struct_without_section_is_malformed() {
    let text = "name = \"a\"\npath = \"/p\"\ngit_path = \"g\"\n";
    assert_eq!(process_template_to_struct(text, &home()).unwrap_err(), TemplateError::MalformedRecord);
}

#[test]
fn process_template_to_struct_unparsable_is_malformed() {
    assert_eq!(process_template_to_struct("[template\nname = ", &home()).unwrap_err(), TemplateError::MalformedRecord);
}

#[test]
fn process_template_to_struct_empty_field_is_malformed() {
    let text = "[template]\nname = \"\"\npath = \"/p\"\ngit_path = \"g\"\n";
    assert_eq!(process_template_to_struct(text, &home()).unwrap_err(), TemplateError::MalformedRecord);
}

#[test]
fn resolver_last_match_over_sorted_enumeration() {
    let reg = vec![t("foo", "/x", "ga"), t("bar", "/x", "gb")];
    let sorted = sorted_templates(&reg);
    assert_eq!(names(&sorted), vec!["bar", "foo"]);
    let first = match_user_input_with_existing_templates(&sorted, None, s("/x"), None).unwrap();
    let again = match_user_input_with_existing_templates(&sorted, None, s("/x"), None).unwrap();
    assert_eq!(first.name, "foo");
    assert_eq!(triple(&first), triple(&again));
    // the same records enumerated in the other order resolve alike once sorted
    let other = sorted_templates(&vec![t("bar", "/x", "gb"), t("foo", "/x", "ga")]);
    let third = match_user_input_with_existing_templates(&other, None, s("/x"), None).unwrap();
    assert_eq!(third.name, "foo");
}

#[test]
fn resolver_precedence_name_first() {
    let reg = vec![t("a", "/p1", "g1"), t("b", "/p2", "g2")];
    let r = match_user_input_with_existing_templates(&reg, s("a"), s("/p2"), s("g2")).unwrap();
    assert_eq!(r.name, "a");
    let r = match_user_input_with_existing_templates(&reg, None, s("/p2"), s("g1")).unwrap();
    assert_eq!(r.name, "b");
    let r = match_user_input_with_existing_templates(&reg, None, None, s("g1")).unwrap();
    assert_eq!(r.name, "a");
}

#[test]
fn resolver_exact_equality_only() {
    let reg = vec![t("dotfiles", "/p", "g")];
    let r = match_user_input_with_existing_templates(&reg, s("dot"), None, None);
    assert_eq!(r.unwrap_err(), TemplateError::NotFound);
}

#[test]
fn resolver_without_field_is_insufficient() {
    let empty: Vec<Template> = Vec::new();
    let r = match_user_input_with_existing_templates(&empty, None, None, None);
    assert_eq!(r.unwrap_err(), TemplateError::InsufficientInput);
    let reg = vec![t("a", "/p", "g")];
    let r = match_user_input_with_existing_templates(&reg, None, None, None);
    assert_eq!(r.unwrap_err(), TemplateError::InsufficientInput);
}

#[test]
fn create_same_name_twice_is_refused() {
    let mut reg: Vec<Template> = Vec::new();
    let run = create_template(&reg, s("dotfiles"), s("/tmp/t1"), s("https://example.com/r.git"), &home()).unwrap();
    let run = drive(
        run,
        &[
            CreateEvent::Inspected(PathState::PopulatedDir),
            CreateEvent::Verified { has_origin: true, reachable: true },
            CreateEvent::Written(WriteOutcome::Stored),
        ],
    );
    assert_eq!(run.phase, CreatePhase::Done);
    insert_record(&mut reg, run.template).unwrap();
    let before = reg.len();
    let second = create_template(&reg, s("dotfiles"), s("/tmp/other"), s("g"), &home());
    assert_eq!(second.unwrap_err(), TemplateError::AlreadyExists);
    let dup = insert_record(&mut reg, t("dotfiles", "/tmp/other", "g"));
    assert_eq!(dup.unwrap_err(), TemplateError::AlreadyExists);
    assert_eq!(reg.len(), before);
}

#[test]
fn create_requires_all_fields() {
    let reg: Vec<Template> = Vec::new();
    let r = create_template(&reg, s("a"), None, s("g"), &home());
    assert_eq!(r.unwrap_err(), TemplateError::InsufficientInput);
    let r = create_template(&reg, s("a"), s(""), s("g"), &home());
    assert_eq!(r.unwrap_err(), TemplateError::InsufficientInput);
}

#[test]
fn create_expands_home_in_local_path() {
    let reg: Vec<Template> = Vec::new();
    let run = create_template(&reg, s("a"), s("~/cfg"), s("g"), &home()).unwrap();
    assert_eq!(run.template.path, "/home/user/cfg");
    assert_eq!(run.phase, CreatePhase::Inspect);
    assert!(!run.cloned);
}

#[test]
fn create_end_to_end_with_clone() {
    let mut reg: Vec<Template> = Vec::new();
    let run = create_template(&reg, s("dotfiles"), s("/tmp/t1"), s("https://example.com/r.git"), &home()).unwrap();
    let run = run.step(CreateEvent::Inspected(PathState::Missing));
    assert_eq!(run.phase, CreatePhase::Consent);
    let run = run.step(CreateEvent::Answered(true));
    assert_eq!(run.phase, CreatePhase::Clone);
    assert_eq!(run.template.git_path, "https://example.com/r.git");
    assert_eq!(run.template.path, "/tmp/t1");
    let run = run.step(CreateEvent::Cloned(true));
    assert_eq!(run.phase, CreatePhase::Inspect);
    assert!(run.cloned);
    let run = drive(
        run,
        &[
            CreateEvent::Inspected(PathState::PopulatedDir),
            CreateEvent::Verified { has_origin: true, reachable: true },
            CreateEvent::Written(WriteOutcome::Stored),
        ],
    );
    assert_eq!(run.phase, CreatePhase::Done);
    assert!(run.is_finished());
    insert_record(&mut reg, run.template).unwrap();
    assert_eq!(reg.len(), 1);
    assert_eq!(
        triple(&reg[0]),
        ("dotfiles".to_string(), "/tmp/t1".to_string(), "https://example.com/r.git".to_string())
    );
}

#[test]
fn create_empty_dir_offers_clone() {
    let reg: Vec<Template> = Vec::new();
    let run = create_template(&reg, s("a"), s("/p"), s("g"), &home()).unwrap();
    let run = run.step(CreateEvent::Inspected(PathState::EmptyDir));
    assert_eq!(run.phase, CreatePhase::Consent);
}

#[test]
fn create_declined_is_user_aborted() {
    let reg: Vec<Template> = Vec::new();
    let run = create_template(&reg, s("a"), s("/p"), s("g"), &home()).unwrap();
    let run = drive(run, &[CreateEvent::Inspected(PathState::Missing), CreateEvent::Answered(false)]);
    assert_eq!(run.phase, CreatePhase::Failed(TemplateError::UserAborted));
}

#[test]
fn create_on_file_is_not_a_directory() {
    let reg: Vec<Template> = Vec::new();
    let run = create_template(&reg, s("a"), s("/p"), s("g"), &home()).unwrap();
    let run = run.step(CreateEvent::Inspected(PathState::File));
    assert_eq!(run.phase, CreatePhase::Failed(TemplateError::NotADirectory));
}

#[test]
fn create_clone_failure() {
    let reg: Vec<Template> = Vec::new();
    let run = create_template(&reg, s("a"), s("/p"), s("g"), &home()).unwrap();
    let run = drive(
        run,
        &[CreateEvent::Inspected(PathState::Missing), CreateEvent::Answered(true), CreateEvent::Cloned(false)],
    );
    assert_eq!(run.phase, CreatePhase::Failed(TemplateError::CloneFailed));
}

#[test]
fn create_retries_only_once() {
    let reg: Vec<Template> = Vec::new();
    let run = create_template(&reg, s("a"), s("/p"), s("g"), &home()).unwrap();
    let run = drive(
        run,
        &[
            CreateEvent::Inspected(PathState::Missing),
            CreateEvent::Answered(true),
            CreateEvent::Cloned(true),
            CreateEvent::Inspected(PathState::EmptyDir),
        ],
    );
    assert_eq!(run.phase, CreatePhase::Failed(TemplateError::CloneFailed));
}

#[test]
fn create_remote_verification_failure() {
    let reg: Vec<Template> = Vec::new();
    for (o, r) in [(false, true), (true, false), (false, false)] {
        let run = create_template(&reg, s("a"), s("/p"), s("g"), &home()).unwrap();
        let run = drive(
            run,
            &[
                CreateEvent::Inspected(PathState::PopulatedDir),
                CreateEvent::Verified { has_origin: o, reachable: r },
            ],
        );
        assert_eq!(run.phase, CreatePhase::Failed(TemplateError::RemoteVerificationFailed));
    }
}

#[test]
fn create_write_failure_is_io() {
    let reg: Vec<Template> = Vec::new();
    let run = create_template(&reg, s("a"), s("/p"), s("g"), &home()).unwrap();
    let run = drive(
        run,
        &[
            CreateEvent::Inspected(PathState::PopulatedDir),
            CreateEvent::Verified { has_origin: true, reachable: true },
            CreateEvent::Written(WriteOutcome::Failed),
        ],
    );
    assert_eq!(run.phase, CreatePhase::Failed(TemplateError::Io));
}

#[test]
fn create_ignores_foreign_events_and_final_states() {
    let reg: Vec<Template> = Vec::new();
    let run = create_template(&reg, s("a"), s("/p"), s("g"), &home()).unwrap();
    let run = run.step(CreateEvent::Answered(true));
    assert_eq!(run.phase, CreatePhase::Inspect);
    let run = run.step(CreateEvent::Inspected(PathState::File));
    let run = run.step(CreateEvent::Inspected(PathState::PopulatedDir));
    assert_eq!(run.phase, CreatePhase::Failed(TemplateError::NotADirectory));
}

const BULK: &str = "[alpha]\nname = \"alpha\"\npath = \"~/a\"\ngit_path = \"ga\"\n\n[beta]\nname = \"beta\"\npath = \"/b\"\ngit_path = \"gb\"\n\n";

#[test]
fn import_is_idempotent() {
    let mut reg = vec![t("beta", "/old", "gold")];
    let candidates = decode_bulk(BULK, &home()).unwrap().candidates;
    assert_eq!(names(&candidates), vec!["alpha", "beta"]);
    let plan = import_templates(&reg, &candidates);
    assert_eq!(names(&plan), vec!["alpha"]);
    assert_eq!(plan[0].path, "/home/user/a");
    for p in plan {
        insert_record(&mut reg, p).unwrap();
    }
    let once: Vec<_> = reg.iter().map(triple).collect();
    let again = import_templates(&reg, &decode_bulk(BULK, &home()).unwrap().candidates);
    assert!(again.is_empty());
    let twice: Vec<_> = reg.iter().map(triple).collect();
    assert_eq!(once, twice);
    assert_eq!(triple(&reg[0]), ("beta".to_string(), "/old".to_string(), "gold".to_string()));
}

#[test]
fn import_skips_duplicates_within_file() {
    let reg: Vec<Template> = Vec::new();
    let cands = vec![t("a", "/1", "g1"), t("a", "/2", "g2"), t("b", "/3", "g3")];
    let plan = import_templates(&reg, &cands);
    assert_eq!(names(&plan), vec!["a", "b"]);
    assert_eq!(plan[0].path, "/1");
}

#[test]
fn import_bulk_errors() {
    assert_eq!(decode_bulk("not toml [[[", &home()).err(), Some(TemplateError::InvalidFile));
    assert!(decode_bulk("", &home()).unwrap().candidates.is_empty());
}

#[test]
fn import_rejects_stray_key_but_keeps_the_rest() {
    let b = decode_bulk("name = \"x\"\n[a]\nname = \"a\"\npath = \"/p\"\ngit_path = \"g\"\n", &home()).unwrap();
    assert_eq!(names(&b.candidates), vec!["a"]);
    assert_eq!(b.rejected, vec!["name".to_string()]);
}

#[test]
fn import_rejects_incomplete_table_but_keeps_the_rest() {
    let text = "[a]\nname = \"a\"\ngit_path = \"g\"\n\n[b]\nname = \"b\"\npath = \"/b\"\ngit_path = \"gb\"\n";
    let b = decode_bulk(text, &home()).unwrap();
    assert_eq!(names(&b.candidates), vec!["b"]);
    assert_eq!(b.rejected, vec!["a".to_string()]);
    let reg: Vec<Template> = Vec::new();
    assert_eq!(names(&import_templates(&reg, &b.candidates)), vec!["b"]);
}

#[test]
fn control_characters_round_trip() {
    let rec = t("ctl\u{1}name", "/srv/x\u{7f}y\u{1f}", "g\u{0}it");
    let text = encode_record_checked(&rec, &home()).unwrap();
    let back = process_template_to_struct(&text, &home()).unwrap();
    assert_eq!(triple(&back), triple(&rec));
    let reg = vec![rec.duplicate(), t("plain", "/p", "g")];
    let exported = export_templates(&reg, &home()).unwrap();
    let bulk = decode_bulk(&exported, &home()).unwrap();
    assert!(bulk.rejected.is_empty());
    let got: Vec<_> = bulk.candidates.iter().map(triple).collect();
    let want: Vec<_> = sorted_templates(&reg).iter().map(triple).collect();
    assert_eq!(got, want);
}

#[test]
fn export_import_round_trip() {
    let reg = vec![
        t("zsh", "/home/user/.zsh", "https://example.com/zsh.git"),
        t("nvim", "/opt/nvim", "https://example.com/nvim.git"),
        t("my tools", "/home/user/tools", "git@example.com:t.git"),
    ];
    let text = export_templates(&reg, &home()).unwrap();
    assert!(text.starts_with("[\"my tools\"]\nname = \"my tools\"\npath = \"~/tools\"\n"));
    assert!(text.contains("[nvim]\nname = \"nvim\"\npath = \"/opt/nvim\"\ngit_path = \"https://example.com/nvim.git\"\n\n"));
    let cleared: Vec<Template> = Vec::new();
    let back = decode_bulk(&text, &home()).unwrap();
    assert!(back.rejected.is_empty());
    let back = back.candidates;
    let plan = import_templates(&cleared, &back);
    let mut got: Vec<_> = plan.iter().map(triple).collect();
    let mut want: Vec<_> = reg.iter().map(triple).collect();
    got.sort();
    want.sort();
    assert_eq!(got, want);
}

#[test]
fn export_is_sorted_by_name() {
    let reg = vec![t("b", "/b", "gb"), t("a", "/a", "ga")];
    let text = export_templates(&reg, &home()).unwrap();
    assert_eq!(
        text,
        "[a]\nname = \"a\"\npath = \"/a\"\ngit_path = \"ga\"\n\n[b]\nname = \"b\"\npath = \"/b\"\ngit_path = \"gb\"\n\n"
    );
    let empty: Vec<Template> = Vec::new();
    assert_eq!(export_templates(&empty, &home()).unwrap(), "");
}

#[test]
fn list_empty_has_one_placeholder_row() {
    let empty: Vec<Template> = Vec::new();
    let rows = list_templates(&empty);
    assert_eq!(rows.len(), 1);
    assert_eq!(rows[0].name, "No templates found");
    assert_eq!(rows[0].path, "No templates found");
    assert_eq!(rows[0].git_path, "No templates found");
}

#[test]
fn list_sorts_by_name() {
    let reg = vec![t("c", "/c", "g"), t("a", "/a", "g"), t("b", "/b", "g")];
    assert_eq!(names(&list_templates(&reg)), vec!["a", "b", "c"]);
}

#[test]
fn remove_deletes_exactly_one() {
    let mut reg = vec![t("a", "/a", "ga"), t("b", "/b", "gb"), t("c", "/c", "gc")];
    let removed = remove_template(&mut reg, None, s("/b"), None).unwrap();
    assert_eq!(removed.name, "b");
    assert_eq!(names(&reg), vec!["a", "c"]);
}

#[test]
fn remove_nonexistent_is_not_found() {
    let mut reg = vec![t("a", "/a", "ga"), t("c", "/c", "gc")];
    let r = remove_template(&mut reg, s("zzz"), None, None);
    assert_eq!(r.unwrap_err(), TemplateError::NotFound);
    assert_eq!(names(&reg), vec!["a", "c"]);
    let r = remove_template(&mut reg, None, None, None);
    assert_eq!(r.unwrap_err(), TemplateError::InsufficientInput);
    assert_eq!(reg.len(), 2);
}

#[test]
fn create_write_refused_when_file_exists() {
    let reg: Vec<Template> = Vec::new();
    let run = create_template(&reg, s("a"), s("/p"), s("g"), &home()).unwrap();
    let run = drive(
        run,
        &[
            CreateEvent::Inspected(PathState::PopulatedDir),
            CreateEvent::Verified { has_origin: true, reachable: true },
            CreateEvent::Written(WriteOutcome::AlreadyExists),
        ],
    );
    assert_eq!(run.phase, CreatePhase::Failed(TemplateError::AlreadyExists));
}
