use dotfile_manager::codec::get_templates_to_vec;
use dotfile_manager::resolver::{chosen_input, count_matches, MatchField};
use dotfile_manager::error::TemplateError;
use dotfile_manager::layout::{get_fake_git_folder, get_registry_root, get_template_folder};
use dotfile_manager::paths::{contract_home, expand_home};
use dotfile_manager::progress::{clone_progress, percent};
use dotfile_manager::registry::{check_import_file, template_file_path, templates_missing_locally};
use dotfile_manager::template::Template;

#[test]
fn home_contraction_and_expansion() {
    let h = "/home/user".to_string();
    assert_eq!(contract_home(&"/home/user/x".to_string(), &h), "~/x");
    assert_eq!(contract_home(&"/home/user".to_string(), &h), "~");
    assert_eq!(contract_home(&"/home/user2/x".to_string(), &h), "/home/user2/x");
    assert_eq!(contract_home(&"/etc/x".to_string(), &h), "/etc/x");
    assert_eq!(expand_home(&"~/x".to_string(), &h), "/home/user/x");
    assert_eq!(expand_home(&"/etc/x".to_string(), &h), "/etc/x");
    let p = "/home/user/a/b".to_string();
    assert_eq!(expand_home(&contract_home(&p, &h), &h), p);
}

#[test]
fn chosen_identifier_follows_precedence() {
    let s = |v: &str| Some(v.to_string());
    assert_eq!(chosen_input(&s("n"), &s("p"), &s("g")), s("n"));
    assert_eq!(chosen_input(&None, &s("p"), &s("g")), s("p"));
    assert_eq!(chosen_input(&None, &None, &s("g")), s("g"));
    assert_eq!(chosen_input(&None, &None, &None), None);
}

#[test]
fn folders_under_home() {
    let h = "/home/u".to_string();
    assert_eq!(get_template_folder(&h), "/home/u/.config/dotfile-manager/templates");
    assert_eq!(get_registry_root(&h), "/home/u/.config/dotfile-manager");
    assert_eq!(get_fake_git_folder(&h), "/home/u/.local/share/dotfile-manager/fake-git");
    assert_eq!(
        template_file_path(&get_template_folder(&h), &"dots".to_string()),
        "/home/u/.config/dotfile-manager/templates/dots.toml"
    );
}

#[test]
fn import_file_checks() {
    let ok = "/tmp/t.toml".to_string();
    assert!(check_import_file(&ok, true, false).is_ok());
    assert_eq!(check_import_file(&ok, false, false).unwrap_err(), TemplateError::InvalidFile);
    assert_eq!(check_import_file(&ok, true, true).unwrap_err(), TemplateError::InvalidFile);
    assert_eq!(check_import_file(&"/tmp/t.json".to_string(), true, false).unwrap_err(), TemplateError::InvalidFile);
    assert_eq!(check_import_file(&"/tmp/.toml".to_string(), true, false).unwrap_err(), TemplateError::InvalidFile);
    assert!(check_import_file(&"a.toml".to_string(), true, false).is_ok());
}

#[test]
fn percentages() {
    assert_eq!(percent(1, 3), 33);
    assert_eq!(percent(0, 0), 0);
    assert_eq!(percent(7, 7), 100);
    let p = clone_progress(50, 25, 200, 4096, 3, 4);
    assert_eq!((p.network, p.index, p.checkout, p.kbytes, p.resolving), (25, 12, 75, 4, false));
    assert!(clone_progress(9, 9, 9, 0, 0, 0).resolving);
    assert_eq!(percent(12, 10), 100);
    assert_eq!(clone_progress(5, 20, 10, 0, 3, 2).checkout, 100);
}

#[test]
fn missing_local_paths() {
    let reg = vec![
        Template::new("a".into(), "/a".into(), "g".into()),
        Template::new("b".into(), "/b".into(), "g".into()),
        Template::new("c".into(), "/c".into(), "g".into()),
    ];
    let missing = templates_missing_locally(&reg, &vec![true, false, false]);
    let n: Vec<String> = missing.iter().map(|x| x.name.clone()).collect();
    assert_eq!(n, vec!["b", "c"]);
}

#[test]
fn error_messages_are_not_empty() {
    assert_eq!(TemplateError::NotFound.message(), "Not found");
    assert!(!TemplateError::Io.message().is_empty());
}

#[test]
fn template_duplicate_and_completeness() {
    let a = Template::new("n".into(), "/p".into(), "g".into());
    let b = a.duplicate();
    assert_eq!((b.name, b.path, b.git_path), ("n".to_string(), "/p".to_string(), "g".to_string()));
    assert!(a.is_complete());
    assert!(!Template::new("".into(), "/p".into(), "g".into()).is_complete());
}

#[test]
fn decode_all_record_texts() {
    let h = "/home/user".to_string();
    let good = "[template]\nname = \"a\"\npath = \"~/a\"\ngit_path = \"g\"\n".to_string();
    let bad = "[template]\nname = \"b\"\n".to_string();
    let all = get_templates_to_vec(&vec![good.clone(), good.clone()], &h).unwrap();
    assert_eq!(all.len(), 2);
    assert_eq!(all[1].path, "/home/user/a");
    assert_eq!(get_templates_to_vec(&vec![good.clone(), bad, good], &h).unwrap_err(), 1);
}

#[test]
fn duplicate_field_values_are_counted() {
    let reg = vec![
        Template::new("a".into(), "/x".into(), "g".into()),
        Template::new("b".into(), "/x".into(), "h".into()),
        Template::new("c".into(), "/y".into(), "g".into()),
    ];
    assert_eq!(count_matches(&reg, MatchField::ByLocalPath, &"/x".to_string()), 2);
    assert_eq!(count_matches(&reg, MatchField::ByRemotePath, &"h".to_string()), 1);
    assert_eq!(count_matches(&reg, MatchField::ByName, &"z".to_string()), 0);
}
