use sniplias::alias::{Alias, AliasSource};
use sniplias::alias_store::{AliasStore, AliasStoreError, ConfigFile};

fn store_with(names: &[(&str, &str)]) -> AliasStore {
    let mut s = AliasStore::new("/home/u/.bashrc".to_string(), AliasSource::Bash);
    for (n, c) in names {
        s.add(Alias::new(n.to_string(), c.to_string(), AliasSource::Bash));
    }
    s
}

fn entries(s: &AliasStore) -> Vec<(String, String)> {
    s.list().iter().map(|a| (a.name.clone(), a.command.clone())).collect()
}

#[test]
fn parse_line_variants() {
    let a = Alias::parse_line("  alias ll='ls -la'  ", AliasSource::Zsh).unwrap();
    assert_eq!(a.name, "ll");
    assert_eq!(a.command, "ls -la");
    assert_eq!(a.source_file, AliasSource::Zsh);
    let b = Alias::parse_line("alias g=\"git status\"", AliasSource::Bash).unwrap();
    assert_eq!(b.command, "git status");
    let c = Alias::parse_line("alias x=echo", AliasSource::Bash).unwrap();
    assert_eq!(c.command, "echo");
    let d = Alias::parse_line("alias  sp = 'a=b'", AliasSource::Bash).unwrap();
    assert_eq!(d.name, "sp");
    assert_eq!(d.command, " 'a=b'");
    assert!(Alias::parse_line("alias noequals", AliasSource::Bash).is_none());
    assert!(Alias::parse_line("export PATH=/bin", AliasSource::Bash).is_none());
    assert!(Alias::parse_line("", AliasSource::Bash).is_none());
    let e = Alias::parse_line("alias q='", AliasSource::Bash).unwrap();
    assert_eq!(e.command, "'");
}

#[test]
fn alias_line_form() {
    let a = Alias::new("ll".to_string(), "ls -la".to_string(), AliasSource::Bash);
    assert_eq!(a.to_alias_string(), "alias ll='ls -la'");
    assert!(a.description.is_none());
    assert_eq!(a.created_at, a.updated_at);
}

#[test]
fn fresh_aliases_get_distinct_ids() {
    let a = Alias::new("a".to_string(), "x".to_string(), AliasSource::Bash);
    let b = Alias::new("a".to_string(), "x".to_string(), AliasSource::Bash);
    assert_ne!(a.id, b.id);
}

#[test]
fn shell_names() {
    assert_eq!(AliasSource::from_shell_name("BASH"), Some(AliasSource::Bash));
    assert_eq!(AliasSource::from_shell_name("Zsh"), Some(AliasSource::Zsh));
    assert_eq!(AliasSource::from_shell_name("fish"), None);
    assert_eq!(AliasSource::from_folded_name("zsh"), Some(AliasSource::Zsh));
    assert_eq!(AliasSource::Bash.as_str(), "bash");
    assert_eq!(AliasSource::Zsh.as_str(), "zsh");
}

#[test]
fn search_is_case_insensitive() {
    let a = Alias::new("Foo".to_string(), "echo".to_string(), AliasSource::Bash)
        .with_description("Does BAR".to_string());
    assert!(a.matches_search("foo"));
    assert!(a.matches_search("bar"));
    assert!(a.matches_search("ECHO"));
    assert!(!a.matches_search("baz"));
    assert!(a.matches_search(""));
}

#[test]
fn list_filtered_finds_foo() {
    let s = store_with(&[("foo", "x"), ("b", "FOOBAR"), ("c", "y")]);
    let found: Vec<&str> = s.list_filtered("foo").iter().map(|a| a.name.as_str()).collect();
    assert_eq!(found, vec!["foo", "b"]);
    assert_eq!(s.list_filtered("").len(), 3);
}

#[test]
fn save_appends_block_and_keeps_other_lines() {
    let s = store_with(&[("ll", "ls -la"), ("g", "git")]);
    let out = s.save("export A=1\n# note\n");
    assert_eq!(
        out,
        "export A=1\n# note\n# SNIPLIAS ALIASES START\nalias ll='ls -la'\nalias g='git'\n# SNIPLIAS ALIASES END\n"
    );
}

#[test]
fn save_then_load_round_trips() {
    let s = store_with(&[("ll", "ls -la"), ("g", "git status"), ("q", "echo 'hi'")]);
    let text = s.save("export A=1\n");
    let mut back = AliasStore::new("/home/u/.bashrc".to_string(), AliasSource::Bash);
    back.load(&text);
    assert_eq!(entries(&back), entries(&s));
}

#[test]
fn save_is_idempotent() {
    let s = store_with(&[("ll", "ls -la")]);
    let once = s.save("a\n# SNIPLIAS ALIASES START\nalias old='x'\n# SNIPLIAS ALIASES END\nb\n");
    let twice = s.save(&once);
    assert_eq!(once, twice);
}

#[test]
fn user_lines_survive_add_delete_cycles() {
    let mut s = store_with(&[]);
    let mut text = "export A=1\n\n# comment\nset -o vi\n".to_string();
    for i in 0..3 {
        s.add(Alias::new(format!("a{}", i), "echo".to_string(), AliasSource::Bash));
        text = s.save(&text);
        s.delete(&format!("a{}", i)).unwrap();
        text = s.save(&text);
    }
    assert_eq!(text, "export A=1\n\n# comment\nset -o vi\n");
}

#[test]
fn legacy_aliases_absorbed_once() {
    let mut s = AliasStore::new("p".to_string(), AliasSource::Bash);
    let content = "alias ll='ls -la'\nexport X=1\n";
    s.load(content);
    assert_eq!(entries(&s), vec![("ll".to_string(), "ls -la".to_string())]);
    let out = s.save(content);
    assert_eq!(out, "export X=1\n# SNIPLIAS ALIASES START\nalias ll='ls -la'\n# SNIPLIAS ALIASES END\n");
    assert_eq!(s.save(&out), out);
}

#[test]
fn empty_store_writes_no_block() {
    let s = store_with(&[]);
    assert_eq!(s.save("x\n# SNIPLIAS ALIASES START\nalias a='b'\n# SNIPLIAS ALIASES END\n"), "x\n");
    assert_eq!(s.save(""), "");
}

#[test]
fn load_last_definition_wins() {
    let mut s = AliasStore::new("p".to_string(), AliasSource::Zsh);
    s.load("alias a='1'\nalias b='2'\nalias a='3'");
    assert_eq!(
        entries(&s),
        vec![("a".to_string(), "3".to_string()), ("b".to_string(), "2".to_string())]
    );
    assert!(s.list().iter().all(|a| a.source_file == AliasSource::Zsh));
}

#[test]
fn add_same_name_replaces() {
    let s = store_with(&[("a", "1"), ("a", "2")]);
    assert_eq!(entries(&s), vec![("a".to_string(), "2".to_string())]);
}

#[test]
fn update_and_delete_missing_fail() {
    let mut s = store_with(&[("a", "1")]);
    let r = s.update("zz", Alias::new("b".to_string(), "2".to_string(), AliasSource::Bash));
    assert_eq!(r, Err(AliasStoreError::AliasNotFound("zz".to_string())));
    assert_eq!(s.delete("zz"), Err(AliasStoreError::AliasNotFound("zz".to_string())));
    assert_eq!(entries(&s).len(), 1);
    assert_eq!(
        AliasStoreError::AliasNotFound("zz".to_string()).message(),
        "Alias not found: zz"
    );
}

#[test]
fn update_can_rename() {
    let mut s = store_with(&[("a", "1"), ("b", "2")]);
    s.update("a", Alias::new("c".to_string(), "3".to_string(), AliasSource::Bash)).unwrap();
    assert_eq!(
        entries(&s),
        vec![("b".to_string(), "2".to_string()), ("c".to_string(), "3".to_string())]
    );
}

#[test]
fn delete_removes_from_list_and_file() {
    let mut s = store_with(&[("a", "1"), ("b", "2")]);
    let text = s.save("");
    s.delete("a").unwrap();
    assert!(s.list().iter().all(|x| x.name != "a"));
    let text = s.save(&text);
    assert!(!text.contains("alias a="));
    let mut back = AliasStore::new("p".to_string(), AliasSource::Bash);
    back.load(&text);
    assert_eq!(entries(&back), vec![("b".to_string(), "2".to_string())]);
}

#[test]
fn source_command_text() {
    let s = store_with(&[]);
    assert_eq!(s.source_command(), Some("source /home/u/.bashrc".to_string()));
}

#[test]
fn shell_config_choice() {
    assert_eq!(
        AliasStore::detect_shell_config("/usr/bin/zsh", true, true, true),
        Ok((ConfigFile::Zshrc, AliasSource::Zsh))
    );
    assert_eq!(
        AliasStore::detect_shell_config("/usr/bin/zsh", false, true, true),
        Ok((ConfigFile::Bashrc, AliasSource::Bash))
    );
    assert_eq!(
        AliasStore::detect_shell_config("/bin/bash", true, false, true),
        Ok((ConfigFile::BashProfile, AliasSource::Bash))
    );
    assert_eq!(
        AliasStore::detect_shell_config("/bin/bash", true, false, false),
        Err(AliasStoreError::ConfigPathNotFound)
    );
}

#[test]
fn marker_text_inside_a_line_is_not_a_marker() {
    let s = store_with(&[]);
    let content = "x# SNIPLIAS ALIASES START\necho done\n";
    assert_eq!(s.save(content), content);
    let t = store_with(&[("a", "1")]);
    let out = t.save("  # SNIPLIAS ALIASES END  \nalias old='x'\n");
    assert_eq!(
        out,
        "  # SNIPLIAS ALIASES END  \n# SNIPLIAS ALIASES START\nalias a='1'\n# SNIPLIAS ALIASES END\n"
    );
}
