use sniplias::alias::{Alias, AliasSource};
use sniplias::alias_store::AliasStore;
use sniplias::handlers::{handle_key, Key, Persist};
use sniplias::snippet::Snippet;
use sniplias::snippet_store::SnippetStore;
use sniplias::state::{AppMode, AppState};
use sniplias::ui::{DialogMode, InputDialog, InputField, SearchBar, Tab};
use sniplias::utils::update::{InstallMethod, UpdateInfo};

fn session(snippets: &[(&str, &str)]) -> AppState {
    let aliases = AliasStore::new("/h/.bashrc".to_string(), AliasSource::Bash);
    let mut store = SnippetStore::new("d".to_string());
    for (t, c) in snippets {
        store.add(Snippet::new(t.to_string(), c.to_string()));
    }
    AppState::new(aliases, store, UpdateInfo::new(InstallMethod::Unknown))
}

fn type_text(app: &mut AppState, text: &str) {
    for c in text.chars() {
        handle_key(app, Key::Char(c));
    }
}

#[test]
fn new_session_defaults() {
    let app = session(&[]);
    assert!(app.running);
    assert_eq!(app.current_tab, Tab::Snippets);
    assert_eq!(app.mode, AppMode::Normal);
    assert_eq!(app.source_command, Some("source /h/.bashrc".to_string()));
}

#[test]
fn run_without_placeholders_ends_session() {
    let mut app = session(&[("ls", "ls -la")]);
    handle_key(&mut app, Key::Down);
    handle_key(&mut app, Key::Enter);
    assert_eq!(app.pending_command, Some("ls -la".to_string()));
    assert!(!app.running);
    assert!(app.dialog.is_none());
}

#[test]
fn run_with_placeholders_uses_defaults() {
    let mut app = session(&[("clone", "git clone {{repo}} -b {{branch:main}}")]);
    handle_key(&mut app, Key::Down);
    handle_key(&mut app, Key::Enter);
    assert!(app.running);
    assert_eq!(app.mode, AppMode::Dialog);
    let labels: Vec<String> = app.dialog.as_ref().unwrap().fields.iter().map(|f| f.label.clone()).collect();
    assert_eq!(labels, vec!["repo ".to_string(), "branch (default: main)".to_string()]);
    type_text(&mut app, "u/r");
    handle_key(&mut app, Key::Enter);
    assert_eq!(app.pending_command, Some("git clone u/r -b main".to_string()));
    assert!(!app.running);
}

#[test]
fn unfilled_variable_without_default_stays() {
    let mut app = session(&[("e", "echo {{x}} {{y:2}}")]);
    handle_key(&mut app, Key::Down);
    handle_key(&mut app, Key::Enter);
    handle_key(&mut app, Key::Enter);
    assert_eq!(app.pending_command, Some("echo {{x}} 2".to_string()));
}

#[test]
fn add_with_empty_field_keeps_dialog_open() {
    let mut app = session(&[]);
    handle_key(&mut app, Key::Char('a'));
    assert_eq!(app.mode, AppMode::Dialog);
    type_text(&mut app, "title only");
    let p = handle_key(&mut app, Key::Enter);
    assert_eq!(p, Persist::Nothing);
    let dialog = app.dialog.as_ref().unwrap();
    assert_eq!(dialog.message, Some(("Title and Command are required".to_string(), true)));
    assert_eq!(dialog.fields[0].value, "title only");
    assert_eq!(app.mode, AppMode::Dialog);
    assert!(app.error_message.is_none());
    assert!(app.snippet_store.list().is_empty());
}

#[test]
fn add_alias_through_dialog() {
    let mut app = session(&[]);
    handle_key(&mut app, Key::Tab);
    assert_eq!(app.current_tab, Tab::Aliases);
    handle_key(&mut app, Key::Char('a'));
    type_text(&mut app, "ll");
    handle_key(&mut app, Key::Tab);
    type_text(&mut app, "ls -la");
    let p = handle_key(&mut app, Key::Enter);
    assert_eq!(p, Persist::Aliases);
    assert!(app.dialog.is_none());
    assert!(app.aliases_modified);
    assert_eq!(app.success_message, Some("Alias 'll' added".to_string()));
    let list = app.alias_store.list();
    assert_eq!(list.len(), 1);
    assert_eq!(list[0].command, "ls -la");
    assert!(list[0].description.is_none());
}

#[test]
fn edit_and_delete_snippet() {
    let mut app = session(&[("a", "echo a")]);
    let id = app.snippet_store.list()[0].id;
    handle_key(&mut app, Key::Down);
    handle_key(&mut app, Key::Char('e'));
    handle_key(&mut app, Key::Backspace);
    type_text(&mut app, "b");
    let p = handle_key(&mut app, Key::Enter);
    assert_eq!(p, Persist::Snippets);
    assert_eq!(app.snippet_store.get(id).unwrap().title, "b");
    handle_key(&mut app, Key::Char('d'));
    assert_eq!(app.dialog.as_ref().unwrap().fields[0].value, "Delete 'b'?");
    handle_key(&mut app, Key::Enter);
    assert!(app.snippet_store.list().is_empty());
    assert_eq!(app.success_message, Some("Snippet 'b' deleted".to_string()));
}

#[test]
fn escape_discards_dialog() {
    let mut app = session(&[]);
    handle_key(&mut app, Key::Char('a'));
    type_text(&mut app, "t");
    handle_key(&mut app, Key::Esc);
    assert!(app.dialog.is_none());
    assert_eq!(app.mode, AppMode::Normal);
    assert!(app.snippet_store.list().is_empty());
}

#[test]
fn search_filters_live() {
    let mut app = session(&[("alpha", "a"), ("beta", "b")]);
    handle_key(&mut app, Key::Char('/'));
    assert_eq!(app.mode, AppMode::Search);
    type_text(&mut app, "BET");
    assert_eq!(app.search.query, "BET");
    assert_eq!(app.filtered_snippets().len(), 1);
    handle_key(&mut app, Key::Backspace);
    handle_key(&mut app, Key::Backspace);
    handle_key(&mut app, Key::Backspace);
    assert_eq!(app.filtered_snippets().len(), 2);
    handle_key(&mut app, Key::Enter);
    assert_eq!(app.mode, AppMode::Normal);
}

#[test]
fn selection_wraps() {
    let mut app = session(&[("a", "1"), ("b", "2")]);
    handle_key(&mut app, Key::Up);
    assert_eq!(app.snippet_selected, Some(0));
    handle_key(&mut app, Key::Up);
    assert_eq!(app.snippet_selected, Some(1));
    handle_key(&mut app, Key::Down);
    assert_eq!(app.snippet_selected, Some(0));
    handle_key(&mut app, Key::Tab);
    handle_key(&mut app, Key::Down);
    assert_eq!(app.alias_selected, None);
}

#[test]
fn help_intercepts_keys() {
    let mut app = session(&[("a", "1")]);
    handle_key(&mut app, Key::Char('?'));
    assert!(app.help_visible);
    handle_key(&mut app, Key::Char('q'));
    assert!(app.running);
    handle_key(&mut app, Key::Esc);
    assert!(!app.help_visible);
    handle_key(&mut app, Key::Char('q'));
    assert!(!app.running);
}

#[test]
fn field_editing_and_cycling() {
    let mut f = InputField::new("L".to_string()).with_value("ab".to_string());
    assert_eq!(f.cursor_pos, 2);
    f.handle_left();
    f.handle_char('é');
    assert_eq!(f.value, "aéb");
    f.handle_backspace();
    assert_eq!(f.value, "ab");
    f.handle_delete();
    assert_eq!(f.value, "a");
    f.handle_right();
    assert_eq!(f.cursor_pos, 1);
    let mut d = InputDialog::new("t".to_string(), DialogMode::Add)
        .add_field("a".to_string())
        .add_field("b".to_string());
    assert!(d.fields[0].focused);
    d.prev_field();
    assert_eq!(d.current_field, 1);
    assert!(d.fields[1].focused && !d.fields[0].focused);
    d.next_field();
    assert_eq!(d.current_field, 0);
    let mut s = SearchBar::new();
    s.handle_char('x');
    s.handle_left();
    s.handle_char('y');
    assert_eq!(s.query, "yx");
}

#[test]
fn tabs_cycle() {
    assert_eq!(Tab::Aliases.next(), Tab::Snippets);
    assert_eq!(Tab::Snippets.next(), Tab::Aliases);
    assert_eq!(Tab::from_index(7), Tab::Snippets);
    assert_eq!(Tab::titles(), vec!["Aliases", "Snippets"]);
}

#[test]
fn edit_alias_renames() {
    let mut aliases = AliasStore::new("p".to_string(), AliasSource::Bash);
    aliases.add(Alias::new("a".to_string(), "1".to_string(), AliasSource::Bash));
    let mut app = AppState::new(aliases, SnippetStore::new("d".to_string()), UpdateInfo::new(InstallMethod::Unknown));
    handle_key(&mut app, Key::Tab);
    handle_key(&mut app, Key::Down);
    handle_key(&mut app, Key::Char('e'));
    type_text(&mut app, "b");
    assert_eq!(handle_key(&mut app, Key::Enter), Persist::Aliases);
    let list = app.alias_store.list();
    assert_eq!(list.len(), 1);
    assert_eq!(list[0].name, "ab");
    app.store_failed("disk full".to_string());
    assert_eq!(app.error_message, Some("disk full".to_string()));
    assert!(app.success_message.is_none());
}

#[test]
fn stale_selection_moves_into_the_list() {
    let mut app = session(&[("a", "1")]);
    app.snippet_selected = Some(5);
    handle_key(&mut app, Key::Up);
    assert_eq!(app.snippet_selected, Some(0));
    app.snippet_selected = Some(5);
    handle_key(&mut app, Key::Down);
    assert_eq!(app.snippet_selected, Some(0));
}

#[test]
fn delete_without_a_selection_closes_the_dialog() {
    let mut app = session(&[("a", "1")]);
    handle_key(&mut app, Key::Down);
    handle_key(&mut app, Key::Char('d'));
    let id = app.snippet_store.list()[0].id;
    app.snippet_store.delete(id).unwrap();
    app.snippet_selected = Some(0);
    assert_eq!(handle_key(&mut app, Key::Enter), Persist::Nothing);
    assert!(app.dialog.is_none());
}
