//! What each key does to a session, and what submitting a dialog does to the
//! stores. A handler returns which store, if any, must now be written back;
//! the caller writes it and reports a failure with `AppState::store_failed`.
use vstd::prelude::*;
use crate::alias::Alias;
use crate::alias_store::{has_alias, insert_alias, remove_alias};
use crate::snippet::Snippet;
use crate::snippet_store::{has_id, insert_snippet, remove_snippet};
use crate::stamp::uuid_text;
use crate::state::{
    add_alias_shown, add_snippet_shown, delete_alias_shown, delete_snippet_shown, edit_alias_shown,
    edit_snippet_shown, run_field_label, run_label, run_tried, AppMode, AppState, Focus,
};
use crate::template::{
    distinct_by_name, lookup, lookup_index, opt_view, pairs_view, placeholders, render_spec,
    vars_view, SnippetVariable,
};
use crate::text::join3;
use crate::ui::{backspaced, field_pairs, next_moved, prev_moved, typed, DialogMode, InputDialog, Tab};

verus! {

/// A key as the session sees it.
#[derive(Debug, Clone, Copy, PartialEq, Eq, Structural)]
pub enum Key {
    Char(char),
    Tab,
    BackTab,
    Left,
    Right,
    Up,
    Down,
    Enter,
    Esc,
    Backspace,
    Other,
}

/// The store that must be written back after a key.
#[derive(Debug, Clone, Copy, PartialEq, Eq, Structural)]
pub enum Persist {
    Nothing,
    Aliases,
    Snippets,
}

/// The text of the field labelled `label`, or nothing when there is none.
pub open spec fn field_text(vals: Seq<(Seq<char>, Seq<char>)>, label: Seq<char>) -> Seq<char> {
    match lookup(vals, label) {
        Some(v) => v,
        None => Seq::empty(),
    }
}

/// The label of the field that names a record of the tab: Name or Title.
pub open spec fn required_label(tab: Tab) -> Seq<char> {
    match tab {
        Tab::Aliases => "Name"@,
        Tab::Snippets => "Title"@,
    }
}

/// A mandatory field is empty: the one labelled `first`, or the command.
pub open spec fn lacks_required(vals: Seq<(Seq<char>, Seq<char>)>, first: Seq<char>) -> bool {
    field_text(vals, first).len() == 0 || field_text(vals, "Command"@).len() == 0
}

/// The description, when its field is not empty.
pub open spec fn optional_text(vals: Seq<(Seq<char>, Seq<char>)>) -> Option<Seq<char>> {
    let d = field_text(vals, "Description (optional)"@);
    if d.len() == 0 {
        None
    } else {
        Some(d)
    }
}

/// The value that variable `v` takes: what its field holds if that is not
/// empty, else its default, if it has one.
pub open spec fn effective_value(
    v: (Seq<char>, Option<Seq<char>>),
    typed: Seq<(Seq<char>, Seq<char>)>,
) -> Option<Seq<char>> {
    match lookup(typed, run_label(v)) {
        Some(t) => if t.len() > 0 {
            Some(t)
        } else {
            v.1
        },
        None => v.1,
    }
}

/// A name and a value for each variable of `vars` that takes one.
pub open spec fn effective_values(
    vars: Seq<(Seq<char>, Option<Seq<char>>)>,
    typed: Seq<(Seq<char>, Seq<char>)>,
) -> Seq<(Seq<char>, Seq<char>)>
    decreases vars.len(),
{
    if vars.len() == 0 {
        Seq::empty()
    } else {
        let prev = effective_values(vars.drop_last(), typed);
        match effective_value(vars.last(), typed) {
            Some(x) => prev.push((vars.last().0, x)),
            None => prev,
        }
    }
}

/// The command that running snippet `s` gives, with `typed` the labels and
/// values of the run dialog.
pub open spec fn run_command(s: Snippet, typed: Seq<(Seq<char>, Seq<char>)>) -> Seq<char> {
    render_spec(
        s.command@,
        effective_values(distinct_by_name(placeholders(s.command@)), typed),
    )
}

/// `r` is the error whose text is `text`.
pub open spec fn fails_with(r: Result<Persist, String>, text: Seq<char>) -> bool {
    match r {
        Err(m) => m@ == text,
        Ok(_) => false,
    }
}

/// `n` is `o` with a success message whose text is `text`, the dialog closed.
pub open spec fn succeeded(o: AppState, n: AppState, text: Seq<char>) -> bool {
    &&& n.success_message is Some
    &&& n.success_message->0@ == text
    &&& n.dialog is None
    &&& n.focus == Focus::List
    &&& n.mode == AppMode::Normal
}

/// `a` holds what the dialog gives: name, command and description.
pub open spec fn alias_from(a: Alias, vals: Seq<(Seq<char>, Seq<char>)>) -> bool {
    &&& a.name@ == field_text(vals, "Name"@)
    &&& a.command@ == field_text(vals, "Command"@)
    &&& opt_view(a.description) == optional_text(vals)
}

/// `s` holds what the dialog gives: title, command and description.
pub open spec fn snippet_from(s: Snippet, vals: Seq<(Seq<char>, Seq<char>)>) -> bool {
    &&& s.title@ == field_text(vals, "Title"@)
    &&& s.command@ == field_text(vals, "Command"@)
    &&& opt_view(s.description) == optional_text(vals)
}

/// Submitting the add-alias dialog with fields `vals`: with the name or the
/// command empty nothing changes and it fails; else the alias goes in, the
/// aliases count as modified and the dialog closes.
pub open spec fn alias_added(o: AppState, n: AppState, vals: Seq<(Seq<char>, Seq<char>)>, r: Result<Persist, String>) -> bool {
    if lacks_required(vals, "Name"@) {
        n == o && fails_with(r, "Name and Command are required"@)
    } else {
        &&& r == Ok::<Persist, String>(Persist::Aliases)
        &&& exists|a: Alias|
            alias_from(a, vals) && a.source_file == o.alias_store.shell() && n.alias_store@
                == insert_alias(o.alias_store@, a)
        &&& succeeded(o, n, "Alias '"@ + field_text(vals, "Name"@) + "' added"@)
        &&& n == (AppState {
            alias_store: n.alias_store,
            success_message: n.success_message,
            aliases_modified: true,
            ..o.closed()
        })
    }
}

/// Submitting the edit-alias dialog: the selected alias is replaced, or the
/// store's error is reported; the dialog closes either way. With no alias
/// selected the dialog closes; with a field empty nothing changes.
pub open spec fn alias_edited(o: AppState, n: AppState, vals: Seq<(Seq<char>, Seq<char>)>, r: Result<Persist, String>) -> bool {
    match o.chosen_alias() {
        None => r == Ok::<Persist, String>(Persist::Nothing) && n == o.closed(),
        Some(old_alias) => if lacks_required(vals, "Name"@) {
            n == o && fails_with(r, "Name and Command are required"@)
        } else if has_alias(o.alias_store@, old_alias.name@) {
            &&& r == Ok::<Persist, String>(Persist::Aliases)
            &&& exists|a: Alias|
                alias_from(a, vals) && n.alias_store@ == insert_alias(
                    remove_alias(o.alias_store@, old_alias.name@),
                    a,
                )
            &&& succeeded(o, n, "Alias '"@ + field_text(vals, "Name"@) + "' updated"@)
            &&& n == (AppState {
                alias_store: n.alias_store,
                success_message: n.success_message,
                aliases_modified: true,
                ..o.closed()
            })
        } else {
            n == o.closed() && fails_with(r, "Alias not found: "@ + old_alias.name@ + ""@)
        },
    }
}

/// Submitting the delete-alias dialog: the selected alias goes, and the
/// dialog closes.
pub open spec fn alias_deleted(o: AppState, n: AppState, r: Result<Persist, String>) -> bool {
    match o.chosen_alias() {
        None => r == Ok::<Persist, String>(Persist::Nothing) && n == o.closed(),
        Some(a) => if has_alias(o.alias_store@, a.name@) {
            &&& r == Ok::<Persist, String>(Persist::Aliases)
            &&& n.alias_store@ == remove_alias(o.alias_store@, a.name@)
            &&& succeeded(o, n, "Alias '"@ + a.name@ + "' deleted"@)
            &&& n == (AppState {
                alias_store: n.alias_store,
                success_message: n.success_message,
                aliases_modified: true,
                ..o.closed()
            })
        } else {
            n == o.closed() && fails_with(r, "Alias not found: "@ + a.name@ + ""@)
        },
    }
}

/// Submitting the add-snippet dialog, as for an alias.
pub open spec fn snippet_added(o: AppState, n: AppState, vals: Seq<(Seq<char>, Seq<char>)>, r: Result<Persist, String>) -> bool {
    if lacks_required(vals, "Title"@) {
        n == o && fails_with(r, "Title and Command are required"@)
    } else {
        &&& r == Ok::<Persist, String>(Persist::Snippets)
        &&& exists|s: Snippet|
            snippet_from(s, vals) && n.snippet_store@ == insert_snippet(o.snippet_store@, s)
        &&& succeeded(o, n, "Snippet '"@ + field_text(vals, "Title"@) + "' added"@)
        &&& n == (AppState {
            snippet_store: n.snippet_store,
            success_message: n.success_message,
            ..o.closed()
        })
    }
}

/// Submitting the edit-snippet dialog: the selected snippet is replaced in
/// place under its identifier.
pub open spec fn snippet_edited(o: AppState, n: AppState, vals: Seq<(Seq<char>, Seq<char>)>, r: Result<Persist, String>) -> bool {
    match o.chosen_snippet() {
        None => r == Ok::<Persist, String>(Persist::Nothing) && n == o.closed(),
        Some(old_snippet) => if lacks_required(vals, "Title"@) {
            n == o && fails_with(r, "Title and Command are required"@)
        } else if has_id(o.snippet_store@, old_snippet.id) {
            &&& r == Ok::<Persist, String>(Persist::Snippets)
            &&& exists|k: int, s: Snippet|
                0 <= k < o.snippet_store@.len() && o.snippet_store@[k].id == old_snippet.id
                    && s.id == old_snippet.id && snippet_from(s, vals) && n.snippet_store@
                    == o.snippet_store@.update(k, s)
            &&& succeeded(o, n, "Snippet '"@ + field_text(vals, "Title"@) + "' updated"@)
            &&& n == (AppState {
                snippet_store: n.snippet_store,
                success_message: n.success_message,
                ..o.closed()
            })
        } else {
            n == o.closed() && fails_with(r, "Snippet not found: "@ + uuid_text(old_snippet.id) + ""@)
        },
    }
}

/// Submitting the delete-snippet dialog.
pub open spec fn snippet_deleted(o: AppState, n: AppState, r: Result<Persist, String>) -> bool {
    match o.chosen_snippet() {
        None => r == Ok::<Persist, String>(Persist::Nothing) && n == o.closed(),
        Some(s) => if has_id(o.snippet_store@, s.id) {
            &&& r == Ok::<Persist, String>(Persist::Snippets)
            &&& n.snippet_store@ == remove_snippet(o.snippet_store@, s.id)
            &&& succeeded(o, n, "Snippet '"@ + s.title@ + "' deleted"@)
            &&& n == (AppState {
                snippet_store: n.snippet_store,
                success_message: n.success_message,
                ..o.closed()
            })
        } else {
            n == o.closed() && fails_with(r, "Snippet not found: "@ + uuid_text(s.id) + ""@)
        },
    }
}

/// Submitting the run dialog: the rendered command becomes pending and the
/// session ends.
pub open spec fn snippet_ran(o: AppState, n: AppState, vals: Seq<(Seq<char>, Seq<char>)>, r: Result<Persist, String>) -> bool {
    &&& r == Ok::<Persist, String>(Persist::Nothing)
    &&& match o.chosen_snippet() {
        Some(s) => n.pending_command is Some && n.pending_command->0@ == run_command(s, vals)
            && n == (AppState { pending_command: n.pending_command, running: false, ..o }),
        None => n == o,
    }
}

/// Submitting a dialog of purpose `mode` on the current tab.
pub open spec fn submitted(o: AppState, n: AppState, mode: DialogMode, vals: Seq<(Seq<char>, Seq<char>)>, r: Result<Persist, String>) -> bool {
    match mode {
        DialogMode::Add => match o.current_tab {
            Tab::Aliases => alias_added(o, n, vals, r),
            Tab::Snippets => snippet_added(o, n, vals, r),
        },
        DialogMode::Edit => match o.current_tab {
            Tab::Aliases => alias_edited(o, n, vals, r),
            Tab::Snippets => snippet_edited(o, n, vals, r),
        },
        DialogMode::Delete => match o.current_tab {
            Tab::Aliases => alias_deleted(o, n, r),
            Tab::Snippets => snippet_deleted(o, n, r),
        },
        DialogMode::Run => snippet_ran(o, n, vals, r),
        _ => r == Ok::<Persist, String>(Persist::Nothing) && n == o,
    }
}

/// The text of the field labelled `label`, or an empty text.
fn field_value(values: &Vec<(String, String)>, label: &str) -> (r: String)
    ensures
        r@ == field_text(pairs_view(values@), label@),
{
    let l = label.to_owned();
    match lookup_index(values, &l) {
        Some(k) => values[k].1.clone(),
        None => String::new(),
    }
}

fn optional_field(values: &Vec<(String, String)>) -> (r: Option<String>)
    ensures
        opt_view(r) == optional_text(pairs_view(values@)),
{
    let d = field_value(values, "Description (optional)");
    if d.as_str().is_empty() {
        None
    } else {
        Some(d)
    }
}

/// Adds the alias that the dialog describes. Fails, changing nothing, when
/// the name or the command is empty.
pub fn add_alias(app: &mut AppState, values: &Vec<(String, String)>) -> (r: Result<Persist, String>)
    ensures
        alias_added(*old(app), *final(app), pairs_view(values@), r),
{
    let name = field_value(values, "Name");
    let command = field_value(values, "Command");
    let description = optional_field(values);
    if name.as_str().is_empty() || command.as_str().is_empty() {
        return Err("Name and Command are required".to_owned());
    }
    let message = join3("Alias '", name.as_str(), "' added");
    let alias = Alias::new(name, command, *app.alias_store.source());
    let alias = Alias { description, ..alias };
    let ghost a = alias;
    app.alias_store.add(alias);
    app.mark_aliases_modified();
    app.success_message = Some(message);
    app.close_dialog();
    let ghost vals = pairs_view(values@);
    assert(alias_from(a, vals));
    assert(a.source_file == old(app).alias_store.shell());
    assert(final(app).alias_store@ == insert_alias(old(app).alias_store@, a));
    assert(succeeded(*old(app), *final(app), "Alias '"@ + field_text(vals, "Name"@) + "' added"@));
    assert(*final(app) == (AppState {
        alias_store: final(app).alias_store,
        success_message: final(app).success_message,
        aliases_modified: true,
        ..old(app).closed()
    }));
    Ok(Persist::Aliases)
}

/// Replaces the selected alias by the one that the dialog describes. With a
/// field missing it fails and changes nothing; otherwise the dialog closes,
/// also when the store reports an error.
pub fn edit_alias(app: &mut AppState, values: &Vec<(String, String)>) -> (r: Result<
    Persist,
    String,
>)
    ensures
        alias_edited(*old(app), *final(app), pairs_view(values@), r),
{
    let old_name = match app.selected_alias() {
        Some(a) => Some(a.name.clone()),
        None => None,
    };
    match old_name {
        None => {
            app.close_dialog();
            Ok(Persist::Nothing)
        },
        Some(old_name) => {
            let name = field_value(values, "Name");
            let command = field_value(values, "Command");
            let description = optional_field(values);
            if name.as_str().is_empty() || command.as_str().is_empty() {
                return Err("Name and Command are required".to_owned());
            }
            let message = join3("Alias '", name.as_str(), "' updated");
            let alias = Alias::new(name, command, *app.alias_store.source());
            let alias = Alias { description, ..alias };
            let ghost a = alias;
            let result = app.alias_store.update(old_name.as_str(), alias);
            app.close_dialog();
            match result {
                Ok(()) => {
                    app.mark_aliases_modified();
                    app.success_message = Some(message);
                    assert(alias_from(a, pairs_view(values@)));
                    Ok(Persist::Aliases)
                },
                Err(e) => Err(e.message()),
            }
        },
    }
}

/// Deletes the selected alias; the dialog closes.
pub fn delete_alias(app: &mut AppState) -> (r: Result<Persist, String>)
    ensures
        alias_deleted(*old(app), *final(app), r),
{
    let name = match app.selected_alias() {
        Some(a) => Some(a.name.clone()),
        None => None,
    };
    let r = match name {
        None => Ok(Persist::Nothing),
        Some(name) => {
            let message = join3("Alias '", name.as_str(), "' deleted");
            match app.alias_store.delete(name.as_str()) {
                Ok(()) => {
                    app.mark_aliases_modified();
                    app.success_message = Some(message);
                    Ok(Persist::Aliases)
                },
                Err(e) => Err(e.message()),
            }
        },
    };
    app.close_dialog();
    r
}

/// Adds the snippet that the dialog describes. Fails, changing nothing,
/// when the title or the command is empty.
pub fn add_snippet(app: &mut AppState, values: &Vec<(String, String)>) -> (r: Result<
    Persist,
    String,
>)
    ensures
        snippet_added(*old(app), *final(app), pairs_view(values@), r),
{
    let title = field_value(values, "Title");
    let command = field_value(values, "Command");
    let description = optional_field(values);
    if title.as_str().is_empty() || command.as_str().is_empty() {
        return Err("Title and Command are required".to_owned());
    }
    let message = join3("Snippet '", title.as_str(), "' added");
    let snippet = Snippet::new(title, command);
    let snippet = Snippet { description, ..snippet };
    let ghost s = snippet;
    app.snippet_store.add(snippet);
    app.success_message = Some(message);
    app.close_dialog();
    assert(snippet_from(s, pairs_view(values@)));
    assert(final(app).snippet_store@ == insert_snippet(old(app).snippet_store@, s));
    Ok(Persist::Snippets)
}

/// Replaces the selected snippet, keeping its identifier, by the one that the
/// dialog describes. With a field missing it fails and changes nothing;
/// otherwise the dialog closes, also when the store reports an error.
pub fn edit_snippet(app: &mut AppState, values: &Vec<(String, String)>) -> (r: Result<
    Persist,
    String,
>)
    ensures
        snippet_edited(*old(app), *final(app), pairs_view(values@), r),
{
    let id = match app.selected_snippet() {
        Some(s) => Some(s.id),
        None => None,
    };
    match id {
        None => {
            app.close_dialog();
            Ok(Persist::Nothing)
        },
        Some(id) => {
            let title = field_value(values, "Title");
            let command = field_value(values, "Command");
            let description = optional_field(values);
            if title.as_str().is_empty() || command.as_str().is_empty() {
                return Err("Title and Command are required".to_owned());
            }
            let message = join3("Snippet '", title.as_str(), "' updated");
            let snippet = Snippet::new(title, command).with_id(id);
            let snippet = Snippet { description, ..snippet };
            let result = app.snippet_store.update(id, snippet);
            app.close_dialog();
            match result {
                Ok(()) => {
                    app.success_message = Some(message);
                    Ok(Persist::Snippets)
                },
                Err(e) => Err(e.message()),
            }
        },
    }
}

/// Deletes the selected snippet; the dialog closes.
pub fn delete_snippet(app: &mut AppState) -> (r: Result<Persist, String>)
    ensures
        snippet_deleted(*old(app), *final(app), r),
{
    let found = match app.selected_snippet() {
        Some(s) => Some((s.id, s.title.clone())),
        None => None,
    };
    let r = match found {
        None => Ok(Persist::Nothing),
        Some((id, title)) => {
            let message = join3("Snippet '", title.as_str(), "' deleted");
            match app.snippet_store.delete(id) {
                Ok(()) => {
                    app.success_message = Some(message);
                    Ok(Persist::Snippets)
                },
                Err(e) => Err(e.message()),
            }
        },
    };
    app.close_dialog();
    r
}

/// The name and value of each variable that takes one, given the run
/// dialog's labels and values.
fn effective_pairs(variables: &Vec<SnippetVariable>, values: &Vec<(String, String)>) -> (r: Vec<
    (String, String),
>)
    ensures
        pairs_view(r@) == effective_values(vars_view(variables@), pairs_view(values@)),
{
    let ghost vars = vars_view(variables@);
    let ghost typed = pairs_view(values@);
    let mut r: Vec<(String, String)> = Vec::new();
    let mut i: usize = 0;
    while i < variables.len()
        invariant
            i <= variables.len(),
            vars == vars_view(variables@),
            typed == pairs_view(values@),
            pairs_view(r@) == effective_values(vars.take(i as int), typed),
        decreases variables.len() - i,
    {
        let v = &variables[i];
        let label = run_field_label(v);
        let value: Option<String> = match lookup_index(values, &label) {
            Some(k) => if !values[k].1.as_str().is_empty() {
                Some(values[k].1.clone())
            } else {
                v.default_value.clone()
            },
            None => v.default_value.clone(),
        };
        proof {
            assert(vars.take(i + 1).drop_last() =~= vars.take(i as int));
            assert(vars.take(i + 1).last() == v.view());
        }
        match value {
            Some(x) => {
                assert(opt_view(v.default_value) == v.view().1);
                r.push((v.name.clone(), x));
                assert(pairs_view(r@) =~= effective_values(vars.take(i + 1), typed));
            },
            None => {
                assert(pairs_view(r@) =~= effective_values(vars.take(i + 1), typed));
            },
        }
        i += 1;
    }
    assert(vars.take(i as int) =~= vars);
    r
}

/// Runs the selected snippet with the values of the run dialog: each
/// variable takes what its field holds, else its default, else stays as
/// written. The command becomes the pending command and the session ends.
pub fn run_snippet(app: &mut AppState, values: &Vec<(String, String)>) -> (r: Result<
    Persist,
    String,
>)
    ensures
        snippet_ran(*old(app), *final(app), pairs_view(values@), r),
{
    let command = match app.selected_snippet() {
        Some(s) => {
            let variables = s.extract_variables();
            let pairs = effective_pairs(&variables, values);
            Some(s.render_command(&pairs))
        },
        None => None,
    };
    match command {
        Some(c) => {
            app.pending_command = Some(c);
            app.running = false;
        },
        None => {},
    }
    Ok(Persist::Nothing)
}

/// Submits a dialog of the given purpose, with its labels and values, on the
/// current tab.
pub fn handle_dialog_submit(app: &mut AppState, mode: DialogMode, values: &Vec<(String, String)>) -> (r:
    Result<Persist, String>)
    ensures
        submitted(*old(app), *final(app), mode, pairs_view(values@), r),
{
    match mode {
        DialogMode::Add => match app.current_tab {
            Tab::Aliases => add_alias(app, values),
            Tab::Snippets => add_snippet(app, values),
        },
        DialogMode::Edit => match app.current_tab {
            Tab::Aliases => edit_alias(app, values),
            Tab::Snippets => edit_snippet(app, values),
        },
        DialogMode::Delete => match app.current_tab {
            Tab::Aliases => delete_alias(app),
            Tab::Snippets => delete_snippet(app),
        },
        DialogMode::Run => run_snippet(app, values),
        _ => Ok(Persist::Nothing),
    }
}

/// What a key does in normal mode.
pub open spec fn normal_effect(o: AppState, n: AppState, key: Key) -> bool {
    match key {
        Key::Char('q') => n == (AppState { running: false, ..o }),
        Key::Char('?') => n == (AppState { help_visible: !o.help_visible, ..o }),
        Key::Tab | Key::Right | Key::BackTab | Key::Left => n == (AppState {
            current_tab: o.current_tab.next_spec(),
            ..o
        }),
        Key::Up | Key::Char('k') => n == o.moved_up(),
        Key::Down | Key::Char('j') => n == o.moved_down(),
        Key::Char('/') => n == o.searching(),
        Key::Enter => match o.current_tab {
            Tab::Aliases => n == o,
            Tab::Snippets => exists|b: bool| run_tried(o, n, b),
        },
        Key::Char('a') => match o.current_tab {
            Tab::Aliases => add_alias_shown(o, n),
            Tab::Snippets => add_snippet_shown(o, n),
        },
        Key::Char('e') => match o.current_tab {
            Tab::Aliases => edit_alias_shown(o, n),
            Tab::Snippets => edit_snippet_shown(o, n),
        },
        Key::Char('d') => match o.current_tab {
            Tab::Aliases => delete_alias_shown(o, n),
            Tab::Snippets => delete_snippet_shown(o, n),
        },
        Key::Esc => if o.focus == Focus::Search {
            n == o.search_left()
        } else {
            n == o
        },
        _ => n == o,
    }
}

/// What a key does in search mode: characters and Backspace edit the query
/// at once; Enter and Escape return to normal mode.
pub open spec fn search_effect(o: AppState, n: AppState, key: Key) -> bool {
    match key {
        Key::Esc | Key::Enter => n == o.search_left(),
        Key::Char(c) => n == (AppState { search: n.search, ..o }) && n.search.focused
            == o.search.focused && typed(
            o.search.query@,
            o.search.cursor_pos,
            n.search.query@,
            n.search.cursor_pos,
            c,
        ),
        Key::Backspace => n == (AppState { search: n.search, ..o }) && n.search.focused
            == o.search.focused && backspaced(
            o.search.query@,
            o.search.cursor_pos,
            n.search.query@,
            n.search.cursor_pos,
        ),
        _ => n == o,
    }
}

/// A character or Backspace applied to the current field of `d` gives `e`.
pub open spec fn field_edited(d: InputDialog, e: InputDialog, key: Key) -> bool {
    if d.current_field < d.fields@.len() {
        let cur = d.current_field as int;
        let f = d.fields@[cur];
        let g = e.fields@[cur];
        &&& e == (InputDialog { fields: e.fields, ..d })
        &&& e.fields@ == d.fields@.update(cur, g)
        &&& g.label == f.label
        &&& g.focused == f.focused
        &&& match key {
            Key::Char(c) => typed(f.value@, f.cursor_pos, g.value@, g.cursor_pos, c),
            Key::Backspace => backspaced(f.value@, f.cursor_pos, g.value@, g.cursor_pos),
            _ => e == d,
        }
    } else {
        e == d
    }
}

/// How a submission's outcome shows: on success the session is as the
/// submission left it; an error shows in the dialog while it is open (a
/// failed check), else on the session (a store error, the dialog closed).
pub open spec fn reported(m: AppState, n: AppState, q: Result<Persist, String>, r: Persist) -> bool {
    match q {
        Ok(p) => n == m && r == p,
        Err(e) => r == Persist::Nothing && match m.dialog {
            Some(md) => n == (AppState {
                dialog: Some(InputDialog { message: Some((e, true)), ..md }),
                ..m
            }),
            None => n == (AppState { error_message: Some(e), ..m }),
        },
    }
}

/// What a key does in dialog mode.
pub open spec fn dialog_effect(o: AppState, n: AppState, key: Key, r: Persist) -> bool {
    match o.dialog {
        None => n == o && r == Persist::Nothing,
        Some(d) => match key {
            Key::Esc => n == o.closed() && r == Persist::Nothing,
            Key::Tab | Key::Down => r == Persist::Nothing && n.dialog is Some && n == (AppState {
                dialog: n.dialog,
                ..o
            }) && next_moved(d, n.dialog->0),
            Key::BackTab | Key::Up => r == Persist::Nothing && n.dialog is Some && n == (
            AppState { dialog: n.dialog, ..o }) && prev_moved(d, n.dialog->0),
            Key::Enter => exists|m: AppState, q: Result<Persist, String>|
                submitted(o, m, d.mode, field_pairs(d.fields@), q) && reported(m, n, q, r),
            Key::Char(_) | Key::Backspace => r == Persist::Nothing && n.dialog is Some && n == (
            AppState { dialog: n.dialog, ..o }) && field_edited(d, n.dialog->0, key),
            _ => n == o && r == Persist::Nothing,
        },
    }
}

/// What a key does to a session. While help shows only `?` and Escape act:
/// they close it. Otherwise the key goes to the current mode.
pub open spec fn key_effect(o: AppState, n: AppState, key: Key, r: Persist) -> bool {
    if o.help_visible {
        r == Persist::Nothing && if key == Key::Char('?') || key == Key::Esc {
            n == (AppState { help_visible: false, ..o })
        } else {
            n == o
        }
    } else {
        match o.mode {
            AppMode::Normal => r == Persist::Nothing && normal_effect(o, n, key),
            AppMode::Search => r == Persist::Nothing && search_effect(o, n, key),
            AppMode::Dialog => dialog_effect(o, n, key, r),
        }
    }
}

/// Enter on an add dialog, or on an edit dialog of a selected record, with
/// the name (or title) or the command empty: nothing is stored, the dialog
/// stays open with its fields and shows an error.
pub open spec fn rejected_submit(o: AppState, n: AppState, key: Key, r: Persist) -> bool {
    let d = o.dialog->0;
    (o.dialog is Some && key == Key::Enter && (d.mode == DialogMode::Add || (d.mode
        == DialogMode::Edit && match o.current_tab {
        Tab::Aliases => o.chosen_alias() is Some,
        Tab::Snippets => o.chosen_snippet() is Some,
    })) && lacks_required(field_pairs(d.fields@), required_label(o.current_tab))) ==> {
        &&& n.alias_store == o.alias_store
        &&& n.snippet_store == o.snippet_store
        &&& n.mode == o.mode
        &&& n.dialog is Some
        &&& n.dialog->0.fields == d.fields
        &&& match n.dialog->0.message {
            Some((_, is_error)) => is_error,
            None => false,
        }
        &&& r == Persist::Nothing
    }
}

fn handle_enter(app: &mut AppState)
    ensures
        normal_effect(*old(app), *final(app), Key::Enter),
{
    match app.current_tab {
        Tab::Aliases => {},
        Tab::Snippets => {
            let b = app.try_run_snippet();
        },
    }
}

fn handle_add(app: &mut AppState)
    ensures
        normal_effect(*old(app), *final(app), Key::Char('a')),
{
    match app.current_tab {
        Tab::Aliases => app.show_add_alias_dialog(),
        Tab::Snippets => app.show_add_snippet_dialog(),
    }
}

fn handle_edit(app: &mut AppState)
    ensures
        normal_effect(*old(app), *final(app), Key::Char('e')),
{
    match app.current_tab {
        Tab::Aliases => app.show_edit_alias_dialog(),
        Tab::Snippets => app.show_edit_snippet_dialog(),
    }
}

fn handle_delete(app: &mut AppState)
    ensures
        normal_effect(*old(app), *final(app), Key::Char('d')),
{
    match app.current_tab {
        Tab::Aliases => app.show_delete_alias_dialog(),
        Tab::Snippets => app.show_delete_snippet_dialog(),
    }
}

/// Navigation in normal mode: tabs, rows, search, help, quitting, and the
/// dialogs that add, edit, delete or run.
fn handle_normal_mode(app: &mut AppState, key: Key)
    ensures
        normal_effect(*old(app), *final(app), key),
{
    match key {
        Key::Char('q') => app.quit(),
        Key::Char('?') => app.toggle_help(),
        Key::Tab | Key::Right => app.next_tab(),
        Key::BackTab | Key::Left => app.prev_tab(),
        Key::Up | Key::Char('k') => app.prev_item(),
        Key::Down | Key::Char('j') => app.next_item(),
        Key::Char('/') => app.focus_search(),
        Key::Enter => handle_enter(app),
        Key::Char('a') => handle_add(app),
        Key::Char('e') => handle_edit(app),
        Key::Char('d') => handle_delete(app),
        Key::Esc => {
            if app.focus == Focus::Search {
                app.unfocus_search();
            }
        },
        _ => {},
    }
}

/// Editing the query in search mode; Enter or Escape returns to normal mode.
fn handle_search_mode(app: &mut AppState, key: Key)
    ensures
        search_effect(*old(app), *final(app), key),
{
    match key {
        Key::Esc | Key::Enter => app.unfocus_search(),
        Key::Char(c) => app.search.handle_char(c),
        Key::Backspace => app.search.handle_backspace(),
        _ => {},
    }
}

/// Keys in dialog mode: Escape closes the dialog, Tab and the arrows move
/// between fields, characters and Backspace edit the current field, and
/// Enter submits.
fn handle_dialog_mode(app: &mut AppState, key: Key) -> (r: Persist)
    ensures
        dialog_effect(*old(app), *final(app), key, r),
        rejected_submit(*old(app), *final(app), key, r),
{
    if app.dialog.is_none() {
        return Persist::Nothing;
    }
    match key {
        Key::Esc => {
            app.close_dialog();
            Persist::Nothing
        },
        Key::Tab | Key::Down => {
            match &mut app.dialog {
                Some(d) => d.next_field(),
                None => {},
            }
            Persist::Nothing
        },
        Key::BackTab | Key::Up => {
            match &mut app.dialog {
                Some(d) => d.prev_field(),
                None => {},
            }
            Persist::Nothing
        },
        Key::Enter => {
            let (values, mode) = match &app.dialog {
                Some(d) => (d.get_values(), d.mode),
                None => {
                    return Persist::Nothing;
                },
            };
            let q = handle_dialog_submit(app, mode, &values);
            let ghost m = *app;
            let ghost gq = q;
            let r = match q {
                Ok(p) => p,
                Err(e) => {
                    match &mut app.dialog {
                        Some(d) => {
                            d.message = Some((e, true));
                        },
                        None => {
                            app.error_message = Some(e);
                        },
                    }
                    Persist::Nothing
                },
            };
            assert(reported(m, *app, gq, r));
            r
        },
        Key::Char(c) => {
            match &mut app.dialog {
                Some(d) => match d.current_field_mut() {
                    Some(f) => f.handle_char(c),
                    None => {},
                },
                None => {},
            }
            Persist::Nothing
        },
        Key::Backspace => {
            match &mut app.dialog {
                Some(d) => match d.current_field_mut() {
                    Some(f) => f.handle_backspace(),
                    None => {},
                },
                None => {},
            }
            Persist::Nothing
        },
        _ => Persist::Nothing,
    }
}

/// What a key does to the session (see `key_effect`). The result names the
/// store that must now be written back.
pub fn handle_key(app: &mut AppState, key: Key) -> (r: Persist)
    ensures
        key_effect(*old(app), *final(app), key, r),
        !old(app).help_visible && old(app).mode == AppMode::Dialog ==> rejected_submit(
            *old(app),
            *final(app),
            key,
            r,
        ),
{
    if app.help_visible {
        match key {
            Key::Char('?') | Key::Esc => app.toggle_help(),
            _ => {},
        }
        return Persist::Nothing;
    }
    match app.mode {
        AppMode::Normal => {
            handle_normal_mode(app, key);
            Persist::Nothing
        },
        AppMode::Search => {
            handle_search_mode(app, key);
            Persist::Nothing
        },
        AppMode::Dialog => handle_dialog_mode(app, key),
    }
}

} // verus!
