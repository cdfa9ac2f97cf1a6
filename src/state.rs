//! The state of an interactive session: the current tab and mode, the search
//! query, the selection in each list, the open dialog, messages, and the
//! command to run once the session ends.
use vstd::prelude::*;
use crate::alias::Alias;
use crate::alias_store::{alias_filter, source_prefix, AliasStore};
use crate::snippet::Snippet;
use crate::snippet_store::{snippet_filter, SnippetStore};
use crate::template::{distinct_by_name, placeholders, vars_view, SnippetVariable};
use crate::text::{join3, push_char};
use crate::ui::{field_pairs, DialogMode, InputDialog, SearchBar, Tab};
use crate::utils::update::UpdateInfo;

verus! {

#[derive(Debug, Clone, Copy, PartialEq, Eq, Structural)]
pub enum Focus {
    Tabs,
    Search,
    List,
    Dialog,
}

#[derive(Debug, Clone, Copy, PartialEq, Eq, Structural)]
pub enum AppMode {
    Normal,
    Search,
    Dialog,
}

/// The selection after moving down a list of `len` items: from the last item
/// back to the first, and to the first when nothing was selected.
pub open spec fn next_index(sel: Option<usize>, len: nat) -> Option<usize> {
    if len == 0 {
        sel
    } else {
        match sel {
            Some(i) => if i >= len - 1 {
                Some(0usize)
            } else {
                Some((i + 1) as usize)
            },
            None => Some(0usize),
        }
    }
}

/// The selection after moving up a list of `len` items: from the first item
/// back to the last, to the last from a selection past the end, and to the
/// first when nothing was selected.
pub open spec fn prev_index(sel: Option<usize>, len: nat) -> Option<usize> {
    if len == 0 {
        sel
    } else {
        match sel {
            Some(i) => if i == 0 || i >= len {
                Some((len - 1) as usize)
            } else {
                Some((i - 1) as usize)
            },
            None => Some(0usize),
        }
    }
}

/// The label of the field that asks for variable `v` when a snippet runs:
/// its name, a space, and `(default: D)` when it has a default `D`.
pub open spec fn run_label(v: (Seq<char>, Option<Seq<char>>)) -> Seq<char> {
    match v.1 {
        Some(d) => v.0 + seq![' '] + "(default: "@ + d + ")"@,
        None => v.0 + seq![' '],
    }
}

pub open spec fn labels_of(vars: Seq<(Seq<char>, Option<Seq<char>>)>) -> Seq<Seq<char>> {
    vars.map_values(|v: (Seq<char>, Option<Seq<char>>)| run_label(v))
}

/// `n` is `o` with a dialog open, and nothing else changed.
pub open spec fn dialog_opened(o: AppState, n: AppState) -> bool {
    &&& n.dialog is Some
    &&& n == (AppState { dialog: n.dialog, focus: Focus::Dialog, mode: AppMode::Dialog, ..o })
}

pub open spec fn add_alias_shown(o: AppState, n: AppState) -> bool {
    &&& dialog_opened(o, n)
    &&& n.dialog->0.mode == DialogMode::Add
    &&& n.dialog->0.current_field == 0
    &&& field_pairs(n.dialog->0.fields@) == seq![
        ("Name"@, Seq::<char>::empty()),
        ("Command"@, Seq::<char>::empty()),
        ("Description (optional)"@, Seq::<char>::empty()),
    ]
}

pub open spec fn add_snippet_shown(o: AppState, n: AppState) -> bool {
    &&& dialog_opened(o, n)
    &&& n.dialog->0.mode == DialogMode::Add
    &&& n.dialog->0.current_field == 0
    &&& field_pairs(n.dialog->0.fields@) == seq![
        ("Title"@, Seq::<char>::empty()),
        ("Command"@, Seq::<char>::empty()),
        ("Description (optional)"@, Seq::<char>::empty()),
    ]
}

pub open spec fn description_text(d: Option<String>) -> Seq<char> {
    match d {
        Some(t) => t@,
        None => Seq::<char>::empty(),
    }
}

/// The edit dialog of the selected alias opens, holding its fields; with
/// no alias selected nothing changes.
pub open spec fn edit_alias_shown(o: AppState, n: AppState) -> bool {
    match o.chosen_alias() {
        Some(a) => dialog_opened(o, n) && n.dialog->0.mode == DialogMode::Edit
            && n.dialog->0.current_field == 0 && field_pairs(n.dialog->0.fields@) == seq![
            ("Name"@, a.name@),
            ("Command"@, a.command@),
            ("Description (optional)"@, description_text(a.description)),
        ],
        None => n == o,
    }
}

pub open spec fn delete_alias_shown(o: AppState, n: AppState) -> bool {
    match o.chosen_alias() {
        Some(a) => dialog_opened(o, n) && n.dialog->0.mode == DialogMode::Delete && field_pairs(
            n.dialog->0.fields@,
        ) == seq![("Confirm"@, "Delete '"@ + a.name@ + "'?"@)],
        None => n == o,
    }
}

pub open spec fn edit_snippet_shown(o: AppState, n: AppState) -> bool {
    match o.chosen_snippet() {
        Some(s) => dialog_opened(o, n) && n.dialog->0.mode == DialogMode::Edit
            && n.dialog->0.current_field == 0 && field_pairs(n.dialog->0.fields@) == seq![
            ("Title"@, s.title@),
            ("Command"@, s.command@),
            ("Description (optional)"@, description_text(s.description)),
        ],
        None => n == o,
    }
}

pub open spec fn delete_snippet_shown(o: AppState, n: AppState) -> bool {
    match o.chosen_snippet() {
        Some(s) => dialog_opened(o, n) && n.dialog->0.mode == DialogMode::Delete && field_pairs(
            n.dialog->0.fields@,
        ) == seq![("Confirm"@, "Delete '"@ + s.title@ + "'?"@)],
        None => n == o,
    }
}

/// Running the selected snippet: without variables its command becomes the
/// pending command and the session ends (`r`); with variables the run dialog
/// opens with one empty field per variable, labelled by `run_label`.
pub open spec fn run_tried(o: AppState, n: AppState, r: bool) -> bool {
    match o.chosen_snippet() {
        Some(s) => {
            let vars = distinct_by_name(placeholders(s.command@));
            if vars.len() == 0 {
                &&& r
                &&& n.pending_command is Some
                &&& n.pending_command->0@ == s.command@
                &&& n == (AppState { pending_command: n.pending_command, running: false, ..o })
            } else {
                &&& !r
                &&& dialog_opened(o, n)
                &&& n.dialog->0.mode == DialogMode::Run
                &&& n.dialog->0.current_field == 0
                &&& field_pairs(n.dialog->0.fields@) == labels_of(vars).map_values(
                    |l: Seq<char>| (l, Seq::<char>::empty()),
                )
            }
        },
        None => !r && n == o,
    }
}

/// A session.
pub struct AppState {
    pub running: bool,
    pub current_tab: Tab,
    pub focus: Focus,
    pub mode: AppMode,
    pub search: SearchBar,
    pub alias_store: AliasStore,
    pub snippet_store: SnippetStore,
    /// The selected row of the alias list, if any.
    pub alias_selected: Option<usize>,
    /// The selected row of the snippet list, if any.
    pub snippet_selected: Option<usize>,
    pub dialog: Option<InputDialog>,
    pub help_visible: bool,
    pub error_message: Option<String>,
    pub success_message: Option<String>,
    /// The command to run once the session ends.
    pub pending_command: Option<String>,
    pub aliases_modified: bool,
    pub source_command: Option<String>,
    pub update_info: UpdateInfo,
}

impl AppState {
    /// The aliases that the list shows: all of them for an empty query, else
    /// those that match it.
    pub open spec fn visible_aliases(&self) -> Seq<Alias> {
        if self.search.query@.len() == 0 {
            self.alias_store@
        } else {
            alias_filter(self.alias_store@, self.search.query@)
        }
    }

    /// The snippets that the list shows: all of them for an empty query, else
    /// those that match it.
    pub open spec fn visible_snippets(&self) -> Seq<Snippet> {
        if self.search.query@.len() == 0 {
            self.snippet_store@
        } else {
            snippet_filter(self.snippet_store@, self.search.query@)
        }
    }

    /// The number of rows of the list of the current tab.
    pub open spec fn visible_len(&self) -> nat {
        match self.current_tab {
            Tab::Aliases => self.visible_aliases().len(),
            Tab::Snippets => self.visible_snippets().len(),
        }
    }

    pub open spec fn chosen_alias(&self) -> Option<Alias> {
        match self.alias_selected {
            Some(i) => if i < self.visible_aliases().len() {
                Some(self.visible_aliases()[i as int])
            } else {
                None
            },
            None => None,
        }
    }

    pub open spec fn chosen_snippet(&self) -> Option<Snippet> {
        match self.snippet_selected {
            Some(i) => if i < self.visible_snippets().len() {
                Some(self.visible_snippets()[i as int])
            } else {
                None
            },
            None => None,
        }
    }

    /// This session with the selection of the current list moved down.
    pub open spec fn moved_down(self) -> AppState {
        match self.current_tab {
            Tab::Aliases => AppState {
                alias_selected: next_index(self.alias_selected, self.visible_len()),
                ..self
            },
            Tab::Snippets => AppState {
                snippet_selected: next_index(self.snippet_selected, self.visible_len()),
                ..self
            },
        }
    }

    /// This session with the selection of the current list moved up.
    pub open spec fn moved_up(self) -> AppState {
        match self.current_tab {
            Tab::Aliases => AppState {
                alias_selected: prev_index(self.alias_selected, self.visible_len()),
                ..self
            },
            Tab::Snippets => AppState {
                snippet_selected: prev_index(self.snippet_selected, self.visible_len()),
                ..self
            },
        }
    }

    /// This session in search mode.
    pub open spec fn searching(self) -> AppState {
        AppState {
            focus: Focus::Search,
            mode: AppMode::Search,
            search: SearchBar { focused: true, ..self.search },
            ..self
        }
    }

    /// This session back from search mode, the query kept.
    pub open spec fn search_left(self) -> AppState {
        AppState {
            focus: Focus::List,
            mode: AppMode::Normal,
            search: SearchBar { focused: false, ..self.search },
            ..self
        }
    }

    /// This session with the dialog closed and the list focused.
    pub open spec fn closed(self) -> AppState {
        AppState { dialog: None, focus: Focus::List, mode: AppMode::Normal, ..self }
    }

    /// A session over the two stores, on the snippets tab, in normal mode.
    pub fn new(alias_store: AliasStore, snippet_store: SnippetStore, update_info: UpdateInfo) -> (r:
        AppState)
        ensures
            r.running,
            r.current_tab == Tab::Snippets,
            r.focus == Focus::List,
            r.mode == AppMode::Normal,
            r.search.query@.len() == 0,
            r.alias_store@ == alias_store@,
            r.snippet_store@ == snippet_store@,
            r.alias_selected is None,
            r.snippet_selected is None,
            r.dialog is None,
            !r.help_visible,
            r.error_message is None,
            r.success_message is None,
            r.pending_command is None,
            !r.aliases_modified,
            r.source_command is Some,
            r.source_command->0@ == source_prefix() + alias_store.path()@,
            r.update_info == update_info,
    {
        let source_command = alias_store.source_command();
        AppState {
            running: true,
            current_tab: Tab::Snippets,
            focus: Focus::List,
            mode: AppMode::Normal,
            search: SearchBar::new(),
            alias_store,
            snippet_store,
            alias_selected: None,
            snippet_selected: None,
            dialog: None,
            help_visible: false,
            error_message: None,
            success_message: None,
            pending_command: None,
            aliases_modified: false,
            source_command,
            update_info,
        }
    }

    pub fn next_tab(&mut self)
        ensures
            *final(self) == (AppState { current_tab: old(self).current_tab.next_spec(), ..*old(self) }),
    {
        self.current_tab = self.current_tab.next();
    }

    pub fn prev_tab(&mut self)
        ensures
            *final(self) == (AppState { current_tab: old(self).current_tab.next_spec(), ..*old(self) }),
    {
        self.current_tab = self.current_tab.prev();
    }

    /// Enters search mode.
    pub fn focus_search(&mut self)
        ensures
            *final(self) == old(self).searching(),
    {
        self.focus = Focus::Search;
        self.mode = AppMode::Search;
        self.search.focused = true;
    }

    /// Leaves search mode; the query stays.
    pub fn unfocus_search(&mut self)
        ensures
            *final(self) == old(self).search_left(),
    {
        self.focus = Focus::List;
        self.mode = AppMode::Normal;
        self.search.focused = false;
    }

    /// The number of rows of the list of the current tab.
    fn current_len(&self) -> (r: usize)
        ensures
            r == self.visible_len(),
    {
        match self.current_tab {
            Tab::Aliases => self.filtered_aliases().len(),
            Tab::Snippets => self.filtered_snippets().len(),
        }
    }

    /// Moves the selection of the current list down, wrapping at the end.
    pub fn next_item(&mut self)
        ensures
            *final(self) == old(self).moved_down(),
    {
        let len = self.current_len();
        if len > 0 {
            let sel = match self.current_tab {
                Tab::Aliases => self.alias_selected,
                Tab::Snippets => self.snippet_selected,
            };
            let i: usize = match sel {
                Some(i) => if i >= len - 1 {
                    0
                } else {
                    i + 1
                },
                None => 0,
            };
            match self.current_tab {
                Tab::Aliases => self.alias_selected = Some(i),
                Tab::Snippets => self.snippet_selected = Some(i),
            }
        }
    }

    /// Moves the selection of the current list up, wrapping at the start.
    pub fn prev_item(&mut self)
        ensures
            *final(self) == old(self).moved_up(),
    {
        let len = self.current_len();
        if len > 0 {
            let sel = match self.current_tab {
                Tab::Aliases => self.alias_selected,
                Tab::Snippets => self.snippet_selected,
            };
            let i: usize = match sel {
                Some(i) => if i == 0 || i >= len {
                    len - 1
                } else {
                    i - 1
                },
                None => 0,
            };
            match self.current_tab {
                Tab::Aliases => self.alias_selected = Some(i),
                Tab::Snippets => self.snippet_selected = Some(i),
            }
        }
    }

    /// The aliases that the list shows, recomputed from the query.
    pub fn filtered_aliases(&self) -> (r: Vec<&Alias>)
        ensures
            r@.map_values(|a: &Alias| *a) == self.visible_aliases(),
    {
        if self.search.query.as_str().is_empty() {
            self.alias_store.list()
        } else {
            self.alias_store.list_filtered(self.search.query.as_str())
        }
    }

    /// The snippets that the list shows, recomputed from the query.
    pub fn filtered_snippets(&self) -> (r: Vec<&Snippet>)
        ensures
            r@.map_values(|s: &Snippet| *s) == self.visible_snippets(),
    {
        if self.search.query.as_str().is_empty() {
            self.snippet_store.list()
        } else {
            self.snippet_store.list_filtered(self.search.query.as_str())
        }
    }

    pub fn selected_alias(&self) -> (r: Option<&Alias>)
        ensures
            match r {
                Some(a) => self.chosen_alias() == Some(*a),
                None => self.chosen_alias() is None,
            },
    {
        let aliases = self.filtered_aliases();
        match self.alias_selected {
            Some(i) => if i < aliases.len() {
                assert(aliases@.map_values(|a: &Alias| *a)[i as int] == *aliases@[i as int]);
                Some(aliases[i])
            } else {
                None
            },
            None => None,
        }
    }

    pub fn selected_snippet(&self) -> (r: Option<&Snippet>)
        ensures
            match r {
                Some(s) => self.chosen_snippet() == Some(*s),
                None => self.chosen_snippet() is None,
            },
    {
        let snippets = self.filtered_snippets();
        match self.snippet_selected {
            Some(i) => if i < snippets.len() {
                assert(snippets@.map_values(|s: &Snippet| *s)[i as int] == *snippets@[i as int]);
                Some(snippets[i])
            } else {
                None
            },
            None => None,
        }
    }

    fn open_dialog(&mut self, dialog: InputDialog)
        ensures
            *final(self) == (AppState {
                dialog: Some(dialog),
                focus: Focus::Dialog,
                mode: AppMode::Dialog,
                ..*old(self)
            }),
    {
        self.dialog = Some(dialog);
        self.focus = Focus::Dialog;
        self.mode = AppMode::Dialog;
    }

    /// Opens the dialog that adds an alias: fields Name, Command and an
    /// optional description.
    pub fn show_add_alias_dialog(&mut self)
        ensures
            add_alias_shown(*old(self), *final(self)),
    {
        let d = InputDialog::new("Add Alias".to_owned(), DialogMode::Add).add_field(
            "Name".to_owned(),
        ).add_field("Command".to_owned()).add_field("Description (optional)".to_owned());
        assert(field_pairs(d.fields@) =~= seq![
            ("Name"@, Seq::<char>::empty()),
            ("Command"@, Seq::<char>::empty()),
            ("Description (optional)"@, Seq::<char>::empty()),
        ]);
        self.open_dialog(d);
    }

    /// Opens the dialog that edits the selected alias, its fields holding
    /// the alias's name, command and description; nothing when no alias is
    /// selected.
    pub fn show_edit_alias_dialog(&mut self)
        ensures
            edit_alias_shown(*old(self), *final(self)),
    {
        let fields = match self.selected_alias() {
            Some(a) => {
                let desc = match &a.description {
                    Some(d) => d.clone(),
                    None => String::new(),
                };
                Some((a.name.clone(), a.command.clone(), desc))
            },
            None => None,
        };
        match fields {
            Some((name, command, desc)) => {
                let ghost (n, c, e) = (name@, command@, desc@);
                let d = InputDialog::new("Edit Alias".to_owned(), DialogMode::Edit).add_field_with_value(
                    "Name".to_owned(),
                    name,
                ).add_field_with_value("Command".to_owned(), command).add_field_with_value(
                    "Description (optional)".to_owned(),
                    desc,
                );
                assert(field_pairs(d.fields@) =~= seq![
                    ("Name"@, n),
                    ("Command"@, c),
                    ("Description (optional)"@, e),
                ]);
                self.open_dialog(d);
            },
            None => {},
        }
    }

    /// Opens the dialog that confirms deleting the selected alias; nothing
    /// when no alias is selected.
    pub fn show_delete_alias_dialog(&mut self)
        ensures
            delete_alias_shown(*old(self), *final(self)),
    {
        let prompt = match self.selected_alias() {
            Some(a) => Some(join3("Delete '", a.name.as_str(), "'?")),
            None => None,
        };
        match prompt {
            Some(p) => {
                let ghost v = p@;
                let d = InputDialog::new("Delete Alias".to_owned(), DialogMode::Delete).add_field_with_value(
                    "Confirm".to_owned(),
                    p,
                );
                assert(field_pairs(d.fields@) =~= seq![("Confirm"@, v)]);
                self.open_dialog(d);
            },
            None => {},
        }
    }

    /// Opens the dialog that adds a snippet: fields Title, Command and an
    /// optional description.
    pub fn show_add_snippet_dialog(&mut self)
        ensures
            add_snippet_shown(*old(self), *final(self)),
    {
        let d = InputDialog::new("Add Snippet".to_owned(), DialogMode::Add).add_field(
            "Title".to_owned(),
        ).add_field("Command".to_owned()).add_field("Description (optional)".to_owned());
        assert(field_pairs(d.fields@) =~= seq![
            ("Title"@, Seq::<char>::empty()),
            ("Command"@, Seq::<char>::empty()),
            ("Description (optional)"@, Seq::<char>::empty()),
        ]);
        self.open_dialog(d);
    }

    /// Opens the dialog that edits the selected snippet; nothing when no
    /// snippet is selected.
    pub fn show_edit_snippet_dialog(&mut self)
        ensures
            edit_snippet_shown(*old(self), *final(self)),
    {
        let fields = match self.selected_snippet() {
            Some(s) => {
                let desc = match &s.description {
                    Some(d) => d.clone(),
                    None => String::new(),
                };
                Some((s.title.clone(), s.command.clone(), desc))
            },
            None => None,
        };
        match fields {
            Some((title, command, desc)) => {
                let ghost (t, c, e) = (title@, command@, desc@);
                let d = InputDialog::new("Edit Snippet".to_owned(), DialogMode::Edit).add_field_with_value(
                    "Title".to_owned(),
                    title,
                ).add_field_with_value("Command".to_owned(), command).add_field_with_value(
                    "Description (optional)".to_owned(),
                    desc,
                );
                assert(field_pairs(d.fields@) =~= seq![
                    ("Title"@, t),
                    ("Command"@, c),
                    ("Description (optional)"@, e),
                ]);
                self.open_dialog(d);
            },
            None => {},
        }
    }

    /// Opens the dialog that confirms deleting the selected snippet; nothing
    /// when no snippet is selected.
    pub fn show_delete_snippet_dialog(&mut self)
        ensures
            delete_snippet_shown(*old(self), *final(self)),
    {
        let prompt = match self.selected_snippet() {
            Some(s) => Some(join3("Delete '", s.title.as_str(), "'?")),
            None => None,
        };
        match prompt {
            Some(p) => {
                let ghost v = p@;
                let d = InputDialog::new("Delete Snippet".to_owned(), DialogMode::Delete).add_field_with_value(
                    "Confirm".to_owned(),
                    p,
                );
                assert(field_pairs(d.fields@) =~= seq![("Confirm"@, v)]);
                self.open_dialog(d);
            },
            None => {},
        }
    }

    /// Runs the selected snippet. One without variables becomes the pending
    /// command as it is written and ends the session, with no dialog; one with
    /// variables opens a dialog with a field per variable, labelled by
    /// `run_label`, and the session goes on. Returns whether the session ends.
    pub fn try_run_snippet(&mut self) -> (r: bool)
        ensures
            run_tried(*old(self), *final(self), r),
    {
        let found = match self.selected_snippet() {
            Some(s) => Some((s.command.clone(), s.extract_variables())),
            None => None,
        };
        match found {
            None => false,
            Some((command, variables)) => {
                if variables.len() == 0 {
                    self.pending_command = Some(command);
                    self.running = false;
                    return true;
                }
                let ghost vars = vars_view(variables@);
                let mut d = InputDialog::new("Run Snippet".to_owned(), DialogMode::Run);
                let mut i: usize = 0;
                while i < variables.len()
                    invariant
                        i <= variables.len(),
                        vars == vars_view(variables@),
                        d.mode == DialogMode::Run,
                        d.current_field == 0,
                        field_pairs(d.fields@) == labels_of(vars.take(i as int)).map_values(
                            |l: Seq<char>| (l, Seq::<char>::empty()),
                        ),
                    decreases variables.len() - i,
                {
                    let label = run_field_label(&variables[i]);
                    let ghost l = label@;
                    d = d.add_field(label);
                    assert(labels_of(vars.take(i + 1)).map_values(
                        |l: Seq<char>| (l, Seq::<char>::empty()),
                    ) =~= labels_of(vars.take(i as int)).map_values(
                        |l: Seq<char>| (l, Seq::<char>::empty()),
                    ).push((l, Seq::<char>::empty())));
                    i += 1;
                }
                assert(vars.take(i as int) =~= vars);
                self.open_dialog(d);
                false
            },
        }
    }

    /// Closes the dialog and returns to the list.
    pub fn close_dialog(&mut self)
        ensures
            *final(self) == old(self).closed(),
    {
        self.dialog = None;
        self.focus = Focus::List;
        self.mode = AppMode::Normal;
    }

    pub fn mark_aliases_modified(&mut self)
        ensures
            *final(self) == (AppState { aliases_modified: true, ..*old(self) }),
    {
        self.aliases_modified = true;
    }

    /// Ends the session.
    pub fn quit(&mut self)
        ensures
            *final(self) == (AppState { running: false, ..*old(self) }),
    {
        self.running = false;
    }

    pub fn toggle_help(&mut self)
        ensures
            *final(self) == (AppState { help_visible: !old(self).help_visible, ..*old(self) }),
    {
        self.help_visible = !self.help_visible;
    }

    /// Reports that writing a store back failed: the message shows, in place
    /// of a success message.
    pub fn store_failed(&mut self, message: String)
        ensures
            *final(self) == (AppState {
                error_message: Some(message),
                success_message: None,
                ..*old(self)
            }),
    {
        self.error_message = Some(message);
        self.success_message = None;
    }

    /// Opens the dialog that offers an update, when one is available.
    pub fn show_update_dialog(&mut self)
        ensures
            old(self).update_info.update_available ==> dialog_opened(*old(self), *final(self))
                && final(self).dialog->0.mode == DialogMode::Update,
            !old(self).update_info.update_available ==> *final(self) == *old(self),
    {
        if self.update_info.update_available {
            let local = self.update_info.local_version.clone();
            let remote = match &self.update_info.remote_version {
                Some(v) => v.clone(),
                None => String::new(),
            };
            let d = InputDialog::new("Update Available".to_owned(), DialogMode::Update).with_update_info(
                local.as_str(),
                remote.as_str(),
                "manual",
            );
            self.open_dialog(d);
        }
    }
}

/// The label of the field that asks for `v` when a snippet runs.
pub fn run_field_label(v: &SnippetVariable) -> (r: String)
    ensures
        r@ == run_label(v.view()),
{
    let mut r = v.name.clone();
    push_char(&mut r, ' ');
    match &v.default_value {
        Some(d) => {
            let tail = join3("(default: ", d.as_str(), ")");
            r.append(tail.as_str());
            assert(r@ =~= run_label(v.view()));
        },
        None => {},
    }
    r
}

} // verus!
