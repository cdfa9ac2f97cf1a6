//! The interactive pieces that the session drives: text fields, dialogs, the
//! search bar, tabs and the help overlay. Drawing them is left to the caller.
use vstd::prelude::*;
use crate::alias::Alias;
use crate::snippet::Snippet;
use crate::text::{char_count, insert_char_at, remove_char_at};

verus! {

/// `p` held within `0..=n`.
pub open spec fn clamp_pos(p: usize, n: nat) -> nat {
    if p <= n {
        p as nat
    } else {
        n
    }
}

/// What typing `c` does to a text: it goes in at the cursor (a cursor past
/// the end counts as at the end), which moves after it. A text of the
/// largest length stays as it is.
pub open spec fn typed(text: Seq<char>, cursor: usize, new_text: Seq<char>, new_cursor: usize, c: char) -> bool {
    if text.len() < usize::MAX {
        let p = clamp_pos(cursor, text.len());
        new_text == text.insert(p as int, c) && new_cursor == p + 1
    } else {
        new_text == text && new_cursor == cursor
    }
}

/// What Backspace does to a text: the character before the cursor goes,
/// and the cursor moves back.
pub open spec fn backspaced(text: Seq<char>, cursor: usize, new_text: Seq<char>, new_cursor: usize) -> bool {
    let p = clamp_pos(cursor, text.len());
    if p > 0 {
        new_text == text.remove(p - 1) && new_cursor == p - 1
    } else {
        new_text == text && new_cursor == 0
    }
}

/// A labelled line of text with a cursor, counted in characters.
pub struct InputField {
    pub label: String,
    pub value: String,
    pub cursor_pos: usize,
    pub focused: bool,
}

impl InputField {
    pub fn new(label: String) -> (r: InputField)
        ensures
            r.label == label,
            r.value@ == Seq::<char>::empty(),
            r.cursor_pos == 0,
            !r.focused,
    {
        InputField { label, value: String::new(), cursor_pos: 0, focused: false }
    }

    /// The field holding `value`, with the cursor after its last character.
    pub fn with_value(self, value: String) -> (r: InputField)
        ensures
            r.label == self.label,
            r.value == value,
            r.cursor_pos == value@.len(),
            r.focused == self.focused,
    {
        let n = char_count(&value);
        InputField { value, cursor_pos: n, ..self }
    }

    /// Inserts `c` at the cursor (a cursor past the end counts as at the
    /// end) and moves the cursor after it.
    pub fn handle_char(&mut self, c: char)
        ensures
            final(self).label == old(self).label,
            final(self).focused == old(self).focused,
            typed(old(self).value@, old(self).cursor_pos, final(self).value@, final(self).cursor_pos, c),
            old(self).value@.len() >= usize::MAX ==> *final(self) == *old(self),
    {
        let n = char_count(&self.value);
        if n < usize::MAX {
            let p = if self.cursor_pos <= n { self.cursor_pos } else { n };
            self.value = insert_char_at(&self.value, p, c);
            self.cursor_pos = p + 1;
        }
    }

    /// Removes the character before the cursor, if any, and moves the cursor back.
    pub fn handle_backspace(&mut self)
        ensures
            final(self).label == old(self).label,
            final(self).focused == old(self).focused,
            backspaced(old(self).value@, old(self).cursor_pos, final(self).value@, final(self).cursor_pos),
    {
        let n = char_count(&self.value);
        let p = if self.cursor_pos <= n { self.cursor_pos } else { n };
        if p > 0 {
            self.value = remove_char_at(&self.value, p - 1);
            self.cursor_pos = p - 1;
        } else {
            self.cursor_pos = 0;
        }
    }

    /// Removes the character at the cursor, if any.
    pub fn handle_delete(&mut self)
        ensures
            final(self).label == old(self).label,
            final(self).focused == old(self).focused,
            final(self).cursor_pos == old(self).cursor_pos,
            old(self).cursor_pos < old(self).value@.len() ==> final(self).value@ == old(self).value@.remove(old(self).cursor_pos as int),
            old(self).cursor_pos >= old(self).value@.len() ==> final(self).value == old(self).value,
    {
        let n = char_count(&self.value);
        if self.cursor_pos < n {
            self.value = remove_char_at(&self.value, self.cursor_pos);
        }
    }

    pub fn handle_left(&mut self)
        ensures
            final(self).label == old(self).label,
            final(self).value == old(self).value,
            final(self).focused == old(self).focused,
            final(self).cursor_pos == if old(self).cursor_pos > 0 {
                (old(self).cursor_pos - 1) as usize
            } else {
                0
            },
    {
        if self.cursor_pos > 0 {
            self.cursor_pos -= 1;
        }
    }

    pub fn handle_right(&mut self)
        ensures
            final(self).label == old(self).label,
            final(self).value == old(self).value,
            final(self).focused == old(self).focused,
            final(self).cursor_pos == if old(self).cursor_pos < old(self).value@.len() {
                (old(self).cursor_pos + 1) as usize
            } else {
                old(self).cursor_pos
            },
    {
        let n = char_count(&self.value);
        if self.cursor_pos < n {
            self.cursor_pos += 1;
        }
    }
}

/// What a dialog is for.
#[derive(Debug, Clone, Copy, PartialEq, Eq, Structural)]
pub enum DialogMode {
    Add,
    Edit,
    Delete,
    Run,
    Input,
    Update,
}

/// A dialog: labelled fields, the index of the current one, and its purpose.
pub struct InputDialog {
    pub title: String,
    pub fields: Vec<InputField>,
    pub current_field: usize,
    pub mode: DialogMode,
    pub message: Option<(String, bool)>,
    /// The local and the remote version, for an update dialog.
    pub update_info: Option<(String, String)>,
}

/// The labels and values of fields, in order.
pub open spec fn field_pairs(fields: Seq<InputField>) -> Seq<(Seq<char>, Seq<char>)> {
    fields.map_values(|f: InputField| (f.label@, f.value@))
}

/// Exactly the current field is marked focused.
pub open spec fn focus_follows(d: InputDialog) -> bool {
    forall|i: int| 0 <= i < d.fields@.len() ==> (#[trigger] d.fields@[i]).focused == (i
        == d.current_field)
}

/// `new` holds the fields of `old`, each unchanged but for its focus mark,
/// which is set on the field at `cur` alone.
pub open spec fn refocused(old: Seq<InputField>, new: Seq<InputField>, cur: int) -> bool {
    &&& new.len() == old.len()
    &&& forall|i: int| 0 <= i < old.len() ==> new[i] == (InputField { focused: i == cur, ..old[i] })
}

/// Moving to the next field of `d` gives `e`: from the last back to the
/// first; a dialog without fields stays as it is.
pub open spec fn next_moved(d: InputDialog, e: InputDialog) -> bool {
    if d.fields@.len() == 0 {
        e == d
    } else {
        let cur = ((d.current_field + 1) % (d.fields@.len() as int)) as usize;
        &&& e == (InputDialog { current_field: cur, fields: e.fields, ..d })
        &&& refocused(d.fields@, e.fields@, cur as int)
    }
}

/// Moving to the previous field of `d` gives `e`: from the first back to the
/// last; a dialog without fields stays as it is.
pub open spec fn prev_moved(d: InputDialog, e: InputDialog) -> bool {
    if d.fields@.len() == 0 {
        e == d
    } else {
        let cur = (if d.current_field == 0 {
            d.fields@.len() - 1
        } else {
            d.current_field - 1
        }) as usize;
        &&& e == (InputDialog { current_field: cur, fields: e.fields, ..d })
        &&& refocused(d.fields@, e.fields@, cur as int)
    }
}

impl InputDialog {
    pub fn new(title: String, mode: DialogMode) -> (r: InputDialog)
        ensures
            r.title == title,
            r.fields@.len() == 0,
            r.current_field == 0,
            r.mode == mode,
            r.message is None,
            r.update_info is None,
    {
        InputDialog {
            title,
            fields: Vec::new(),
            current_field: 0,
            mode,
            message: None,
            update_info: None,
        }
    }

    /// The dialog with an empty field labelled `label` added after the others.
    pub fn add_field(self, label: String) -> (r: InputDialog)
        ensures
            field_pairs(r.fields@) == field_pairs(self.fields@).push((label@, Seq::empty())),
            r.fields@.len() == self.fields@.len() + 1,
            r.fields@.last().cursor_pos == 0,
            forall|i: int|
                0 <= i < self.fields@.len() ==> (#[trigger] r.fields@[i]).cursor_pos
                    == self.fields@[i].cursor_pos,
            r.title == self.title,
            r.current_field == self.current_field,
            r.mode == self.mode,
            r.message == self.message,
            r.update_info == self.update_info,
            focus_follows(r),
    {
        let ghost l = label@;
        let mut d = self;
        d.fields.push(InputField::new(label));
        d.update_focus();
        assert(field_pairs(d.fields@) =~= field_pairs(self.fields@).push((l, Seq::empty())));
        d
    }

    /// The dialog with a field labelled `label` and holding `value` added
    /// after the others.
    pub fn add_field_with_value(self, label: String, value: String) -> (r: InputDialog)
        ensures
            field_pairs(r.fields@) == field_pairs(self.fields@).push((label@, value@)),
            r.fields@.len() == self.fields@.len() + 1,
            r.fields@.last().cursor_pos == value@.len(),
            forall|i: int|
                0 <= i < self.fields@.len() ==> (#[trigger] r.fields@[i]).cursor_pos
                    == self.fields@[i].cursor_pos,
            r.title == self.title,
            r.current_field == self.current_field,
            r.mode == self.mode,
            r.message == self.message,
            r.update_info == self.update_info,
            focus_follows(r),
    {
        let ghost l = label@;
        let ghost v = value@;
        let mut d = self;
        d.fields.push(InputField::new(label).with_value(value));
        d.update_focus();
        assert(field_pairs(d.fields@) =~= field_pairs(self.fields@).push((l, v)));
        d
    }

    /// The dialog that offers an update from `local` to `remote`, with a
    /// confirmation field.
    pub fn with_update_info(self, local: &str, remote: &str, _install_method: &str) -> (r:
        InputDialog)
        ensures
            match r.update_info {
                Some((l, rm)) => l@ == local@ && rm@ == remote@,
                None => false,
            },
            r.fields@.len() == self.fields@.len() + 1,
            r.mode == self.mode,
            focus_follows(r),
    {
        let mut d = self;
        d.update_info = Some((local.to_owned(), remote.to_owned()));
        d.fields.push(InputField::new("Update? (y/n)".to_owned()));
        d.update_focus();
        d
    }

    /// Moves to the next field, from the last back to the first.
    pub fn next_field(&mut self)
        ensures
            next_moved(*old(self), *final(self)),
            field_pairs(final(self).fields@) == field_pairs(old(self).fields@),
            old(self).fields@.len() > 0 ==> focus_follows(*final(self)),
    {
        if self.fields.len() > 0 {
            self.current_field = ((self.current_field as u128 + 1) % (self.fields.len() as u128))
                as usize;
            self.update_focus();
        }
    }

    /// Moves to the previous field, from the first back to the last.
    pub fn prev_field(&mut self)
        ensures
            prev_moved(*old(self), *final(self)),
            field_pairs(final(self).fields@) == field_pairs(old(self).fields@),
            old(self).fields@.len() > 0 ==> focus_follows(*final(self)),
    {
        if self.fields.len() > 0 {
            self.current_field = if self.current_field == 0 {
                self.fields.len() - 1
            } else {
                self.current_field - 1
            };
            self.update_focus();
        }
    }

    /// Marks exactly the current field as focused.
    pub fn update_focus(&mut self)
        ensures
            *final(self) == (InputDialog { fields: final(self).fields, ..*old(self) }),
            refocused(old(self).fields@, final(self).fields@, old(self).current_field as int),
            field_pairs(final(self).fields@) == field_pairs(old(self).fields@),
            focus_follows(*final(self)),
    {
        let mut i: usize = 0;
        while i < self.fields.len()
            invariant
                i <= self.fields.len(),
                self.fields@.len() == old(self).fields@.len(),
                field_pairs(self.fields@) == field_pairs(old(self).fields@),
                self.title == old(self).title,
                self.current_field == old(self).current_field,
                self.mode == old(self).mode,
                self.message == old(self).message,
                self.update_info == old(self).update_info,
                forall|j: int| 0 <= j < i ==> (#[trigger] self.fields@[j]).focused == (j
                    == self.current_field),
                forall|j: int|
                    0 <= j < self.fields@.len() ==> #[trigger] self.fields@[j] == (InputField {
                        focused: self.fields@[j].focused,
                        ..old(self).fields@[j]
                    }),
            decreases self.fields.len() - i,
        {
            let ghost before = self.fields@;
            let focus = i == self.current_field;
            self.fields[i].focused = focus;
            assert(field_pairs(self.fields@) =~= field_pairs(before));
            i += 1;
        }
    }

    /// The current field, to edit in place.
    pub fn current_field_mut(&mut self) -> (r: Option<&mut InputField>)
        ensures
            old(self).current_field < old(self).fields@.len() ==> r is Some && *r->0 == old(self).fields@[old(self).current_field as int] && final(self).fields@ == old(self).fields@.update(old(self).current_field as int, *final(r->0)) && final(self).title
                == old(self).title && final(self).current_field == old(self).current_field
                && final(self).mode == old(self).mode && final(self).message == old(self).message
                && final(self).update_info == old(self).update_info,
            old(self).current_field >= old(self).fields@.len() ==> r is None && *final(self) == *old(self),
    {
        if self.current_field < self.fields.len() {
            Some(&mut self.fields[self.current_field])
        } else {
            None
        }
    }

    /// The label and value of each field, in order.
    pub fn get_values(&self) -> (r: Vec<(String, String)>)
        ensures
            r@.map_values(|p: (String, String)| (p.0@, p.1@)) == field_pairs(self.fields@),
    {
        let mut r: Vec<(String, String)> = Vec::new();
        let mut i: usize = 0;
        while i < self.fields.len()
            invariant
                i <= self.fields.len(),
                r@.map_values(|p: (String, String)| (p.0@, p.1@)) == field_pairs(
                    self.fields@.take(i as int),
                ),
            decreases self.fields.len() - i,
        {
            r.push((self.fields[i].label.clone(), self.fields[i].value.clone()));
            assert(field_pairs(self.fields@.take(i + 1)) =~= field_pairs(
                self.fields@.take(i as int),
            ).push((self.fields@[i as int].label@, self.fields@[i as int].value@)));
            assert(r@.map_values(|p: (String, String)| (p.0@, p.1@)) =~= field_pairs(
                self.fields@.take(i + 1),
            ));
            i += 1;
        }
        assert(self.fields@.take(i as int) =~= self.fields@);
        r
    }
}

/// The search query, edited in place, with a cursor counted in characters.
pub struct SearchBar {
    pub query: String,
    pub cursor_pos: usize,
    pub focused: bool,
}

impl SearchBar {
    pub fn new() -> (r: SearchBar)
        ensures
            r.query@ == Seq::<char>::empty(),
            r.cursor_pos == 0,
            !r.focused,
    {
        SearchBar { query: String::new(), cursor_pos: 0, focused: false }
    }

    /// Inserts `c` at the cursor and moves the cursor after it.
    pub fn handle_char(&mut self, c: char)
        ensures
            final(self).focused == old(self).focused,
            typed(old(self).query@, old(self).cursor_pos, final(self).query@, final(self).cursor_pos, c),
            old(self).query@.len() >= usize::MAX ==> *final(self) == *old(self),
    {
        let n = char_count(&self.query);
        if n < usize::MAX {
            let p = if self.cursor_pos <= n { self.cursor_pos } else { n };
            self.query = insert_char_at(&self.query, p, c);
            self.cursor_pos = p + 1;
        }
    }

    /// Removes the character before the cursor, if any, and moves the cursor back.
    pub fn handle_backspace(&mut self)
        ensures
            final(self).focused == old(self).focused,
            backspaced(old(self).query@, old(self).cursor_pos, final(self).query@, final(self).cursor_pos),
    {
        let n = char_count(&self.query);
        let p = if self.cursor_pos <= n { self.cursor_pos } else { n };
        if p > 0 {
            self.query = remove_char_at(&self.query, p - 1);
            self.cursor_pos = p - 1;
        } else {
            self.cursor_pos = 0;
        }
    }

    /// Removes the character at the cursor, if any.
    pub fn handle_delete(&mut self)
        ensures
            final(self).focused == old(self).focused,
            final(self).cursor_pos == old(self).cursor_pos,
            old(self).cursor_pos < old(self).query@.len() ==> final(self).query@ == old(self).query@.remove(old(self).cursor_pos as int),
            old(self).cursor_pos >= old(self).query@.len() ==> final(self).query == old(self).query,
    {
        let n = char_count(&self.query);
        if self.cursor_pos < n {
            self.query = remove_char_at(&self.query, self.cursor_pos);
        }
    }

    pub fn handle_left(&mut self)
        ensures
            final(self).query == old(self).query,
            final(self).focused == old(self).focused,
            final(self).cursor_pos == if old(self).cursor_pos > 0 {
                (old(self).cursor_pos - 1) as usize
            } else {
                0
            },
    {
        if self.cursor_pos > 0 {
            self.cursor_pos -= 1;
        }
    }

    pub fn handle_right(&mut self)
        ensures
            final(self).query == old(self).query,
            final(self).focused == old(self).focused,
            final(self).cursor_pos == if old(self).cursor_pos < old(self).query@.len() {
                (old(self).cursor_pos + 1) as usize
            } else {
                old(self).cursor_pos
            },
    {
        let n = char_count(&self.query);
        if self.cursor_pos < n {
            self.cursor_pos += 1;
        }
    }
}

impl Default for SearchBar {
    fn default() -> (r: SearchBar)
        ensures
            r.query@ == Seq::<char>::empty(),
            r.cursor_pos == 0,
            !r.focused,
    {
        SearchBar::new()
    }
}

/// The two collections that the session shows.
#[derive(Debug, Clone, Copy, PartialEq, Eq, Structural)]
pub enum Tab {
    Aliases,
    Snippets,
}

impl Tab {
    pub open spec fn next_spec(self) -> Tab {
        match self {
            Tab::Aliases => Tab::Snippets,
            Tab::Snippets => Tab::Aliases,
        }
    }

    pub fn titles() -> (r: Vec<&'static str>)
        ensures
            r@.len() == 2,
            r@[0]@ == "Aliases"@,
            r@[1]@ == "Snippets"@,
    {
        vec!["Aliases", "Snippets"]
    }

    pub fn index(self) -> (r: usize)
        ensures
            r == (match self {
                Tab::Aliases => 0usize,
                Tab::Snippets => 1usize,
            }),
    {
        match self {
            Tab::Aliases => 0,
            Tab::Snippets => 1,
        }
    }

    /// The tab at `index`: any index but 0 gives the snippets.
    pub fn from_index(index: usize) -> (r: Tab)
        ensures
            r == (if index == 0 {
                Tab::Aliases
            } else {
                Tab::Snippets
            }),
    {
        match index {
            0 => Tab::Aliases,
            _ => Tab::Snippets,
        }
    }

    pub fn next(self) -> (r: Tab)
        ensures
            r == (match self {
                Tab::Aliases => Tab::Snippets,
                Tab::Snippets => Tab::Aliases,
            }),
    {
        Tab::from_index((self.index() + 1) % 2)
    }

    pub fn prev(self) -> (r: Tab)
        ensures
            r == (match self {
                Tab::Aliases => Tab::Snippets,
                Tab::Snippets => Tab::Aliases,
            }),
    {
        Tab::from_index(if self.index() == 0 { 1 } else { 0 })
    }
}

/// Whether the help overlay shows.
pub struct HelpDialog {
    pub visible: bool,
}

impl HelpDialog {
    pub fn new() -> (r: HelpDialog)
        ensures
            !r.visible,
    {
        HelpDialog { visible: false }
    }

    pub fn toggle(&mut self)
        ensures
            final(self).visible == !old(self).visible,
    {
        self.visible = !self.visible;
    }
}

impl Default for HelpDialog {
    fn default() -> (r: HelpDialog)
        ensures
            !r.visible,
    {
        HelpDialog::new()
    }
}

/// An item of a list as it shows: a title and, maybe, a line under it.
pub trait Listable {
    fn title(&self) -> &str;

    fn subtitle(&self) -> Option<&str>;
}

impl Listable for Alias {
    fn title(&self) -> &str {
        self.name.as_str()
    }

    fn subtitle(&self) -> Option<&str> {
        Some(self.command.as_str())
    }
}

impl Listable for Snippet {
    fn title(&self) -> &str {
        self.title.as_str()
    }

    fn subtitle(&self) -> Option<&str> {
        match &self.description {
            Some(d) => Some(d.as_str()),
            None => None,
        }
    }
}

} // verus!
