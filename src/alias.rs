//! Shell aliases and the one-line form they take in a shell startup file.
use vstd::prelude::*;
use crate::stamp::{new_id, now, Timestamp};
use crate::text::{
    any_contains, chars_of, contains, find_char, find_from, lower_of, lowercase, matches_folded,
    occurs_at, occurs_at_exec, push_char, same_chars, slice_vec, starts_with, trim, trim_range,
};

verus! {

/// The shell whose startup file holds an alias.
#[derive(Debug, Clone, Copy, PartialEq, Eq, Structural)]
pub enum AliasSource {
    Bash,
    Zsh,
}

pub open spec fn shell_name(s: AliasSource) -> Seq<char> {
    match s {
        AliasSource::Bash => seq!['b', 'a', 's', 'h'],
        AliasSource::Zsh => seq!['z', 's', 'h'],
    }
}

/// The shell named `folded`, a name already case-folded.
pub open spec fn shell_of(folded: Seq<char>) -> Option<AliasSource> {
    if folded == shell_name(AliasSource::Bash) {
        Some(AliasSource::Bash)
    } else if folded == shell_name(AliasSource::Zsh) {
        Some(AliasSource::Zsh)
    } else {
        None
    }
}

impl AliasSource {
    pub fn as_str(&self) -> (r: &'static str)
        ensures
            r@ == shell_name(*self),
    {
        match self {
            AliasSource::Bash => {
                proof {
                    reveal_strlit("bash");
                }
                "bash"
            },
            AliasSource::Zsh => {
                proof {
                    reveal_strlit("zsh");
                }
                "zsh"
            },
        }
    }

    /// The shell that `name` names, whatever its case.
    pub fn from_shell_name(name: &str) -> (r: Option<AliasSource>)
        ensures
            r == shell_of(lower_of(name@)),
    {
        let folded = lowercase(name);
        AliasSource::from_folded_name(folded.as_str())
    }

    /// The shell that `folded`, a name already case-folded, names.
    pub fn from_folded_name(folded: &str) -> (r: Option<AliasSource>)
        ensures
            r == shell_of(folded@),
    {
        let cs = chars_of(folded);
        let bash = vec!['b', 'a', 's', 'h'];
        let zsh = vec!['z', 's', 'h'];
        assert(bash@ =~= shell_name(AliasSource::Bash));
        assert(zsh@ =~= shell_name(AliasSource::Zsh));
        if same_chars(&cs, &bash) {
            Some(AliasSource::Bash)
        } else if same_chars(&cs, &zsh) {
            Some(AliasSource::Zsh)
        } else {
            None
        }
    }
}

/// A named shorthand for a shell command.
#[derive(Debug, Clone, PartialEq, Eq)]
pub struct Alias {
    pub id: u128,
    pub name: String,
    pub command: String,
    pub description: Option<String>,
    pub created_at: Timestamp,
    pub updated_at: Timestamp,
    pub source_file: AliasSource,
}

pub open spec fn alias_prefix() -> Seq<char> {
    seq!['a', 'l', 'i', 'a', 's', ' ']
}

/// The line `alias NAME='COMMAND'`.
pub open spec fn alias_line(name: Seq<char>, command: Seq<char>) -> Seq<char> {
    alias_prefix() + name + seq!['=', '\''] + command + seq!['\'']
}

/// A value without the single or double quotes that enclose it, if any.
pub open spec fn unquote(v: Seq<char>) -> Seq<char> {
    if v.len() >= 2 && ((v[0] == '\'' && v.last() == '\'') || (v[0] == '"' && v.last() == '"')) {
        v.subrange(1, v.len() - 1)
    } else {
        v
    }
}

/// A line that, once trimmed, starts with `alias `.
pub open spec fn is_bare_alias(line: Seq<char>) -> bool {
    starts_with(trim(line), alias_prefix())
}

/// The name and command of a line `alias NAME=VALUE`: the name is trimmed, the
/// value loses its enclosing quotes.
pub open spec fn parse_entry(line: Seq<char>) -> Option<(Seq<char>, Seq<char>)> {
    let t = trim(line);
    if starts_with(t, alias_prefix()) {
        let rest = t.subrange(6, t.len() as int);
        let e = find_from(rest, '=', 0);
        if e < rest.len() {
            Some((trim(rest.subrange(0, e)), unquote(rest.subrange(e + 1, rest.len() as int))))
        } else {
            None
        }
    } else {
        None
    }
}

/// The texts that a search over an alias looks in, case-folded.
pub open spec fn alias_fields(a: Alias) -> Seq<Seq<char>> {
    match a.description {
        Some(d) => seq![lower_of(a.name@), lower_of(a.command@), lower_of(d@)],
        None => seq![lower_of(a.name@), lower_of(a.command@)],
    }
}

/// `query`, case-folded, occurs in the alias's name, command or description,
/// each case-folded.
pub open spec fn alias_matches(a: Alias, query: Seq<char>) -> bool {
    any_contains(alias_fields(a), lower_of(query))
}

/// The quotes around a value, if it has them, as the bounds of what they enclose.
fn unquote_range(v: &Vec<char>) -> (r: (usize, usize))
    ensures
        r.0 <= r.1 <= v.len(),
        v@.subrange(r.0 as int, r.1 as int) == unquote(v@),
{
    let n = v.len();
    if n >= 2 && ((v[0] == '\'' && v[n - 1] == '\'') || (v[0] == '"' && v[n - 1] == '"')) {
        (1, n - 1)
    } else {
        assert(v@.subrange(0, n as int) =~= v@);
        (0, n)
    }
}

/// Whether the line, once trimmed, starts with `alias `.
pub fn is_bare_alias_line(line: &Vec<char>) -> (r: bool)
    ensures
        r == is_bare_alias(line@),
{
    let (lo, hi) = trim_range(line);
    let t = slice_vec(line, lo, hi);
    let prefix = vec!['a', 'l', 'i', 'a', 's', ' '];
    assert(prefix@ =~= alias_prefix());
    occurs_at_exec(&t, &prefix, 0)
}

impl Alias {
    pub fn new(name: String, command: String, source: AliasSource) -> (r: Alias)
        ensures
            r.name == name,
            r.command == command,
            r.description is None,
            r.source_file == source,
            r.created_at == r.updated_at,
    {
        let t = now();
        Alias {
            id: new_id(),
            name,
            command,
            description: None,
            created_at: t,
            updated_at: t,
            source_file: source,
        }
    }

    pub fn with_description(self, description: String) -> (r: Alias)
        ensures
            r == (Alias { description: Some(description), ..self }),
    {
        Alias { description: Some(description), ..self }
    }

    /// The line `alias NAME='COMMAND'` that stands for this alias in a shell
    /// startup file. A quote inside the command is not escaped.
    pub fn to_alias_string(&self) -> (r: String)
        ensures
            r@ == alias_line(self.name@, self.command@),
    {
        let mut r = String::new();
        push_char(&mut r, 'a');
        push_char(&mut r, 'l');
        push_char(&mut r, 'i');
        push_char(&mut r, 'a');
        push_char(&mut r, 's');
        push_char(&mut r, ' ');
        r.append(self.name.as_str());
        push_char(&mut r, '=');
        push_char(&mut r, '\'');
        r.append(self.command.as_str());
        push_char(&mut r, '\'');
        assert(r@ =~= alias_line(self.name@, self.command@));
        r
    }

    /// The alias that a line `alias NAME=VALUE` defines, for the shell `source`.
    pub fn parse_line(line: &str, source: AliasSource) -> (r: Option<Alias>)
        ensures
            match r {
                Some(a) => parse_entry(line@) == Some((a.name@, a.command@)) && a.description is None
                    && a.source_file == source && a.created_at == a.updated_at,
                None => parse_entry(line@) is None,
            },
    {
        let cs = chars_of(line);
        let (lo, hi) = trim_range(&cs);
        let t = slice_vec(&cs, lo, hi);
        let prefix = vec!['a', 'l', 'i', 'a', 's', ' '];
        assert(prefix@ =~= alias_prefix());
        if !occurs_at_exec(&t, &prefix, 0) {
            return None;
        }
        let rest = slice_vec(&t, 6, t.len());
        let e = find_char(&rest, '=', 0);
        if e == rest.len() {
            return None;
        }
        let name_part = slice_vec(&rest, 0, e);
        let (nlo, nhi) = trim_range(&name_part);
        let value = slice_vec(&rest, e + 1, rest.len());
        let (vlo, vhi) = unquote_range(&value);
        let name = crate::text::string_of(&name_part, nlo, nhi);
        let command = crate::text::string_of(&value, vlo, vhi);
        Some(Alias::new(name, command, source))
    }

    /// Whether `query`, case-folded, occurs in the name, the command or the
    /// description, each case-folded.
    pub fn matches_search(&self, query: &str) -> (r: bool)
        ensures
            r == alias_matches(*self, query@),
            query@.len() == 0 ==> r,
    {
        let q = lowercase(query);
        let mut fields: Vec<String> = Vec::new();
        fields.push(lowercase(self.name.as_str()));
        fields.push(lowercase(self.command.as_str()));
        match &self.description {
            Some(d) => fields.push(lowercase(d.as_str())),
            None => {},
        }
        let r = matches_folded(q.as_str(), &fields);
        proof {
            if query@.len() == 0 {
                assert(fields@[0]@.subrange(0, 0) =~= q@);
                assert(occurs_at(fields@[0]@, q@, 0));
                assert(contains(fields@.map_values(|f: String| f@)[0], q@));
            }
        }
        assert(fields@.map_values(|f: String| f@) =~= alias_fields(*self));
        r
    }
}

} // verus!
