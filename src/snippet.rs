//! Command snippets: titled command templates.
use vstd::prelude::*;
use crate::stamp::{new_id, now, Timestamp};
use crate::template::{
    distinct_by_name, extract_variables, pairs_view, placeholders, render, render_spec,
    vars_view, SnippetVariable,
};
use crate::text::{any_contains, contains, lower_of, lowercase, matches_folded, occurs_at};

verus! {

/// A titled, possibly parameterized, command template.
#[derive(Debug, Clone, PartialEq, Eq)]
pub struct Snippet {
    pub id: u128,
    pub title: String,
    pub description: Option<String>,
    pub command: String,
    pub created_at: Timestamp,
    pub updated_at: Timestamp,
}

/// The texts that a search over a snippet looks in, case-folded.
pub open spec fn snippet_fields(s: Snippet) -> Seq<Seq<char>> {
    match s.description {
        Some(d) => seq![lower_of(s.title@), lower_of(d@), lower_of(s.command@)],
        None => seq![lower_of(s.title@), lower_of(s.command@)],
    }
}

/// `query`, case-folded, occurs in the snippet's title, description or
/// command, each case-folded.
pub open spec fn snippet_matches(s: Snippet, query: Seq<char>) -> bool {
    any_contains(snippet_fields(s), lower_of(query))
}

impl Snippet {
    pub fn new(title: String, command: String) -> (r: Snippet)
        ensures
            r.title == title,
            r.command == command,
            r.description is None,
            r.created_at == r.updated_at,
    {
        let t = now();
        Snippet {
            id: new_id(),
            title,
            description: None,
            command,
            created_at: t,
            updated_at: t,
        }
    }

    pub fn with_description(self, description: String) -> (r: Snippet)
        ensures
            r == (Snippet { description: Some(description), ..self }),
    {
        Snippet { description: Some(description), ..self }
    }

    /// The same snippet under the identifier `id`.
    pub fn with_id(self, id: u128) -> (r: Snippet)
        ensures
            r == (Snippet { id, ..self }),
    {
        Snippet { id, ..self }
    }

    /// The variables of the command: one per distinct placeholder name, in
    /// order of first occurrence, with the default of that first occurrence.
    pub fn extract_variables(&self) -> (r: Vec<SnippetVariable>)
        ensures
            vars_view(r@) == distinct_by_name(placeholders(self.command@)),
    {
        extract_variables(self.command.as_str())
    }

    /// The command with each placeholder that `values` names replaced by its
    /// value; the others stay as written.
    pub fn render_command(&self, values: &Vec<(String, String)>) -> (r: String)
        ensures
            r@ == render_spec(self.command@, pairs_view(values@)),
    {
        render(self.command.as_str(), values)
    }

    /// Whether `query`, case-folded, occurs in the title, the description or
    /// the command, each case-folded.
    pub fn matches_search(&self, query: &str) -> (r: bool)
        ensures
            r == snippet_matches(*self, query@),
            query@.len() == 0 ==> r,
    {
        let q = lowercase(query);
        let mut fields: Vec<String> = Vec::new();
        fields.push(lowercase(self.title.as_str()));
        match &self.description {
            Some(d) => fields.push(lowercase(d.as_str())),
            None => {},
        }
        fields.push(lowercase(self.command.as_str()));
        let r = matches_folded(q.as_str(), &fields);
        proof {
            if query@.len() == 0 {
                assert(fields@[0]@.subrange(0, 0) =~= q@);
                assert(occurs_at(fields@[0]@, q@, 0));
                assert(contains(fields@.map_values(|f: String| f@)[0], q@));
            }
        }
        assert(fields@.map_values(|f: String| f@) =~= snippet_fields(*self));
        r
    }
}

} // verus!
