//! The collection of snippets, kept by identifier.
//!
//! The store does no I/O: the document that holds the snippets is read and
//! written around it, and `load` takes the records that it holds.
use vstd::prelude::*;
use crate::snippet::{snippet_matches, Snippet};
use crate::stamp::{id_text, uuid_text};
use crate::text::{chars_of, join3, trim, trim_range};

verus! {

pub open spec fn unique_ids(snippets: Seq<Snippet>) -> bool {
    forall|i: int, j: int|
        0 <= i < snippets.len() && 0 <= j < snippets.len() && i != j ==> snippets[i].id
            != snippets[j].id
}

pub open spec fn has_id(snippets: Seq<Snippet>, id: u128) -> bool {
    exists|k: int| 0 <= k < snippets.len() && snippets[k].id == id
}

/// `snippets` with `s` in place of the snippet with its identifier, or with
/// `s` added at the end when there is none.
pub open spec fn insert_snippet(snippets: Seq<Snippet>, s: Snippet) -> Seq<Snippet> {
    if has_id(snippets, s.id) {
        snippets.map_values(|x: Snippet| if x.id == s.id { s } else { x })
    } else {
        snippets.push(s)
    }
}

/// `snippets` without the snippet `id`, when identifiers are distinct.
pub open spec fn remove_snippet(snippets: Seq<Snippet>, id: u128) -> Seq<Snippet> {
    if has_id(snippets, id) {
        snippets.remove(choose|k: int| 0 <= k < snippets.len() && snippets[k].id == id)
    } else {
        snippets
    }
}

/// `acc` after adding each record of `records` in order, a later record
/// replacing an earlier one with the same identifier.
pub open spec fn load_records(acc: Seq<Snippet>, records: Seq<Snippet>) -> Seq<Snippet>
    decreases records.len(),
{
    if records.len() == 0 {
        acc
    } else {
        load_records(insert_snippet(acc, records[0]), records.drop_first())
    }
}

/// The snippets that a search for `query` finds, in order.
pub open spec fn snippet_filter(snippets: Seq<Snippet>, query: Seq<char>) -> Seq<Snippet> {
    snippets.filter(|s: Snippet| snippet_matches(s, query))
}

/// The errors of the snippet store.
#[derive(Debug, Clone, PartialEq, Eq)]
pub enum SnippetStoreError {
    /// The document could not be read; the text says why.
    ReadError(String),
    /// The document could not be written; the text says why.
    WriteError(String),
    /// The document is not a valid snippet document; the text says why.
    ParseError(String),
    /// No snippet has this identifier, given as text.
    SnippetNotFound(String),
}

impl SnippetStoreError {
    /// The text that tells the user what went wrong.
    pub fn message(&self) -> (r: String)
        ensures
            r@ == match self {
                SnippetStoreError::ReadError(e) => "Failed to read snippets file: "@ + e@ + ""@,
                SnippetStoreError::WriteError(e) => "Failed to write snippets file: "@ + e@ + ""@,
                SnippetStoreError::ParseError(e) => "Failed to parse snippets: "@ + e@ + ""@,
                SnippetStoreError::SnippetNotFound(id) => "Snippet not found: "@ + id@ + ""@,
            },
    {
        match self {
            SnippetStoreError::ReadError(e) => join3("Failed to read snippets file: ", e.as_str(), ""),
            SnippetStoreError::WriteError(e) => join3("Failed to write snippets file: ", e.as_str(), ""),
            SnippetStoreError::ParseError(e) => join3("Failed to parse snippets: ", e.as_str(), ""),
            SnippetStoreError::SnippetNotFound(id) => join3("Snippet not found: ", id.as_str(), ""),
        }
    }
}

/// Snippets with distinct identifiers.
pub struct SnippetStore {
    snippets: Vec<Snippet>,
    data_path: String,
}

impl View for SnippetStore {
    type V = Seq<Snippet>;

    closed spec fn view(&self) -> Seq<Snippet> {
        self.snippets@
    }
}

/// Puts `s` in place of the snippet with its identifier, or adds it at the end.
fn insert_into(v: &mut Vec<Snippet>, s: Snippet)
    requires
        unique_ids(old(v)@),
    ensures
        final(v)@ == insert_snippet(old(v)@, s),
        unique_ids(final(v)@),
{
    let ghost old_v = v@;
    let mut k: usize = 0;
    while k < v.len() && v[k].id != s.id
        invariant
            k <= v.len(),
            v@ == old_v,
            unique_ids(old_v),
            forall|j: int| 0 <= j < k ==> v@[j].id != s.id,
        decreases v.len() - k,
    {
        k += 1;
    }
    if k < v.len() {
        assert(has_id(old_v, s.id));
        v.set(k, s);
        assert(v@ =~= insert_snippet(old_v, s)) by {
            assert forall|j: int| 0 <= j < v@.len() implies v@[j] == insert_snippet(old_v, s)[j] by {
                if j != k {
                    assert(old_v[j].id != old_v[k as int].id);
                }
            }
        }
    } else {
        assert(!has_id(old_v, s.id));
        v.push(s);
    }
}

/// Whether `content`, the text of the snippet document, is empty or holds
/// only whitespace: such a document holds no snippet.
pub fn document_is_blank(content: &str) -> (r: bool)
    ensures
        r == (trim(content@).len() == 0),
{
    let cs = chars_of(content);
    let (lo, hi) = trim_range(&cs);
    lo == hi
}

/// Removes the element at `k`; the rest keep their order.
fn remove_at(v: &mut Vec<Snippet>, k: usize)
    requires
        unique_ids(old(v)@),
        k < old(v)@.len(),
    ensures
        final(v)@ == old(v)@.remove(k as int),
        unique_ids(final(v)@),
{
    let _ = v.remove(k);
    proof {
        assert forall|i: int, j: int|
            0 <= i < v@.len() && 0 <= j < v@.len() && i != j implies v@[i].id != v@[j].id by {
            let oi = if i < k { i } else { i + 1 };
            let oj = if j < k { j } else { j + 1 };
            assert(old(v)@[oi] == v@[i]);
            assert(old(v)@[oj] == v@[j]);
        }
    }
}

impl SnippetStore {
    /// An empty store whose document is at `data_path`.
    pub fn new(data_path: String) -> (r: SnippetStore)
        ensures
            r@ == Seq::<Snippet>::empty(),
            r.path()@ == data_path@,
            r.wf(),
    {
        SnippetStore { snippets: Vec::new(), data_path }
    }

    pub closed spec fn path(&self) -> String {
        self.data_path
    }

    /// The identifiers of the snippets are distinct.
    #[verifier::type_invariant]
    pub closed spec fn wf(&self) -> bool {
        unique_ids(self.snippets@)
    }

    /// Replaces the snippets with `records`, those of the document, by
    /// identifier: a later record replaces an earlier one with the same
    /// identifier.
    pub fn load(&mut self, records_in: Vec<Snippet>)
        ensures
            final(self)@ == load_records(Seq::empty(), records_in@),
            final(self).path() == old(self).path(),
            final(self).wf(),
    {
        let mut acc: Vec<Snippet> = Vec::new();
        let mut records = records_in;
        let ghost first = records@;
        while records.len() > 0
            invariant
                unique_ids(acc@),
                load_records(acc@, records@) == load_records(Seq::empty(), first),
                self.data_path == old(self).data_path,
            decreases records.len(),
        {
            let ghost rest = records@;
            let s = records.remove(0);
            assert(records@ =~= rest.drop_first());
            insert_into(&mut acc, s);
        }
        self.snippets = acc;
    }

    /// The index of the snippet `id`, if there is one.
    fn position(&self, id: u128) -> (r: Option<usize>)
        requires
            self.wf(),
        ensures
            match r {
                Some(k) => k < self@.len() && self@[k as int].id == id && has_id(self@, id)
                    && remove_snippet(self@, id) == self@.remove(k as int),
                None => !has_id(self@, id) && remove_snippet(self@, id) == self@,
            },
    {
        let mut k: usize = 0;
        while k < self.snippets.len()
            invariant
                k <= self.snippets.len(),
                unique_ids(self.snippets@),
                forall|j: int| 0 <= j < k ==> self.snippets@[j].id != id,
            decreases self.snippets.len() - k,
        {
            if self.snippets[k].id == id {
                proof {
                    assert(has_id(self@, id));
                    let c = choose|c: int| 0 <= c < self@.len() && self@[c].id == id;
                    assert(c == k);
                }
                return Some(k);
            }
            k += 1;
        }
        None
    }

    /// All the snippets, in order.
    pub fn list(&self) -> (r: Vec<&Snippet>)
        ensures
            r@.map_values(|s: &Snippet| *s) == self@,
    {
        let mut r: Vec<&Snippet> = Vec::new();
        let mut i: usize = 0;
        while i < self.snippets.len()
            invariant
                i <= self.snippets.len(),
                r@.map_values(|s: &Snippet| *s) == self.snippets@.take(i as int),
            decreases self.snippets.len() - i,
        {
            r.push(&self.snippets[i]);
            assert(self.snippets@.take(i + 1) =~= self.snippets@.take(i as int).push(
                self.snippets@[i as int],
            ));
            assert(r@.map_values(|s: &Snippet| *s) =~= self.snippets@.take(i + 1));
            i += 1;
        }
        assert(self.snippets@.take(i as int) =~= self.snippets@);
        r
    }

    /// The snippets whose title, description or command holds `query`, all
    /// case-folded, in order.
    pub fn list_filtered(&self, query: &str) -> (r: Vec<&Snippet>)
        ensures
            r@.map_values(|s: &Snippet| *s) == snippet_filter(self@, query@),
            query@.len() == 0 ==> r@.map_values(|s: &Snippet| *s) == self@,
    {
        let mut r: Vec<&Snippet> = Vec::new();
        let mut i: usize = 0;
        while i < self.snippets.len()
            invariant
                i <= self.snippets.len(),
                query@.len() == 0 ==> r@.map_values(|s: &Snippet| *s) == self.snippets@.take(i as int),
                r@.map_values(|s: &Snippet| *s) == snippet_filter(
                    self.snippets@.take(i as int),
                    query@,
                ),
            decreases self.snippets.len() - i,
        {
            let ghost pre = self.snippets@.take(i as int);
            let ghost post = self.snippets@.take(i + 1);
            proof {
                assert(post.drop_last() =~= pre);
                assert(post.last() == self.snippets@[i as int]);
                reveal(Seq::filter);
            }
            if self.snippets[i].matches_search(query) {
                r.push(&self.snippets[i]);
                assert(query@.len() == 0 ==> r@.map_values(|s: &Snippet| *s) =~= self.snippets@.take(i + 1));
                assert(r@.map_values(|s: &Snippet| *s) =~= snippet_filter(post, query@));
            } else {
                assert(r@.map_values(|s: &Snippet| *s) =~= snippet_filter(post, query@));
            }
            i += 1;
        }
        assert(self.snippets@.take(i as int) =~= self.snippets@);
        r
    }

    /// The snippet `id`, if there is one.
    pub fn get(&self, id: u128) -> (r: Option<&Snippet>)
        ensures
            match r {
                Some(s) => s.id == id && self@.contains(*s),
                None => !has_id(self@, id),
            },
    {
        proof {
            use_type_invariant(self);
        }
        match self.position(id) {
            Some(k) => Some(&self.snippets[k]),
            None => None,
        }
    }

    /// Adds `snippet`, in place of the snippet with its identifier if there is one.
    pub fn add(&mut self, snippet: Snippet)
        ensures
            final(self)@ == insert_snippet(old(self)@, snippet),
            final(self).wf(),
            final(self).path() == old(self).path(),
    {
        proof {
            use_type_invariant(&*self);
        }
        let mut v: Vec<Snippet> = Vec::new();
        std::mem::swap(&mut v, &mut self.snippets);
        insert_into(&mut v, snippet);
        self.snippets = v;
    }

    /// Replaces the snippet `id` by `snippet`, which keeps the identifier `id`.
    /// Fails with `SnippetNotFound` when there is no snippet `id`.
    pub fn update(&mut self, id: u128, snippet: Snippet) -> (r: Result<(), SnippetStoreError>)
        ensures
            final(self).wf(),
            final(self).path() == old(self).path(),
            has_id(old(self)@, id) ==> r is Ok && exists|k: int|
                0 <= k < old(self)@.len() && old(self)@[k].id == id && final(self)@ == old(self)@.update(k, Snippet { id, ..snippet }),
            !has_id(old(self)@, id) ==> *final(self) == *old(self) && match r {
                Err(SnippetStoreError::SnippetNotFound(t)) => t@ == uuid_text(id),
                _ => false,
            },
    {
        proof {
            use_type_invariant(&*self);
        }
        match self.position(id) {
            None => Err(SnippetStoreError::SnippetNotFound(id_text(id))),
            Some(k) => {
                let s = Snippet { id, ..snippet };
                let mut v: Vec<Snippet> = Vec::new();
                std::mem::swap(&mut v, &mut self.snippets);
                v.set(k, s);
                proof {
                    assert forall|i: int, j: int|
                        0 <= i < v@.len() && 0 <= j < v@.len() && i != j implies v@[i].id
                            != v@[j].id by {
                        assert(old(self).snippets@[i].id == v@[i].id);
                        assert(old(self).snippets@[j].id == v@[j].id);
                    }
                }
                self.snippets = v;
                Ok(())
            },
        }
    }

    /// Removes the snippet `id`. Fails with `SnippetNotFound` when there is none.
    pub fn delete(&mut self, id: u128) -> (r: Result<(), SnippetStoreError>)
        ensures
            final(self).wf(),
            final(self).path() == old(self).path(),
            final(self)@ == remove_snippet(old(self)@, id),
            !has_id(final(self)@, id),
            has_id(old(self)@, id) ==> r is Ok,
            !has_id(old(self)@, id) ==> *final(self) == *old(self) && match r {
                Err(SnippetStoreError::SnippetNotFound(t)) => t@ == uuid_text(id),
                _ => false,
            },
    {
        proof {
            use_type_invariant(&*self);
        }
        match self.position(id) {
            None => Err(SnippetStoreError::SnippetNotFound(id_text(id))),
            Some(k) => {
                let mut v: Vec<Snippet> = Vec::new();
                std::mem::swap(&mut v, &mut self.snippets);
                remove_at(&mut v, k);
                self.snippets = v;
                proof {
                    assert(!has_id(self@, id)) by {
                        if has_id(self@, id) {
                            let i = choose|i: int| 0 <= i < self@.len() && self@[i].id == id;
                            let oi = if i < k { i } else { i + 1 };
                            assert(old(self).snippets@[oi] == self.snippets@[i]);
                        }
                    }
                }
                Ok(())
            },
        }
    }

    pub fn data_path(&self) -> (r: &String)
        ensures
            *r == self.path(),
    {
        &self.data_path
    }
}

} // verus!
