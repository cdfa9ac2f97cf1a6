//! The set of aliases, kept in a block of the shell startup file that this
//! library owns.
//!
//! The store itself does no I/O. `load` takes the text of the startup file and
//! `save` takes its current text and returns the text to write back: every line
//! outside the managed block stays as it was, and a fresh block, delimited by
//! two marker lines, holds one line per alias.
use vstd::prelude::*;
use crate::alias::{
    alias_line, alias_matches, is_bare_alias, is_bare_alias_line, parse_entry, Alias, AliasSource,
};
use crate::text::{
    chars_of, join3, contains, contains_exec, same_chars, find_char, find_from, push_char, push_range, slice_vec,
    string_of,
};

verus! {

/// A name and a command: what the startup file records of an alias.
pub type Entry = (Seq<char>, Seq<char>);

#[verifier::opaque]
pub open spec fn start_marker() -> Seq<char> {
    seq![
        '#', ' ', 'S', 'N', 'I', 'P', 'L', 'I', 'A', 'S', ' ', 'A', 'L', 'I', 'A', 'S', 'E', 'S',
        ' ', 'S', 'T', 'A', 'R', 'T',
    ]
}

#[verifier::opaque]
pub open spec fn end_marker() -> Seq<char> {
    seq![
        '#', ' ', 'S', 'N', 'I', 'P', 'L', 'I', 'A', 'S', ' ', 'A', 'L', 'I', 'A', 'S', 'E', 'S',
        ' ', 'E', 'N', 'D',
    ]
}

/// The lines of `s`, split at each `\n`; a final `\n` ends the last line
/// rather than starting an empty one.
pub open spec fn split_lines(s: Seq<char>) -> Seq<Seq<char>>
    decreases s.len(),
{
    if s.len() == 0 {
        Seq::empty()
    } else {
        let i = find_from(s, '\n', 0);
        if 0 <= i < s.len() {
            seq![s.subrange(0, i)] + split_lines(s.subrange(i + 1, s.len() as int))
        } else {
            seq![s]
        }
    }
}

/// Each line of `ls` followed by `\n`.
pub open spec fn join_lines(ls: Seq<Seq<char>>) -> Seq<char>
    decreases ls.len(),
{
    if ls.len() == 0 {
        Seq::empty()
    } else {
        ls[0] + seq!['\n'] + join_lines(ls.drop_first())
    }
}

/// The lines of `ls` that a rewrite keeps. `started` tells whether a start
/// marker line was seen, `in_block` whether the lines are inside a managed
/// block. A marker line is a line equal to a marker. Marker lines and the
/// lines of a block are dropped, and so are bare alias lines until the first
/// start marker line.
pub open spec fn strip_managed(ls: Seq<Seq<char>>, started: bool, in_block: bool) -> Seq<Seq<char>>
    decreases ls.len(),
{
    if ls.len() == 0 {
        Seq::empty()
    } else {
        let l = ls[0];
        let rest = ls.drop_first();
        if l == start_marker() {
            strip_managed(rest, true, true)
        } else if l == end_marker() {
            strip_managed(rest, started, false)
        } else if in_block || (!started && is_bare_alias(l)) {
            strip_managed(rest, started, in_block)
        } else {
            seq![l] + strip_managed(rest, started, in_block)
        }
    }
}

/// The block that holds `es`: nothing when `es` is empty.
pub open spec fn managed_block(es: Seq<Entry>) -> Seq<Seq<char>> {
    if es.len() == 0 {
        Seq::empty()
    } else {
        seq![start_marker()] + es.map_values(|e: Entry| alias_line(e.0, e.1)) + seq![end_marker()]
    }
}

/// The lines of `content` that a rewrite keeps.
pub open spec fn kept_lines(content: Seq<char>) -> Seq<Seq<char>> {
    strip_managed(split_lines(content), false, false)
}

/// The text that replaces `content` when the store holds `es`.
pub open spec fn rewrite(content: Seq<char>, es: Seq<Entry>) -> Seq<char> {
    join_lines(kept_lines(content) + managed_block(es))
}

pub open spec fn has_name(es: Seq<Entry>, name: Seq<char>) -> bool {
    exists|k: int| 0 <= k < es.len() && es[k].0 == name
}

/// `es` with `e` in place of the entry of the same name, or with `e` added
/// at the end when there is none.
pub open spec fn insert_entry(es: Seq<Entry>, e: Entry) -> Seq<Entry> {
    if has_name(es, e.0) {
        es.map_values(|x: Entry| if x.0 == e.0 { e } else { x })
    } else {
        es.push(e)
    }
}

/// `es` after reading each line of `ls` in order: an alias line sets its name.
pub open spec fn load_from(es: Seq<Entry>, ls: Seq<Seq<char>>) -> Seq<Entry>
    decreases ls.len(),
{
    if ls.len() == 0 {
        es
    } else {
        let next = match parse_entry(ls[0]) {
            Some(e) => insert_entry(es, e),
            None => es,
        };
        load_from(next, ls.drop_first())
    }
}

/// The aliases that the text of a startup file defines, by name, the last
/// definition of a name winning.
pub open spec fn config_entries(content: Seq<char>) -> Seq<Entry> {
    load_from(Seq::empty(), split_lines(content))
}

pub open spec fn entry_of(a: Alias) -> Entry {
    (a.name@, a.command@)
}

pub open spec fn entries(aliases: Seq<Alias>) -> Seq<Entry> {
    aliases.map_values(|a: Alias| entry_of(a))
}

pub open spec fn unique_names(aliases: Seq<Alias>) -> bool {
    forall|i: int, j: int|
        0 <= i < aliases.len() && 0 <= j < aliases.len() && i != j ==> aliases[i].name@
            != aliases[j].name@
}

pub open spec fn has_alias(aliases: Seq<Alias>, name: Seq<char>) -> bool {
    exists|k: int| 0 <= k < aliases.len() && aliases[k].name@ == name
}

/// `aliases` with `a` in place of the alias of the same name, or with `a`
/// added at the end when there is none.
pub open spec fn insert_alias(aliases: Seq<Alias>, a: Alias) -> Seq<Alias> {
    if has_alias(aliases, a.name@) {
        aliases.map_values(|x: Alias| if x.name@ == a.name@ { a } else { x })
    } else {
        aliases.push(a)
    }
}

/// `aliases` without the alias named `name`, when names are distinct.
pub open spec fn remove_alias(aliases: Seq<Alias>, name: Seq<char>) -> Seq<Alias> {
    if has_alias(aliases, name) {
        aliases.remove(choose|k: int| 0 <= k < aliases.len() && aliases[k].name@ == name)
    } else {
        aliases
    }
}

/// The aliases that a search for `query` finds, in order.
pub open spec fn alias_filter(aliases: Seq<Alias>, query: Seq<char>) -> Seq<Alias> {
    aliases.filter(|a: Alias| alias_matches(a, query))
}

pub open spec fn source_prefix() -> Seq<char> {
    seq!['s', 'o', 'u', 'r', 'c', 'e', ' ']
}

pub open spec fn zsh_text() -> Seq<char> {
    seq!['z', 's', 'h']
}

/// The startup file to use, given the user's shell and which candidates exist:
/// `.zshrc` for a zsh user, then `.bashrc`, then `.bash_profile`.
pub open spec fn config_choice(
    shell: Seq<char>,
    zshrc: bool,
    bashrc: bool,
    bash_profile: bool,
) -> Option<(ConfigFile, AliasSource)> {
    if contains(shell, zsh_text()) && zshrc {
        Some((ConfigFile::Zshrc, AliasSource::Zsh))
    } else if bashrc {
        Some((ConfigFile::Bashrc, AliasSource::Bash))
    } else if bash_profile {
        Some((ConfigFile::BashProfile, AliasSource::Bash))
    } else {
        None
    }
}

/// The errors of the alias store.
#[derive(Debug, Clone, PartialEq, Eq)]
pub enum AliasStoreError {
    /// The startup file could not be read; the text says why.
    ReadError(String),
    /// The startup file could not be written; the text says why.
    WriteError(String),
    /// No startup file was found.
    ConfigPathNotFound,
    /// No alias has this name.
    AliasNotFound(String),
}

impl AliasStoreError {
    /// The text that tells the user what went wrong.
    pub fn message(&self) -> (r: String)
        ensures
            r@ == match self {
                AliasStoreError::ReadError(e) => "Failed to read shell config file: "@ + e@ + ""@,
                AliasStoreError::WriteError(e) => "Failed to write shell config file: "@ + e@ + ""@,
                AliasStoreError::ConfigPathNotFound => "Failed to determine shell config path"@,
                AliasStoreError::AliasNotFound(n) => "Alias not found: "@ + n@ + ""@,
            },
    {
        match self {
            AliasStoreError::ReadError(e) => join3("Failed to read shell config file: ", e.as_str(), ""),
            AliasStoreError::WriteError(e) => join3(
                "Failed to write shell config file: ",
                e.as_str(),
                "",
            ),
            AliasStoreError::ConfigPathNotFound => "Failed to determine shell config path".to_owned(),
            AliasStoreError::AliasNotFound(n) => join3("Alias not found: ", n.as_str(), ""),
        }
    }
}

/// The startup files that the store may use.
#[derive(Debug, Clone, Copy, PartialEq, Eq, Structural)]
pub enum ConfigFile {
    Zshrc,
    Bashrc,
    BashProfile,
}

/// The aliases of one shell startup file, with distinct names.
pub struct AliasStore {
    aliases: Vec<Alias>,
    config_path: String,
    source: AliasSource,
}

impl View for AliasStore {
    type V = Seq<Alias>;

    closed spec fn view(&self) -> Seq<Alias> {
        self.aliases@
    }
}

pub fn start_marker_chars() -> (r: Vec<char>)
    ensures
        r@ == start_marker(),
{
    let r = vec![
        '#', ' ', 'S', 'N', 'I', 'P', 'L', 'I', 'A', 'S', ' ', 'A', 'L', 'I', 'A', 'S', 'E', 'S',
        ' ', 'S', 'T', 'A', 'R', 'T',
    ];
    reveal(start_marker);
    assert(r@ =~= start_marker());
    r
}

pub fn end_marker_chars() -> (r: Vec<char>)
    ensures
        r@ == end_marker(),
{
    let r = vec![
        '#', ' ', 'S', 'N', 'I', 'P', 'L', 'I', 'A', 'S', ' ', 'A', 'L', 'I', 'A', 'S', 'E', 'S',
        ' ', 'E', 'N', 'D',
    ];
    reveal(end_marker);
    assert(r@ =~= end_marker());
    r
}

pub proof fn lemma_join_lines_add(a: Seq<Seq<char>>, b: Seq<Seq<char>>)
    ensures
        join_lines(a + b) == join_lines(a) + join_lines(b),
    decreases a.len(),
{
    if a.len() == 0 {
        assert(a + b =~= b);
        assert(join_lines(a) + join_lines(b) =~= join_lines(b));
    } else {
        assert((a + b).drop_first() =~= a.drop_first() + b);
        lemma_join_lines_add(a.drop_first(), b);
        assert(join_lines(a + b) =~= join_lines(a) + join_lines(b));
    }
}

/// One step of `split_lines` on what remains of `s` from `pos`: the line
/// `[pos, hi)` comes first.
proof fn lemma_split_step(s: Seq<char>, pos: int, hi: int)
    requires
        0 <= pos < s.len(),
        pos <= hi <= s.len(),
        hi == pos + find_from(s.subrange(pos, s.len() as int), '\n', 0),
    ensures
        hi < s.len() ==> split_lines(s.subrange(pos, s.len() as int)) == seq![
            s.subrange(pos, hi),
        ] + split_lines(s.subrange(hi + 1, s.len() as int)),
        hi == s.len() ==> split_lines(s.subrange(pos, s.len() as int)) == seq![
            s.subrange(pos, hi),
        ],
{
    let r = s.subrange(pos, s.len() as int);
    assert(r.subrange(0, hi - pos) =~= s.subrange(pos, hi));
    if hi < s.len() {
        assert(r.subrange(hi - pos + 1, r.len() as int) =~= s.subrange(hi + 1, s.len() as int));
    }
    if hi == s.len() {
        assert(r.subrange(0, hi - pos) =~= r);
    }
}

proof fn lemma_find_from_shift(s: Seq<char>, pos: int, j: int)
    requires
        0 <= pos <= j <= s.len(),
        forall|i: int| pos <= i < j ==> s[i] != '\n',
        j == s.len() || s[j] == '\n',
    ensures
        j == pos + find_from(s.subrange(pos, s.len() as int), '\n', 0),
    decreases j - pos,
{
    let r = s.subrange(pos, s.len() as int);
    lemma_find_from_rel(r, 0, j - pos);
}

proof fn lemma_find_from_rel(r: Seq<char>, k: int, t: int)
    requires
        0 <= k <= t <= r.len(),
        forall|i: int| k <= i < t ==> r[i] != '\n',
        t == r.len() || r[t] == '\n',
    ensures
        find_from(r, '\n', k) == t,
    decreases t - k,
{
    if k < t {
        lemma_find_from_rel(r, k + 1, t);
    }
}

/// Puts `a` in place of the alias of the same name, or adds it at the end.
fn insert_into(v: &mut Vec<Alias>, a: Alias)
    requires
        unique_names(old(v)@),
    ensures
        final(v)@ == insert_alias(old(v)@, a),
        unique_names(final(v)@),
        entries(final(v)@) == insert_entry(entries(old(v)@), entry_of(a)),
{
    let ghost old_v = v@;
    let ghost e = entry_of(a);
    let mut k: usize = 0;
    while k < v.len() && v[k].name != a.name
        invariant
            k <= v.len(),
            v@ == old_v,
            unique_names(old_v),
            forall|j: int| 0 <= j < k ==> v@[j].name@ != a.name@,
        decreases v.len() - k,
    {
        k += 1;
    }
    if k < v.len() {
        proof {
            assert(has_alias(old_v, a.name@));
            assert(has_name(entries(old_v), e.0)) by {
                assert(entries(old_v)[k as int].0 == e.0);
            }
        }
        v.set(k, a);
        proof {
            assert(v@ =~= insert_alias(old_v, a)) by {
                assert forall|j: int| 0 <= j < v@.len() implies v@[j] == insert_alias(old_v, a)[j] by {
                    if j != k {
                        assert(old_v[j].name@ != old_v[k as int].name@);
                    }
                }
            }
            assert(entries(v@) =~= insert_entry(entries(old_v), e)) by {
                assert forall|j: int| 0 <= j < v@.len() implies entries(v@)[j] == insert_entry(
                    entries(old_v),
                    e,
                )[j] by {
                    if j != k {
                        assert(old_v[j].name@ != old_v[k as int].name@);
                    }
                }
            }
        }
    } else {
        proof {
            assert(!has_alias(old_v, a.name@));
            assert(!has_name(entries(old_v), a.name@)) by {
                if has_name(entries(old_v), a.name@) {
                    let j = choose|j: int|
                        0 <= j < entries(old_v).len() && entries(old_v)[j].0 == a.name@;
                    assert(old_v[j].name@ == a.name@);
                }
            }
        }
        v.push(a);
        assert(entries(v@) =~= entries(old_v).push(e));
    }
}

/// A proof that the kept line `l` followed by the rest strips to `l` and the
/// stripped rest.
proof fn lemma_strip_keep(l: Seq<char>, rest: Seq<Seq<char>>, started: bool, in_block: bool)
    requires
        l != start_marker(),
        l != end_marker(),
        !(in_block || (!started && is_bare_alias(l))),
    ensures
        strip_managed(seq![l] + rest, started, in_block) == seq![l] + strip_managed(
            rest,
            started,
            in_block,
        ),
{
    assert((seq![l] + rest).drop_first() =~= rest);
    assert((seq![l] + rest)[0] == l);
}

proof fn lemma_strip_step(l: Seq<char>, rest: Seq<Seq<char>>, started: bool, in_block: bool)
    ensures
        l == start_marker() ==> strip_managed(seq![l] + rest, started, in_block)
            == strip_managed(rest, true, true),
        l != start_marker() && l == end_marker() ==> strip_managed(
            seq![l] + rest,
            started,
            in_block,
        ) == strip_managed(rest, started, false),
        l != start_marker() && l != end_marker() && (in_block || (!started
            && is_bare_alias(l))) ==> strip_managed(seq![l] + rest, started, in_block)
            == strip_managed(rest, started, in_block),
{
    assert((seq![l] + rest).drop_first() =~= rest);
    assert((seq![l] + rest)[0] == l);
}

proof fn lemma_join_one(l: Seq<char>, rest: Seq<Seq<char>>)
    ensures
        join_lines(seq![l] + rest) == l + seq!['\n'] + join_lines(rest),
{
    assert((seq![l] + rest).drop_first() =~= rest);
    assert((seq![l] + rest)[0] == l);
}

proof fn lemma_load_step(es: Seq<Entry>, l: Seq<char>, rest: Seq<Seq<char>>)
    ensures
        load_from(es, seq![l] + rest) == load_from(
            match parse_entry(l) {
                Some(e) => insert_entry(es, e),
                None => es,
            },
            rest,
        ),
{
    assert((seq![l] + rest).drop_first() =~= rest);
    assert((seq![l] + rest)[0] == l);
}

/// Removes the element at `k`; the rest keep their order.
fn remove_at(v: &mut Vec<Alias>, k: usize)
    requires
        unique_names(old(v)@),
        k < old(v)@.len(),
    ensures
        final(v)@ == old(v)@.remove(k as int),
        unique_names(final(v)@),
{
    let _ = v.remove(k);
    proof {
        assert forall|i: int, j: int|
            0 <= i < v@.len() && 0 <= j < v@.len() && i != j implies v@[i].name@ != v@[j].name@ by {
            let oi = if i < k { i } else { i + 1 };
            let oj = if j < k { j } else { j + 1 };
            assert(old(v)@[oi] == v@[i]);
            assert(old(v)@[oj] == v@[j]);
        }
    }
}

impl AliasStore {
    /// An empty store for the startup file at `config_path`, of the shell `source`.
    pub fn new(config_path: String, source: AliasSource) -> (r: AliasStore)
        ensures
            r@ == Seq::<Alias>::empty(),
            r.shell() == source,
            r.path()@ == config_path@,
    {
        AliasStore { aliases: Vec::new(), config_path, source }
    }

    /// Replaces the aliases with those that `content`, the text of the startup
    /// file, defines: one per name, the last definition of a name winning.
    pub fn load(&mut self, content: &str)
        ensures
            entries(final(self)@) == config_entries(content@),
            forall|i: int|
                0 <= i < final(self)@.len() ==> (#[trigger] final(self)@[i]).source_file
                    == old(self).shell() && final(self)@[i].description is None,
            final(self).shell() == old(self).shell(),
            final(self).path() == old(self).path(),
            final(self).wf(),
    {
        let s = chars_of(content);
        let n = s.len();
        let mut acc: Vec<Alias> = Vec::new();
        let mut pos: usize = 0;
        assert(s@.subrange(0, n as int) =~= s@);
        assert(entries(acc@) =~= Seq::<Entry>::empty());
        while pos < n
            invariant
                pos <= n == s.len(),
                load_from(entries(acc@), split_lines(s@.subrange(pos as int, n as int)))
                    == config_entries(content@),
                s@ == content@,
                unique_names(acc@),
                forall|i: int|
                    0 <= i < acc@.len() ==> (#[trigger] acc@[i]).source_file == self.source
                        && acc@[i].description is None,
                self.source == old(self).source,
                self.config_path == old(self).config_path,
            decreases n - pos,
        {
            let hi = find_char(&s, '\n', pos);
            let line = string_of(&s, pos, hi);
            proof {
                lemma_find_from_shift(s@, pos as int, hi as int);
                lemma_split_step(s@, pos as int, hi as int);
            }
            let next: usize = if hi < n { hi + 1 } else { hi };
            let ghost rest = split_lines(s@.subrange(next as int, n as int));
            proof {
                if hi == n {
                    assert(rest =~= Seq::<Seq<char>>::empty());
                    assert(seq![line@] + rest =~= seq![line@]);
                }
                lemma_load_step(entries(acc@), line@, rest);
            }
            match Alias::parse_line(line.as_str(), self.source) {
                Some(a) => {
                    insert_into(&mut acc, a);
                },
                None => {},
            }
            pos = next;
        }
        assert(split_lines(s@.subrange(pos as int, n as int)) =~= Seq::<Seq<char>>::empty()) by {
            assert(s@.subrange(pos as int, n as int).len() == 0);
        }
        self.aliases = acc;
    }

    /// The text to write back to the startup file, given its current text:
    /// every line outside a managed block is kept, in order (bare alias lines
    /// before the first block are dropped, as the block now holds the aliases),
    /// and, when the store is not empty, a block with one line per alias ends it.
    pub fn save(&self, current: &str) -> (r: String)
        ensures
            r@ == rewrite(current@, entries(self@)),
    {
        let s = chars_of(current);
        let n = s.len();
        let start = start_marker_chars();
        let end = end_marker_chars();
        let mut out = String::new();
        let mut started = false;
        let mut in_block = false;
        let mut pos: usize = 0;
        let ghost kept = kept_lines(current@);
        assert(s@.subrange(0, n as int) =~= s@);
        while pos < n
            invariant
                pos <= n == s.len(),
                s@ == current@,
                start@ == start_marker(),
                end@ == end_marker(),
                kept == kept_lines(current@),
                out@ + join_lines(
                    strip_managed(split_lines(s@.subrange(pos as int, n as int)), started, in_block),
                ) == join_lines(kept),
            decreases n - pos,
        {
            let hi = find_char(&s, '\n', pos);
            let line = slice_vec(&s, pos, hi);
            proof {
                lemma_find_from_shift(s@, pos as int, hi as int);
                lemma_split_step(s@, pos as int, hi as int);
            }
            let next: usize = if hi < n { hi + 1 } else { hi };
            let ghost rest = split_lines(s@.subrange(next as int, n as int));
            proof {
                if hi == n {
                    assert(rest =~= Seq::<Seq<char>>::empty());
                    assert(seq![line@] + rest =~= seq![line@]);
                }
                lemma_strip_step(line@, rest, started, in_block);
            }
            if same_chars(&line, &start) {
                started = true;
                in_block = true;
            } else if same_chars(&line, &end) {
                in_block = false;
            } else if in_block || (!started && is_bare_alias_line(&line)) {
            } else {
                proof {
                    lemma_strip_keep(line@, rest, started, in_block);
                    lemma_join_one(line@, strip_managed(rest, started, in_block));
                }
                let ghost before = out@;
                push_range(&mut out, &s, pos, hi);
                push_char(&mut out, '\n');
                assert(out@ =~= before + line@ + seq!['\n']);
                assert(out@ + join_lines(strip_managed(rest, started, in_block)) =~= before + (
                line@ + seq!['\n'] + join_lines(strip_managed(rest, started, in_block))));
            }
            pos = next;
        }
        assert(split_lines(s@.subrange(pos as int, n as int)) =~= Seq::<Seq<char>>::empty()) by {
            assert(s@.subrange(pos as int, n as int).len() == 0);
        }
        assert(out@ =~= join_lines(kept));
        let ghost es = entries(self@);
        if self.aliases.len() > 0 {
            let ghost mut blk: Seq<Seq<char>> = seq![start_marker()];
            push_range(&mut out, &start, 0, start.len());
            push_char(&mut out, '\n');
            proof {
                assert(start@.subrange(0, start@.len() as int) =~= start@);
                lemma_join_one(start_marker(), Seq::empty());
                assert(seq![start_marker()] + Seq::<Seq<char>>::empty() =~= seq![start_marker()]);
                assert(join_lines(Seq::<Seq<char>>::empty()) =~= Seq::<char>::empty());
                assert(out@ =~= join_lines(kept) + join_lines(blk));
            }
            let mut i: usize = 0;
            while i < self.aliases.len()
                invariant
                    i <= self.aliases.len(),
                    es == entries(self.aliases@),
                    end@ == end_marker(),
                    blk == seq![start_marker()] + es.take(i as int).map_values(
                        |e: Entry| alias_line(e.0, e.1),
                    ),
                    out@ == join_lines(kept) + join_lines(blk),
                decreases self.aliases.len() - i,
            {
                let text = self.aliases[i].to_alias_string();
                let ghost before = out@;
                out.append(text.as_str());
                push_char(&mut out, '\n');
                proof {
                    lemma_join_lines_add(blk, seq![text@]);
                    lemma_join_one(text@, Seq::empty());
                    assert(seq![text@] + Seq::<Seq<char>>::empty() =~= seq![text@]);
                    assert(join_lines(Seq::<Seq<char>>::empty()) =~= Seq::<char>::empty());
                    assert(join_lines(seq![text@]) =~= text@ + seq!['\n']);
                    assert(blk.push(text@) =~= blk + seq![text@]);
                    assert(out@ =~= before + text@ + seq!['\n']);
                    assert(es.take(i + 1).map_values(|e: Entry| alias_line(e.0, e.1)) =~= es.take(
                        i as int,
                    ).map_values(|e: Entry| alias_line(e.0, e.1)).push(text@));
                    blk = blk.push(text@);
                    assert(out@ =~= join_lines(kept) + join_lines(blk));
                }
                i += 1;
            }
            push_range(&mut out, &end, 0, end.len());
            push_char(&mut out, '\n');
            proof {
                assert(end@.subrange(0, end@.len() as int) =~= end@);
                lemma_join_lines_add(blk, seq![end_marker()]);
                lemma_join_one(end_marker(), Seq::empty());
                assert(seq![end_marker()] + Seq::<Seq<char>>::empty() =~= seq![end_marker()]);
                assert(join_lines(Seq::<Seq<char>>::empty()) =~= Seq::<char>::empty());
                assert(join_lines(seq![end_marker()]) =~= end_marker() + seq!['\n']);
                assert(blk.push(end_marker()) =~= blk + seq![end_marker()]);
                assert(es.take(es.len() as int) =~= es);
                assert(blk.push(end_marker()) =~= managed_block(es));
                assert(out@ =~= join_lines(kept) + join_lines(managed_block(es)));
                lemma_join_lines_add(kept, managed_block(es));
            }
        } else {
            proof {
                assert(managed_block(es) =~= Seq::<Seq<char>>::empty());
                assert(kept + managed_block(es) =~= kept);
            }
        }
        out
    }

    /// The index of the alias named `name`, if there is one.
    fn position(&self, name: &str) -> (r: Option<usize>)
        requires
            self.wf(),
        ensures
            match r {
                Some(k) => k < self@.len() && self@[k as int].name@ == name@ && has_alias(
                    self@,
                    name@,
                ) && remove_alias(self@, name@) == self@.remove(k as int),
                None => !has_alias(self@, name@) && remove_alias(self@, name@) == self@,
            },
    {
        let target = name.to_owned();
        let mut k: usize = 0;
        while k < self.aliases.len()
            invariant
                k <= self.aliases.len(),
                target@ == name@,
                unique_names(self.aliases@),
                forall|j: int| 0 <= j < k ==> self.aliases@[j].name@ != name@,
            decreases self.aliases.len() - k,
        {
            if self.aliases[k].name == target {
                proof {
                    assert(has_alias(self@, name@));
                    let c = choose|c: int| 0 <= c < self@.len() && self@[c].name@ == name@;
                    assert(c == k);
                }
                return Some(k);
            }
            k += 1;
        }
        None
    }

    /// Adds `alias`, in place of the alias of the same name if there is one.
    pub fn add(&mut self, alias: Alias)
        ensures
            final(self)@ == insert_alias(old(self)@, alias),
            final(self).wf(),
            final(self).shell() == old(self).shell(),
            final(self).path() == old(self).path(),
    {
        proof {
            use_type_invariant(&*self);
        }
        let mut v: Vec<Alias> = Vec::new();
        std::mem::swap(&mut v, &mut self.aliases);
        insert_into(&mut v, alias);
        self.aliases = v;
    }

    /// Replaces the alias named `name` by `new_alias`, which may carry another
    /// name (it then replaces an alias of that name too). Fails with
    /// `AliasNotFound` when no alias is named `name`.
    pub fn update(&mut self, name: &str, new_alias: Alias) -> (r: Result<(), AliasStoreError>)
        ensures
            final(self).wf(),
            final(self).shell() == old(self).shell(),
            final(self).path() == old(self).path(),
            has_alias(old(self)@, name@) ==> r is Ok && final(self)@ == insert_alias(
                remove_alias(old(self)@, name@),
                new_alias,
            ),
            !has_alias(old(self)@, name@) ==> *final(self) == *old(self) && match r {
                Err(AliasStoreError::AliasNotFound(n)) => n@ == name@,
                _ => false,
            },
    {
        proof {
            use_type_invariant(&*self);
        }
        match self.position(name) {
            None => Err(AliasStoreError::AliasNotFound(name.to_owned())),
            Some(k) => {
                let mut v: Vec<Alias> = Vec::new();
                std::mem::swap(&mut v, &mut self.aliases);
                remove_at(&mut v, k);
                insert_into(&mut v, new_alias);
                self.aliases = v;
                Ok(())
            },
        }
    }

    /// Removes the alias named `name`. Fails with `AliasNotFound` when there is none.
    pub fn delete(&mut self, name: &str) -> (r: Result<(), AliasStoreError>)
        ensures
            final(self).wf(),
            final(self).shell() == old(self).shell(),
            final(self).path() == old(self).path(),
            final(self)@ == remove_alias(old(self)@, name@),
            !has_alias(final(self)@, name@),
            has_alias(old(self)@, name@) ==> r is Ok,
            !has_alias(old(self)@, name@) ==> *final(self) == *old(self) && match r {
                Err(AliasStoreError::AliasNotFound(n)) => n@ == name@,
                _ => false,
            },
    {
        proof {
            use_type_invariant(&*self);
        }
        match self.position(name) {
            None => Err(AliasStoreError::AliasNotFound(name.to_owned())),
            Some(k) => {
                let mut v: Vec<Alias> = Vec::new();
                std::mem::swap(&mut v, &mut self.aliases);
                remove_at(&mut v, k);
                self.aliases = v;
                proof {
                    assert(!has_alias(self@, name@)) by {
                        if has_alias(self@, name@) {
                            let i = choose|i: int| 0 <= i < self@.len() && self@[i].name@ == name@;
                            let oi = if i < k { i } else { i + 1 };
                            assert(old(self).aliases@[oi] == self.aliases@[i]);
                        }
                    }
                }
                Ok(())
            },
        }
    }

    /// All the aliases, in order.
    pub fn list(&self) -> (r: Vec<&Alias>)
        ensures
            r@.map_values(|a: &Alias| *a) == self@,
    {
        let mut r: Vec<&Alias> = Vec::new();
        let mut i: usize = 0;
        while i < self.aliases.len()
            invariant
                i <= self.aliases.len(),
                r@.map_values(|a: &Alias| *a) == self.aliases@.take(i as int),
            decreases self.aliases.len() - i,
        {
            r.push(&self.aliases[i]);
            assert(self.aliases@.take(i + 1) =~= self.aliases@.take(i as int).push(
                self.aliases@[i as int],
            ));
            assert(r@.map_values(|a: &Alias| *a) =~= self.aliases@.take(i + 1));
            i += 1;
        }
        assert(self.aliases@.take(i as int) =~= self.aliases@);
        r
    }

    /// The aliases whose name, command or description holds `query`, all
    /// case-folded, in order.
    pub fn list_filtered(&self, query: &str) -> (r: Vec<&Alias>)
        ensures
            r@.map_values(|a: &Alias| *a) == alias_filter(self@, query@),
            query@.len() == 0 ==> r@.map_values(|a: &Alias| *a) == self@,
    {
        let mut r: Vec<&Alias> = Vec::new();
        let mut i: usize = 0;
        while i < self.aliases.len()
            invariant
                i <= self.aliases.len(),
                query@.len() == 0 ==> r@.map_values(|a: &Alias| *a) == self.aliases@.take(i as int),
                r@.map_values(|a: &Alias| *a) == alias_filter(self.aliases@.take(i as int), query@),
            decreases self.aliases.len() - i,
        {
            let ghost pre = self.aliases@.take(i as int);
            let ghost post = self.aliases@.take(i + 1);
            proof {
                assert(post.drop_last() =~= pre);
                assert(post.last() == self.aliases@[i as int]);
                reveal(Seq::filter);
            }
            if self.aliases[i].matches_search(query) {
                r.push(&self.aliases[i]);
                assert(query@.len() == 0 ==> r@.map_values(|a: &Alias| *a) =~= self.aliases@.take(i + 1));
                assert(r@.map_values(|a: &Alias| *a) =~= alias_filter(post, query@));
            } else {
                assert(r@.map_values(|a: &Alias| *a) =~= alias_filter(post, query@));
            }
            i += 1;
        }
        assert(self.aliases@.take(i as int) =~= self.aliases@);
        r
    }

    pub fn source(&self) -> (r: &AliasSource)
        ensures
            *r == self.shell(),
    {
        &self.source
    }

    /// The path of the startup file.
    pub fn config_path(&self) -> (r: &String)
        ensures
            *r == self.path(),
    {
        &self.config_path
    }

    /// The shell command that reloads the startup file: `source PATH`.
    pub fn source_command(&self) -> (r: Option<String>)
        ensures
            r is Some,
            r->0@ == source_prefix() + self.path()@,
    {
        let mut r = String::new();
        push_char(&mut r, 's');
        push_char(&mut r, 'o');
        push_char(&mut r, 'u');
        push_char(&mut r, 'r');
        push_char(&mut r, 'c');
        push_char(&mut r, 'e');
        push_char(&mut r, ' ');
        r.append(self.config_path.as_str());
        assert(r@ =~= source_prefix() + self.config_path@);
        Some(r)
    }

    /// The startup file to use, given the user's `shell` (the value of
    /// `$SHELL`) and which candidate files exist. Fails with
    /// `ConfigPathNotFound` when none does.
    pub fn detect_shell_config(
        shell: &str,
        zshrc_exists: bool,
        bashrc_exists: bool,
        bash_profile_exists: bool,
    ) -> (r: Result<(ConfigFile, AliasSource), AliasStoreError>)
        ensures
            match config_choice(shell@, zshrc_exists, bashrc_exists, bash_profile_exists) {
                Some(c) => r == Ok::<(ConfigFile, AliasSource), AliasStoreError>(c),
                None => r == Err::<(ConfigFile, AliasSource), AliasStoreError>(
                    AliasStoreError::ConfigPathNotFound,
                ),
            },
    {
        let zsh = vec!['z', 's', 'h'];
        assert(zsh@ =~= zsh_text());
        let cs = chars_of(shell);
        if contains_exec(&cs, &zsh) && zshrc_exists {
            Ok((ConfigFile::Zshrc, AliasSource::Zsh))
        } else if bashrc_exists {
            Ok((ConfigFile::Bashrc, AliasSource::Bash))
        } else if bash_profile_exists {
            Ok((ConfigFile::BashProfile, AliasSource::Bash))
        } else {
            Err(AliasStoreError::ConfigPathNotFound)
        }
    }

    pub closed spec fn shell(&self) -> AliasSource {
        self.source
    }

    pub closed spec fn path(&self) -> String {
        self.config_path
    }

    /// The names of the aliases are distinct.
    #[verifier::type_invariant]
    pub closed spec fn wf(&self) -> bool {
        unique_names(self.aliases@)
    }

    pub proof fn lemma_wf_unique(&self)
        requires
            self.wf(),
        ensures
            unique_names(self@),
    {
    }
}

} // verus!
