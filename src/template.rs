//! Placeholders in command templates: `{{name}}` and `{{name:default}}`.
//!
//! A name is one or more of `[A-Za-z0-9_]`; a default is any text without `}`.
//! Placeholders are found left to right without overlap, the way a leftmost
//! pattern search would find them.
use vstd::prelude::*;
use crate::text::{chars_of, occurs_at, push_range, string_of};

verus! {

/// A placeholder found in a template: its name, its default, and the index
/// just past its closing braces.
pub type Found = (Seq<char>, Option<Seq<char>>, int);

pub open spec fn is_word(c: char) -> bool {
    ('a' <= c && c <= 'z') || ('A' <= c && c <= 'Z') || ('0' <= c && c <= '9') || c == '_'
}

pub open spec fn open_braces() -> Seq<char> {
    seq!['{', '{']
}

pub open spec fn close_braces() -> Seq<char> {
    seq!['}', '}']
}

/// The first index at or after `k` that does not hold a name character.
pub open spec fn word_end(s: Seq<char>, k: int) -> int
    decreases s.len() - k,
{
    if 0 <= k < s.len() && is_word(s[k]) {
        word_end(s, k + 1)
    } else {
        k
    }
}

/// The first index at or after `k` that holds `}`, or the length of `s`.
pub open spec fn brace_end(s: Seq<char>, k: int) -> int
    decreases s.len() - k,
{
    if 0 <= k < s.len() && s[k] != '}' {
        brace_end(s, k + 1)
    } else {
        k
    }
}

/// The placeholder that starts at index `i` of `s`, if one does.
pub open spec fn placeholder_at(s: Seq<char>, i: int) -> Option<Found> {
    if occurs_at(s, open_braces(), i) {
        let j = word_end(s, i + 2);
        if j > i + 2 && occurs_at(s, close_braces(), j) {
            Some((s.subrange(i + 2, j), None, j + 2))
        } else if j > i + 2 && j < s.len() && s[j] == ':' {
            let k = brace_end(s, j + 1);
            if occurs_at(s, close_braces(), k) {
                Some((s.subrange(i + 2, j), Some(s.subrange(j + 1, k)), k + 2))
            } else {
                None
            }
        } else {
            None
        }
    } else {
        None
    }
}

/// The names and defaults of the placeholders of `s` from index `i` on, in order.
pub open spec fn placeholders_from(s: Seq<char>, i: int) -> Seq<(Seq<char>, Option<Seq<char>>)>
    decreases s.len() - i,
{
    if i < 0 || i >= s.len() {
        Seq::empty()
    } else {
        match placeholder_at(s, i) {
            Some(f) => if f.2 > i {
                seq![(f.0, f.1)] + placeholders_from(s, f.2)
            } else {
                placeholders_from(s, i + 1)
            },
            None => placeholders_from(s, i + 1),
        }
    }
}

pub open spec fn placeholders(s: Seq<char>) -> Seq<(Seq<char>, Option<Seq<char>>)> {
    placeholders_from(s, 0)
}

/// One entry per distinct name of `ps`, in order of first occurrence, with the
/// default of that first occurrence.
pub open spec fn distinct_by_name(ps: Seq<(Seq<char>, Option<Seq<char>>)>) -> Seq<
    (Seq<char>, Option<Seq<char>>),
>
    decreases ps.len(),
{
    if ps.len() == 0 {
        Seq::empty()
    } else {
        let prev = distinct_by_name(ps.drop_last());
        if exists|k: int| 0 <= k < prev.len() && prev[k].0 == ps.last().0 {
            prev
        } else {
            prev.push(ps.last())
        }
    }
}

/// The value that `vals` gives to `name`: that of its first pair with that name.
pub open spec fn lookup(vals: Seq<(Seq<char>, Seq<char>)>, name: Seq<char>) -> Option<Seq<char>>
    decreases vals.len(),
{
    if vals.len() == 0 {
        None
    } else if vals[0].0 == name {
        Some(vals[0].1)
    } else {
        lookup(vals.drop_first(), name)
    }
}

/// `s` from index `i` on, with each placeholder whose name `vals` gives replaced
/// by that value, and every other character kept.
pub open spec fn render_from(s: Seq<char>, i: int, vals: Seq<(Seq<char>, Seq<char>)>) -> Seq<char>
    decreases s.len() - i,
{
    if i < 0 || i >= s.len() {
        Seq::empty()
    } else {
        match placeholder_at(s, i) {
            Some(f) => if f.2 > i {
                let piece = match lookup(vals, f.0) {
                    Some(v) => v,
                    None => s.subrange(i, f.2),
                };
                piece + render_from(s, f.2, vals)
            } else {
                seq![s[i]] + render_from(s, i + 1, vals)
            },
            None => seq![s[i]] + render_from(s, i + 1, vals),
        }
    }
}

pub open spec fn render_spec(s: Seq<char>, vals: Seq<(Seq<char>, Seq<char>)>) -> Seq<char> {
    render_from(s, 0, vals)
}

pub open spec fn opt_view(o: Option<String>) -> Option<Seq<char>> {
    match o {
        Some(v) => Some(v@),
        None => None,
    }
}

/// A variable of a template: a placeholder name and its default, if any.
#[derive(Debug, Clone, PartialEq, Eq)]
pub struct SnippetVariable {
    pub name: String,
    pub default_value: Option<String>,
}

impl SnippetVariable {
    pub open spec fn view(&self) -> (Seq<char>, Option<Seq<char>>) {
        (self.name@, opt_view(self.default_value))
    }
}

pub open spec fn vars_view(vs: Seq<SnippetVariable>) -> Seq<(Seq<char>, Option<Seq<char>>)> {
    vs.map_values(|v: SnippetVariable| v.view())
}

pub open spec fn pairs_view(vals: Seq<(String, String)>) -> Seq<(Seq<char>, Seq<char>)> {
    vals.map_values(|p: (String, String)| (p.0@, p.1@))
}

/// Where a placeholder starts at `i`: the bounds of its name, those of its
/// default, and the index just past it.
pub struct Span {
    pub name_lo: usize,
    pub name_hi: usize,
    pub default: Option<(usize, usize)>,
    pub end: usize,
}

pub open spec fn span_matches(s: Seq<char>, i: int, sp: Span) -> bool {
    &&& i + 2 <= sp.name_lo <= sp.name_hi <= s.len()
    &&& i < sp.end <= s.len()
    &&& match sp.default {
        Some(d) => d.0 <= d.1 <= s.len() && placeholder_at(s, i) == Some(
            (
                s.subrange(sp.name_lo as int, sp.name_hi as int),
                Some(s.subrange(d.0 as int, d.1 as int)),
                sp.end as int,
            ),
        ),
        None => placeholder_at(s, i) == Some(
            (s.subrange(sp.name_lo as int, sp.name_hi as int), None::<Seq<char>>, sp.end as int),
        ),
    }
}

fn is_word_char(c: char) -> (r: bool)
    ensures
        r == is_word(c),
{
    ('a' <= c && c <= 'z') || ('A' <= c && c <= 'Z') || ('0' <= c && c <= '9') || c == '_'
}

fn two_at(s: &Vec<char>, i: usize, c: char) -> (r: bool)
    ensures
        r == occurs_at(s@, seq![c, c], i as int),
        r ==> i + 2 <= s.len(),
{
    if i < s.len() && s.len() - i >= 2 {
        let r = s[i] == c && s[i + 1] == c;
        assert(r == (s@.subrange(i as int, i + 2) =~= seq![c, c]));
        r
    } else {
        false
    }
}

/// The placeholder that starts at index `i` of `s`, if one does.
pub fn placeholder_at_exec(s: &Vec<char>, i: usize) -> (r: Option<Span>)
    ensures
        match r {
            Some(sp) => span_matches(s@, i as int, sp),
            None => placeholder_at(s@, i as int) is None,
        },
{
    if !two_at(s, i, '{') {
        return None;
    }
    let mut j: usize = i + 2;
    while j < s.len() && is_word_char(s[j])
        invariant
            i + 2 <= j <= s.len(),
            word_end(s@, j as int) == word_end(s@, i + 2),
        decreases s.len() - j,
    {
        j += 1;
    }
    if j == i + 2 {
        return None;
    }
    if two_at(s, j, '}') {
        return Some(Span { name_lo: i + 2, name_hi: j, default: None, end: j + 2 });
    }
    if j < s.len() && s[j] == ':' {
        let mut k: usize = j + 1;
        while k < s.len() && s[k] != '}'
            invariant
                j + 1 <= k <= s.len(),
                brace_end(s@, k as int) == brace_end(s@, j + 1),
            decreases s.len() - k,
        {
            k += 1;
        }
        if two_at(s, k, '}') {
            return Some(
                Span { name_lo: i + 2, name_hi: j, default: Some((j + 1, k)), end: k + 2 },
            );
        }
    }
    None
}

/// The variables of `command`: one per distinct placeholder name, in order of
/// first occurrence, each with the default of its first occurrence.
pub fn extract_variables(command: &str) -> (r: Vec<SnippetVariable>)
    ensures
        vars_view(r@) == distinct_by_name(placeholders(command@)),
{
    let s = chars_of(command);
    let ghost all = placeholders(s@);
    let ghost mut found: Seq<(Seq<char>, Option<Seq<char>>)> = Seq::empty();
    let mut vars: Vec<SnippetVariable> = Vec::new();
    let mut i: usize = 0;
    while i < s.len()
        invariant
            i <= s.len(),
            all == placeholders(s@),
            all == found + placeholders_from(s@, i as int),
            vars_view(vars@) == distinct_by_name(found),
        decreases s.len() - i,
    {
        match placeholder_at_exec(&s, i) {
            Some(sp) => {
                let name = string_of(&s, sp.name_lo, sp.name_hi);
                let default_value = match sp.default {
                    Some(d) => Some(string_of(&s, d.0, d.1)),
                    None => None,
                };
                let v = SnippetVariable { name, default_value };
                let ghost entry = v.view();
                assert(placeholders_from(s@, i as int) == seq![entry] + placeholders_from(
                    s@,
                    sp.end as int,
                ));
                let mut seen = false;
                let mut k: usize = 0;
                while k < vars.len()
                    invariant
                        k <= vars.len(),
                        entry == v.view(),
                        seen <==> exists|m: int| 0 <= m < k && vars@[m].name@ == entry.0,
                    decreases vars.len() - k,
                {
                    let same = vars[k].name == v.name;
                    proof {
                        assert(entry.0 == v.name@);
                        assert(same == (vars@[k as int].name@ == entry.0));
                        if !same && !seen {
                            assert forall|m: int| 0 <= m < k + 1 implies vars@[m].name@ != entry.0 by {
                                if m < k {
                                } else {
                                    assert(m == k);
                                }
                            }
                        }
                    }
                    if same {
                        seen = true;
                    }
                    k += 1;
                }
                proof {
                    let prev = distinct_by_name(found);
                    assert(found.push(entry).drop_last() =~= found);
                    assert(vars_view(vars@) == prev);
                    assert(forall|m: int| 0 <= m < vars.len() ==> prev[m].0 == vars@[m].name@);
                    let dup = exists|m: int| 0 <= m < prev.len() && prev[m].0 == entry.0;
                    if seen {
                        let m = choose|m: int| 0 <= m < k && vars@[m].name@ == entry.0;
                        assert(prev[m].0 == entry.0);
                        assert(dup);
                    } else {
                        assert(!dup) by {
                            if dup {
                                let m = choose|m: int| 0 <= m < prev.len() && prev[m].0 == entry.0;
                                assert(vars@[m].name@ == entry.0);
                            }
                        }
                    }
                    assert(found.push(entry).last() == entry);
                    found = found.push(entry);
                    assert(seen ==> distinct_by_name(found) == prev);
                    assert(!seen ==> distinct_by_name(found) == prev.push(entry));
                }
                if !seen {
                    vars.push(v);
                    proof {
                        assert(vars_view(vars@) =~= distinct_by_name(found));
                    }
                }
                assert(all =~= found + placeholders_from(s@, sp.end as int));
                i = sp.end;
            },
            None => {
                i += 1;
            },
        }
    }
    assert(found + placeholders_from(s@, i as int) =~= found);
    vars
}

/// The index of the pair that gives `name` its value in `vals`, if any.
pub fn lookup_index(vals: &Vec<(String, String)>, name: &String) -> (r: Option<usize>)
    ensures
        match r {
            Some(k) => k < vals.len() && lookup(pairs_view(vals@), name@) == Some(vals@[k as int].1@),
            None => lookup(pairs_view(vals@), name@) is None,
        },
{
    let ghost pv = pairs_view(vals@);
    let mut k: usize = 0;
    assert(pv.subrange(0, pv.len() as int) =~= pv);
    while k < vals.len()
        invariant
            k <= vals.len(),
            pv.len() == vals.len(),
            pv == pairs_view(vals@),
            lookup(pv, name@) == lookup(pv.subrange(k as int, pv.len() as int), name@),
        decreases vals.len() - k,
    {
        let ghost rest = pv.subrange(k as int, pv.len() as int);
        assert(rest.drop_first() =~= pv.subrange(k + 1, pv.len() as int));
        assert(rest[0] == (vals@[k as int].0@, vals@[k as int].1@));
        if vals[k].0 == *name {
            return Some(k);
        }
        k += 1;
    }
    None
}

/// `command` with each placeholder whose name `values` gives replaced by that
/// value (the first pair with that name counts); placeholders whose name is not
/// given stay as they are.
pub fn render(command: &str, values: &Vec<(String, String)>) -> (r: String)
    ensures
        r@ == render_spec(command@, pairs_view(values@)),
{
    let s = chars_of(command);
    let ghost vals = pairs_view(values@);
    let mut out = String::new();
    let mut i: usize = 0;
    while i < s.len()
        invariant
            i <= s.len(),
            vals == pairs_view(values@),
            render_spec(s@, vals) == out@ + render_from(s@, i as int, vals),
        decreases s.len() - i,
    {
        match placeholder_at_exec(&s, i) {
            Some(sp) => {
                let name = string_of(&s, sp.name_lo, sp.name_hi);
                match lookup_index(values, &name) {
                    Some(k) => {
                        out.append(values[k].1.as_str());
                    },
                    None => {
                        push_range(&mut out, &s, i, sp.end);
                    },
                }
                i = sp.end;
            },
            None => {
                push_range(&mut out, &s, i, i + 1);
                i += 1;
            },
        }
    }
    assert(out@ + render_from(s@, i as int, vals) =~= out@);
    out
}

} // verus!
