//! What holds of the startup file across saves and loads.
use vstd::prelude::*;
use crate::alias::{alias_line, alias_prefix, is_bare_alias, parse_entry, unquote, Alias};
use crate::alias_store::{
    config_entries, end_marker, entries, entry_of, has_alias, has_name, insert_entry, join_lines,
    kept_lines, remove_alias,
    lemma_join_lines_add, load_from,
    managed_block, rewrite, split_lines, start_marker, strip_managed, unique_names, AliasStore,
    Entry,
};
use crate::text::{find_from, is_space, starts_with, trim, trim_end, trim_start};

verus! {

/// `l` holds no line break.
pub open spec fn one_line(l: Seq<char>) -> bool {
    forall|j: int| 0 <= j < l.len() ==> l[j] != '\n'
}

/// A line that a rewrite keeps wherever it stands before the first block:
/// neither a marker nor a bare alias line.
pub open spec fn plain(l: Seq<char>) -> bool {
    l != start_marker() && l != end_marker() && !is_bare_alias(l)
}

/// The user's own lines before the first start marker: those that are neither
/// markers nor bare alias lines.
pub open spec fn user_lines(ls: Seq<Seq<char>>) -> Seq<Seq<char>>
    decreases ls.len(),
{
    if ls.len() == 0 {
        Seq::empty()
    } else if ls[0] == start_marker() {
        Seq::empty()
    } else if plain(ls[0]) {
        seq![ls[0]] + user_lines(ls.drop_first())
    } else {
        user_lines(ls.drop_first())
    }
}

/// An alias that the startup file reads back as it was written: name and
/// command on one line, a name without `=` or surrounding whitespace.
pub open spec fn round_trips(e: Entry) -> bool {
    &&& one_line(e.0)
    &&& one_line(e.1)
    &&& forall|j: int| 0 <= j < e.0.len() ==> e.0[j] != '='
    &&& trim(e.0) == e.0
}

pub open spec fn distinct_names(es: Seq<Entry>) -> bool {
    forall|i: int, j: int| 0 <= i < es.len() && 0 <= j < es.len() && i != j ==> es[i].0 != es[j].0
}

/// The text after saving `content` once with each alias set of `sets`, in order.
pub open spec fn saves(content: Seq<char>, sets: Seq<Seq<Entry>>) -> Seq<char>
    decreases sets.len(),
{
    if sets.len() == 0 {
        content
    } else {
        saves(rewrite(content, sets[0]), sets.drop_first())
    }
}

proof fn lemma_find_char_at(r: Seq<char>, c: char, k: int, t: int)
    requires
        0 <= k <= t <= r.len(),
        forall|i: int| k <= i < t ==> r[i] != c,
        t == r.len() || r[t] == c,
    ensures
        find_from(r, c, k) == t,
    decreases t - k,
{
    if k < t {
        lemma_find_char_at(r, c, k + 1, t);
    }
}

proof fn lemma_find_char_props(r: Seq<char>, c: char, k: int)
    requires
        0 <= k <= r.len(),
    ensures
        k <= find_from(r, c, k) <= r.len(),
        forall|i: int| k <= i < find_from(r, c, k) ==> r[i] != c,
        find_from(r, c, k) < r.len() ==> r[find_from(r, c, k)] == c,
    decreases r.len() - k,
{
    if k < r.len() && r[k] != c {
        lemma_find_char_props(r, c, k + 1);
    }
}

/// Splitting lines written one per line gives them back.
proof fn lemma_split_join(ls: Seq<Seq<char>>, rest: Seq<char>)
    requires
        forall|i: int| 0 <= i < ls.len() ==> one_line(#[trigger] ls[i]),
    ensures
        split_lines(join_lines(ls) + rest) == ls + split_lines(rest),
    decreases ls.len(),
{
    if ls.len() == 0 {
        assert(join_lines(ls) + rest =~= rest);
        assert(ls + split_lines(rest) =~= split_lines(rest));
    } else {
        let l = ls[0];
        let tail = ls.drop_first();
        assert(one_line(l));
        let x = join_lines(ls) + rest;
        assert(x =~= l + seq!['\n'] + (join_lines(tail) + rest));
        lemma_find_char_at(x, '\n', 0, l.len() as int);
        assert(x.subrange(0, l.len() as int) =~= l);
        assert(x.subrange(l.len() as int + 1, x.len() as int) =~= join_lines(tail) + rest);
        assert forall|i: int| 0 <= i < tail.len() implies one_line(#[trigger] tail[i]) by {
            assert(tail[i] == ls[i + 1]);
        }
        lemma_split_join(tail, rest);
        assert(ls =~= seq![l] + tail);
    }
}

/// Every line that `split_lines` gives holds no line break.
proof fn lemma_split_one_line(s: Seq<char>)
    ensures
        forall|i: int|
            0 <= i < split_lines(s).len() ==> one_line(#[trigger] split_lines(s)[i]),
    decreases s.len(),
{
    if s.len() > 0 {
        let i = find_from(s, '\n', 0);
        lemma_find_char_props(s, '\n', 0);
        if i < s.len() {
            lemma_split_one_line(s.subrange(i + 1, s.len() as int));
            let first = s.subrange(0, i);
            assert(one_line(first));
            let tl = split_lines(s.subrange(i + 1, s.len() as int));
            assert forall|k: int| 0 <= k < split_lines(s).len() implies one_line(
                #[trigger] split_lines(s)[k],
            ) by {
                if k > 0 {
                    assert(split_lines(s)[k] == tl[k - 1]);
                }
            }
        } else {
            assert(s.subrange(0, i) =~= s);
        }
    }
}

/// A line with no line break and no marker.
pub open spec fn bare_line(l: Seq<char>) -> bool {
    one_line(l) && l != start_marker() && l != end_marker()
}

/// What a rewrite keeps holds no marker, and stays on one line.
proof fn lemma_strip_props(ls: Seq<Seq<char>>, started: bool, in_block: bool)
    requires
        forall|i: int| 0 <= i < ls.len() ==> one_line(#[trigger] ls[i]),
    ensures
        forall|i: int|
            0 <= i < strip_managed(ls, started, in_block).len() ==> bare_line(
                #[trigger] strip_managed(ls, started, in_block)[i],
            ),
    decreases ls.len(),
{
    if ls.len() > 0 {
        let rest = ls.drop_first();
        assert forall|i: int| 0 <= i < rest.len() implies one_line(#[trigger] rest[i]) by {
            assert(rest[i] == ls[i + 1]);
        }
        let l = ls[0];
        if l == start_marker() {
            lemma_strip_props(rest, true, true);
            assert(strip_managed(ls, started, in_block) == strip_managed(rest, true, true));
        } else if l == end_marker() {
            lemma_strip_props(rest, started, false);
            assert(strip_managed(ls, started, in_block) == strip_managed(rest, started, false));
        } else if in_block || (!started && is_bare_alias(l)) {
            lemma_strip_props(rest, started, in_block);
            assert(strip_managed(ls, started, in_block) == strip_managed(rest, started, in_block));
        } else {
            lemma_strip_props(rest, started, in_block);
            let tl = strip_managed(rest, started, in_block);
            assert(strip_managed(ls, started, in_block) == seq![l] + tl);
            assert(bare_line(l));
            assert forall|i: int|
                0 <= i < strip_managed(ls, started, in_block).len() implies bare_line(
                #[trigger] strip_managed(ls, started, in_block)[i],
            ) by {
                if i > 0 {
                    assert(strip_managed(ls, started, in_block)[i] == tl[i - 1]);
                }
            }
        }
    }
}

/// Plain lines at the front are all kept, and leave the state as it was.
proof fn lemma_strip_plain_front(a: Seq<Seq<char>>, b: Seq<Seq<char>>)
    requires
        forall|i: int| 0 <= i < a.len() ==> plain(#[trigger] a[i]),
    ensures
        strip_managed(a + b, false, false) == a + strip_managed(b, false, false),
    decreases a.len(),
{
    if a.len() == 0 {
        assert(a + b =~= b);
        assert(a + strip_managed(b, false, false) =~= strip_managed(b, false, false));
    } else {
        let tail = a.drop_first();
        assert forall|i: int| 0 <= i < tail.len() implies plain(#[trigger] tail[i]) by {
            assert(tail[i] == a[i + 1]);
        }
        lemma_strip_plain_front(tail, b);
        assert((a + b).drop_first() =~= tail + b);
        assert((a + b)[0] == a[0]);
        assert(plain(a[0]));
        assert(a =~= seq![a[0]] + tail);
    }
}

proof fn lemma_marker_contains()
    ensures
        end_marker() != start_marker(),
{
    reveal(start_marker);
    reveal(end_marker);
    assert(end_marker().len() != start_marker().len());
}

/// An alias line is never a marker line: it starts with `a`, a marker with `#`.
proof fn lemma_alias_line_not_marker(n: Seq<char>, c: Seq<char>)
    ensures
        alias_line(n, c) != start_marker(),
        alias_line(n, c) != end_marker(),
{
    reveal(start_marker);
    reveal(end_marker);
    assert(alias_line(n, c)[0] == 'a');
    assert(start_marker()[0] == '#');
    assert(end_marker()[0] == '#');
}

proof fn lemma_marker_one_line()
    ensures
        start_marker().len() == 24,
        one_line(start_marker()),
        one_line(end_marker()),
{
    reveal(start_marker);
    reveal(end_marker);
}

proof fn lemma_marker_parse()
    ensures
        parse_entry(start_marker()) is None,
        parse_entry(end_marker()) is None,
{
    reveal(start_marker);
    reveal(end_marker);
    assert(trim(start_marker()) == start_marker()) by {
        assert(!is_space(start_marker()[0]));
        assert(!is_space(start_marker().last()));
    }
    assert(trim(end_marker()) == end_marker()) by {
        assert(!is_space(end_marker()[0]));
        assert(!is_space(end_marker().last()));
    }
    assert(!starts_with(start_marker(), alias_prefix())) by {
        assert(start_marker().subrange(0, 6)[0] != alias_prefix()[0]);
    }
    assert(!starts_with(end_marker(), alias_prefix())) by {
        assert(end_marker().subrange(0, 6)[0] != alias_prefix()[0]);
    }
}

/// Inside a block, lines without markers are dropped up to the end marker.
proof fn lemma_strip_in_block(ls: Seq<Seq<char>>)
    requires
        forall|i: int|
            0 <= i < ls.len() ==> #[trigger] ls[i] != start_marker() && ls[i] != end_marker(),
    ensures
        strip_managed(ls + seq![end_marker()], true, true) == Seq::<Seq<char>>::empty(),
    decreases ls.len(),
{
    lemma_marker_contains();
    let x = ls + seq![end_marker()];
    if ls.len() == 0 {
        assert(x.drop_first() =~= Seq::<Seq<char>>::empty());
        assert(x[0] == end_marker());
        assert(strip_managed(x, true, true) == strip_managed(x.drop_first(), true, false));
        assert(strip_managed(Seq::<Seq<char>>::empty(), true, false) =~= Seq::<Seq<char>>::empty());
    } else {
        let tail = ls.drop_first();
        assert forall|i: int| 0 <= i < tail.len() implies #[trigger] tail[i] != start_marker() && tail[i] != end_marker() by {
            assert(tail[i] == ls[i + 1]);
        }
        lemma_strip_in_block(tail);
        assert(x.drop_first() =~= tail + seq![end_marker()]);
        assert(x[0] == ls[0]);
    }
}

/// A block of aliases is dropped whole.
proof fn lemma_strip_block(es: Seq<Entry>)
    ensures
        strip_managed(managed_block(es), false, false) == Seq::<Seq<char>>::empty(),
{
    lemma_marker_contains();
    if es.len() > 0 {
        let body = es.map_values(|e: Entry| alias_line(e.0, e.1));
        assert forall|i: int| 0 <= i < body.len() implies #[trigger] body[i] != start_marker() && body[i] != end_marker() by {
            lemma_alias_line_not_marker(es[i].0, es[i].1);
        }
        lemma_strip_in_block(body);
        let b = managed_block(es);
        assert(b =~= seq![start_marker()] + (body + seq![end_marker()]));
        assert(b.drop_first() =~= body + seq![end_marker()]);
        assert(b[0] == start_marker());
    }
}

proof fn lemma_load_concat(es: Seq<Entry>, a: Seq<Seq<char>>, b: Seq<Seq<char>>)
    ensures
        load_from(es, a + b) == load_from(load_from(es, a), b),
    decreases a.len(),
{
    if a.len() == 0 {
        assert(a + b =~= b);
    } else {
        let next = match parse_entry(a[0]) {
            Some(e) => insert_entry(es, e),
            None => es,
        };
        assert((a + b).drop_first() =~= a.drop_first() + b);
        assert((a + b)[0] == a[0]);
        lemma_load_concat(next, a.drop_first(), b);
    }
}

proof fn lemma_load_none(es: Seq<Entry>, a: Seq<Seq<char>>)
    requires
        forall|i: int| 0 <= i < a.len() ==> parse_entry(#[trigger] a[i]) is None,
    ensures
        load_from(es, a) == es,
    decreases a.len(),
{
    if a.len() > 0 {
        let tail = a.drop_first();
        assert forall|i: int| 0 <= i < tail.len() implies parse_entry(#[trigger] tail[i]) is None by {
            assert(tail[i] == a[i + 1]);
        }
        lemma_load_none(es, tail);
    }
}

/// The line of an alias that round-trips reads back as that alias.
proof fn lemma_parse_alias_line(e: Entry)
    requires
        round_trips(e),
    ensures
        parse_entry(alias_line(e.0, e.1)) == Some(e),
{
    let line = alias_line(e.0, e.1);
    assert(line[0] == 'a');
    assert(line.last() == '\'');
    assert(trim_start(line) == line);
    assert(trim_end(line) == line);
    assert(trim(line) == line);
    assert(line.subrange(0, 6) =~= alias_prefix());
    let rest = line.subrange(6, line.len() as int);
    assert(rest =~= e.0 + seq!['=', '\''] + e.1 + seq!['\'']);
    lemma_find_char_at(rest, '=', 0, e.0.len() as int);
    assert(rest.subrange(0, e.0.len() as int) =~= e.0);
    let v = rest.subrange(e.0.len() as int + 1, rest.len() as int);
    assert(v =~= seq!['\''] + e.1 + seq!['\'']);
    assert(v.subrange(1, v.len() - 1) =~= e.1);
    assert(unquote(v) == e.1);
}

/// Reading the lines of aliases with distinct names, none of them named as
/// an alias already read, adds them in order.
proof fn lemma_load_alias_lines(acc: Seq<Entry>, es: Seq<Entry>)
    requires
        distinct_names(acc + es),
        forall|i: int| 0 <= i < es.len() ==> round_trips(#[trigger] es[i]),
    ensures
        load_from(acc, es.map_values(|e: Entry| alias_line(e.0, e.1))) == acc + es,
    decreases es.len(),
{
    let lines = es.map_values(|e: Entry| alias_line(e.0, e.1));
    if es.len() == 0 {
        assert(acc + es =~= acc);
    } else {
        let e = es[0];
        lemma_parse_alias_line(e);
        assert(!has_name(acc, e.0)) by {
            if has_name(acc, e.0) {
                let k = choose|k: int| 0 <= k < acc.len() && acc[k].0 == e.0;
                assert((acc + es)[k].0 == (acc + es)[acc.len() as int].0);
            }
        }
        assert(insert_entry(acc, e) == acc.push(e));
        let tail = es.drop_first();
        assert(acc.push(e) + tail =~= acc + es);
        assert forall|i: int| 0 <= i < tail.len() implies round_trips(#[trigger] tail[i]) by {
            assert(tail[i] == es[i + 1]);
        }
        lemma_load_alias_lines(acc.push(e), tail);
        assert(lines.drop_first() =~= tail.map_values(|e: Entry| alias_line(e.0, e.1)));
        assert(lines[0] == alias_line(e.0, e.1));
    }
}

proof fn lemma_block_one_line(es: Seq<Entry>)
    requires
        forall|i: int| 0 <= i < es.len() ==> one_line(#[trigger] es[i].0) && one_line(es[i].1),
    ensures
        forall|i: int|
            0 <= i < managed_block(es).len() ==> one_line(#[trigger] managed_block(es)[i]),
{
    lemma_marker_one_line();
    if es.len() > 0 {
        let body = es.map_values(|e: Entry| alias_line(e.0, e.1));
        let b = managed_block(es);
        assert(b =~= seq![start_marker()] + body + seq![end_marker()]);
        assert forall|i: int| 0 <= i < b.len() implies one_line(#[trigger] b[i]) by {
            if 0 < i < b.len() - 1 {
                let e = es[i - 1];
                assert(b[i] == alias_line(e.0, e.1));
                assert(one_line(e.0) && one_line(e.1));
                let l = alias_line(e.0, e.1);
                assert forall|j: int| 0 <= j < l.len() implies l[j] != '\n' by {
                    if j >= 6 && j < 6 + e.0.len() {
                        assert(l[j] == e.0[j - 6]);
                    } else if j >= 8 + e.0.len() && j < 8 + e.0.len() + e.1.len() {
                        assert(l[j] == e.1[j - 8 - e.0.len()]);
                    }
                }
            }
        }
    }
}

/// The lines of a saved file: the kept lines, then the block.
proof fn lemma_lines_of_rewrite(content: Seq<char>, es: Seq<Entry>)
    requires
        forall|i: int| 0 <= i < es.len() ==> one_line(#[trigger] es[i].0) && one_line(es[i].1),
    ensures
        split_lines(rewrite(content, es)) == kept_lines(content) + managed_block(es),
{
    let k = kept_lines(content);
    let b = managed_block(es);
    lemma_split_one_line(content);
    lemma_strip_props(split_lines(content), false, false);
    lemma_block_one_line(es);
    assert forall|i: int| 0 <= i < (k + b).len() implies one_line(#[trigger] (k + b)[i]) by {
        if i < k.len() {
            assert((k + b)[i] == k[i]);
        } else {
            assert((k + b)[i] == b[i - k.len()]);
        }
    }
    lemma_split_join(k + b, Seq::empty());
    assert(join_lines(k + b) + Seq::<char>::empty() =~= join_lines(k + b));
    assert(split_lines(Seq::<char>::empty()) =~= Seq::<Seq<char>>::empty());
    assert(k + b + Seq::<Seq<char>>::empty() =~= k + b);
}

/// Saving aliases and loading the file again gives back exactly those aliases,
/// in order, when their names are distinct, each reads back as written, and
/// no line kept from the file defines an alias of its own.
pub proof fn lemma_save_then_load(content: Seq<char>, es: Seq<Entry>)
    requires
        distinct_names(es),
        forall|i: int| 0 <= i < es.len() ==> round_trips(#[trigger] es[i]),
        forall|i: int|
            0 <= i < kept_lines(content).len() ==> parse_entry(#[trigger] kept_lines(content)[i])
                is None,
    ensures
        config_entries(rewrite(content, es)) == es,
{
    assert forall|i: int| 0 <= i < es.len() implies one_line(#[trigger] es[i].0) && one_line(
        es[i].1,
    ) by {
        assert(round_trips(es[i]));
    }
    lemma_lines_of_rewrite(content, es);
    let k = kept_lines(content);
    let b = managed_block(es);
    lemma_load_concat(Seq::empty(), k, b);
    lemma_load_none(Seq::empty(), k);
    if es.len() == 0 {
        assert(b =~= Seq::<Seq<char>>::empty());
        assert(es =~= Seq::<Entry>::empty());
    } else {
        lemma_marker_parse();
        let body = es.map_values(|e: Entry| alias_line(e.0, e.1));
        assert(b =~= seq![start_marker()] + (body + seq![end_marker()]));
        lemma_load_concat(Seq::empty(), seq![start_marker()], body + seq![end_marker()]);
        assert(seq![start_marker()].drop_first() =~= Seq::<Seq<char>>::empty());
        assert(seq![start_marker()][0] == start_marker());
        assert(load_from(Seq::empty(), seq![start_marker()]) == load_from(
            Seq::<Entry>::empty(),
            Seq::<Seq<char>>::empty(),
        ));
        lemma_load_concat(Seq::empty(), body, seq![end_marker()]);
        assert(Seq::<Entry>::empty() + es =~= es);
        lemma_load_alias_lines(Seq::empty(), es);
        assert(seq![end_marker()].drop_first() =~= Seq::<Seq<char>>::empty());
        assert(seq![end_marker()][0] == end_marker());
        assert(load_from(es, seq![end_marker()]) == load_from(es, Seq::<Seq<char>>::empty()));
    }
}

/// The same round trip, for the aliases of a store.
pub proof fn lemma_store_save_then_load(store: AliasStore, content: Seq<char>)
    requires
        store.wf(),
        forall|i: int| 0 <= i < store@.len() ==> round_trips(#[trigger] entries(store@)[i]),
        forall|i: int|
            0 <= i < kept_lines(content).len() ==> parse_entry(#[trigger] kept_lines(content)[i])
                is None,
    ensures
        config_entries(rewrite(content, entries(store@))) == entries(store@),
{
    let es = entries(store@);
    store.lemma_wf_unique();
    assert(distinct_names(es)) by {
        assert forall|i: int, j: int|
            0 <= i < es.len() && 0 <= j < es.len() && i != j implies es[i].0 != es[j].0 by {
            assert(store@[i].name@ != store@[j].name@);
        }
    }
    lemma_save_then_load(content, es);
}

/// Saving twice in a row, with the same aliases, writes the same text twice,
/// when names and commands hold no line break and no kept line is a bare
/// alias line.
pub proof fn lemma_save_idempotent(content: Seq<char>, es: Seq<Entry>)
    requires
        forall|i: int| 0 <= i < es.len() ==> one_line(#[trigger] es[i].0) && one_line(es[i].1),
        forall|i: int|
            0 <= i < kept_lines(content).len() ==> !is_bare_alias(#[trigger] kept_lines(content)[i]),
    ensures
        rewrite(rewrite(content, es), es) == rewrite(content, es),
{
    let k = kept_lines(content);
    let b = managed_block(es);
    lemma_lines_of_rewrite(content, es);
    lemma_split_one_line(content);
    lemma_strip_props(split_lines(content), false, false);
    assert forall|i: int| 0 <= i < k.len() implies plain(#[trigger] k[i]) by {
        assert(bare_line(k[i]));
    }
    lemma_strip_plain_front(k, b);
    lemma_strip_block(es);
    assert(k + Seq::<Seq<char>>::empty() =~= k);
    assert(kept_lines(rewrite(content, es)) == k);
}

/// The user's lines are a prefix of what a rewrite keeps.
proof fn lemma_user_lines_kept(ls: Seq<Seq<char>>)
    ensures
        user_lines(ls).is_prefix_of(strip_managed(ls, false, false)),
    decreases ls.len(),
{
    if ls.len() > 0 {
        let rest = ls.drop_first();
        lemma_user_lines_kept(rest);
        let l = ls[0];
        if l != start_marker() && plain(l) {
            let u = user_lines(rest);
            let s = strip_managed(rest, false, false);
            assert(user_lines(ls) == seq![l] + u);
            assert(strip_managed(ls, false, false) == seq![l] + s);
            assert forall|i: int| 0 <= i < user_lines(ls).len() implies user_lines(ls)[i]
                == strip_managed(ls, false, false)[i] by {
                if i > 0 {
                    assert(user_lines(ls)[i] == u[i - 1]);
                }
            }
        }
    }
}

/// Over lines without a start marker, the user's lines are the plain ones,
/// and what follows adds its own user lines after them.
proof fn lemma_user_lines_concat(k: Seq<Seq<char>>, x: Seq<Seq<char>>)
    requires
        forall|i: int| 0 <= i < k.len() ==> #[trigger] k[i] != start_marker(),
    ensures
        user_lines(k + x) == user_lines(k) + user_lines(x),
    decreases k.len(),
{
    if k.len() == 0 {
        assert(k + x =~= x);
        assert(user_lines(k) + user_lines(x) =~= user_lines(x));
    } else {
        let tail = k.drop_first();
        assert forall|i: int| 0 <= i < tail.len() implies #[trigger] tail[i] != start_marker() by {
            assert(tail[i] == k[i + 1]);
        }
        lemma_user_lines_concat(tail, x);
        assert((k + x).drop_first() =~= tail + x);
        assert((k + x)[0] == k[0]);
        if plain(k[0]) {
            assert(seq![k[0]] + (user_lines(tail) + user_lines(x)) =~= seq![k[0]] + user_lines(
                tail,
            ) + user_lines(x));
        }
    }
}

/// A prefix of plain lines of `k` stays a prefix of the user's lines of `k`.
proof fn lemma_plain_prefix(p: Seq<Seq<char>>, k: Seq<Seq<char>>)
    requires
        p.is_prefix_of(k),
        forall|i: int| 0 <= i < p.len() ==> plain(#[trigger] p[i]),
    ensures
        p.is_prefix_of(user_lines(k)),
    decreases p.len(),
{
    if p.len() > 0 {
        let pt = p.drop_first();
        let kt = k.drop_first();
        assert(k[0] == p[0]);
        assert(plain(p[0]));
        assert(pt.is_prefix_of(kt)) by {
            assert forall|i: int| 0 <= i < pt.len() implies pt[i] == kt[i] by {
                assert(p[i + 1] == k[i + 1]);
            }
        }
        assert forall|i: int| 0 <= i < pt.len() implies plain(#[trigger] pt[i]) by {
            assert(pt[i] == p[i + 1]);
        }
        lemma_plain_prefix(pt, kt);
        let u = user_lines(kt);
        assert(user_lines(k) == seq![p[0]] + u);
        assert forall|i: int| 0 <= i < p.len() implies p[i] == user_lines(k)[i] by {
            if i > 0 {
                assert(p[i] == pt[i - 1]);
                assert(user_lines(k)[i] == u[i - 1]);
            }
        }
    }
}

proof fn lemma_user_lines_plain(ls: Seq<Seq<char>>)
    ensures
        forall|i: int| 0 <= i < user_lines(ls).len() ==> plain(#[trigger] user_lines(ls)[i]),
    decreases ls.len(),
{
    if ls.len() > 0 {
        lemma_user_lines_plain(ls.drop_first());
        let u = user_lines(ls.drop_first());
        if ls[0] != start_marker() && plain(ls[0]) {
            assert forall|i: int| 0 <= i < user_lines(ls).len() implies plain(
                #[trigger] user_lines(ls)[i],
            ) by {
                if i > 0 {
                    assert(user_lines(ls)[i] == u[i - 1]);
                }
            }
        }
    }
}

/// A managed block holds no user line.
proof fn lemma_block_user_lines(es: Seq<Entry>)
    ensures
        user_lines(split_lines(join_lines(managed_block(es)))) == Seq::<Seq<char>>::empty(),
{
    let b = managed_block(es);
    let tail = split_lines(join_lines(b));
    lemma_marker_contains();
    lemma_marker_one_line();
    if b.len() > 0 {
        let jb = join_lines(b);
        assert(b[0] == start_marker());
        assert(jb =~= start_marker() + seq!['\n'] + join_lines(b.drop_first()));
        lemma_find_char_at(jb, '\n', 0, start_marker().len() as int);
        assert(jb.subrange(0, start_marker().len() as int) =~= start_marker());
        assert(tail[0] == start_marker());
    } else {
        assert(join_lines(b) =~= Seq::<char>::empty());
    }
}

/// Saving keeps the user's lines that stand before the managed block: all of
/// them, unchanged and in order, stay at the front of the user's lines of the
/// new text.
pub proof fn lemma_save_keeps_user_lines(content: Seq<char>, es: Seq<Entry>)
    ensures
        user_lines(split_lines(content)).is_prefix_of(
            user_lines(split_lines(rewrite(content, es))),
        ),
{
    let ls = split_lines(content);
    let k = kept_lines(content);
    let b = managed_block(es);
    lemma_split_one_line(content);
    lemma_strip_props(ls, false, false);
    lemma_user_lines_kept(ls);
    lemma_user_lines_plain(ls);
    lemma_join_lines_add(k, b);
    lemma_split_join(k, join_lines(b));
    let tail = split_lines(join_lines(b));
    lemma_block_user_lines(es);
    lemma_user_lines_concat(k, tail);
    assert(user_lines(k) + Seq::<Seq<char>>::empty() =~= user_lines(k));
    lemma_plain_prefix(user_lines(ls), k);
}

/// Any number of saves, with any alias sets (adding and deleting aliases in
/// between), keeps the user's lines that stood before the managed block:
/// unchanged and in order, at the front of the user's lines of the final text.
pub proof fn lemma_saves_keep_user_lines(content: Seq<char>, sets: Seq<Seq<Entry>>)
    ensures
        user_lines(split_lines(content)).is_prefix_of(user_lines(split_lines(saves(content, sets)))),
    decreases sets.len(),
{
    if sets.len() == 0 {
    } else {
        let next = rewrite(content, sets[0]);
        lemma_save_keeps_user_lines(content, sets[0]);
        lemma_saves_keep_user_lines(next, sets.drop_first());
    }
}

/// Once an alias is deleted, the text that saving writes defines no alias of
/// that name, when the other aliases read back as written and no kept line
/// defines an alias of its own.
pub proof fn lemma_deleted_alias_not_saved(content: Seq<char>, aliases: Seq<Alias>, name: Seq<char>)
    requires
        unique_names(aliases),
        forall|i: int| 0 <= i < aliases.len() ==> round_trips(#[trigger] entry_of(aliases[i])),
        forall|i: int|
            0 <= i < kept_lines(content).len() ==> parse_entry(#[trigger] kept_lines(content)[i])
                is None,
    ensures
        !has_name(config_entries(rewrite(content, entries(remove_alias(aliases, name)))), name),
{
    let rest = remove_alias(aliases, name);
    let es = entries(rest);
    if has_alias(aliases, name) {
        let k = choose|k: int| 0 <= k < aliases.len() && aliases[k].name@ == name;
        assert(rest == aliases.remove(k));
        assert forall|i: int| 0 <= i < rest.len() implies rest[i] == aliases[if i < k {
            i
        } else {
            i + 1
        }] by {}
    }
    assert(distinct_names(es)) by {
        assert forall|i: int, j: int|
            0 <= i < es.len() && 0 <= j < es.len() && i != j implies es[i].0 != es[j].0 by {
            if has_alias(aliases, name) {
                let k = choose|k: int| 0 <= k < aliases.len() && aliases[k].name@ == name;
                let oi = if i < k { i } else { i + 1 };
                let oj = if j < k { j } else { j + 1 };
                assert(rest[i] == aliases[oi]);
                assert(rest[j] == aliases[oj]);
            }
        }
    }
    assert forall|i: int| 0 <= i < es.len() implies round_trips(#[trigger] es[i]) by {
        if has_alias(aliases, name) {
            let k = choose|k: int| 0 <= k < aliases.len() && aliases[k].name@ == name;
            let oi = if i < k { i } else { i + 1 };
            assert(rest[i] == aliases[oi]);
            assert(round_trips(entry_of(aliases[oi])));
        } else {
            assert(round_trips(entry_of(aliases[i])));
        }
    }
    lemma_save_then_load(content, es);
    assert(!has_name(es, name)) by {
        if has_name(es, name) {
            let j = choose|j: int| 0 <= j < es.len() && es[j].0 == name;
            if has_alias(aliases, name) {
                let k = choose|k: int| 0 <= k < aliases.len() && aliases[k].name@ == name;
                let oj = if j < k { j } else { j + 1 };
                assert(rest[j] == aliases[oj]);
                assert(aliases[oj].name@ == aliases[k].name@);
            } else {
                assert(rest[j].name@ == name);
            }
        }
    }
}

proof fn lemma_strip_without_markers(ls: Seq<Seq<char>>)
    requires
        forall|i: int|
            0 <= i < ls.len() ==> #[trigger] ls[i] != start_marker() && ls[i] != end_marker(),
    ensures
        forall|i: int|
            0 <= i < strip_managed(ls, false, false).len() ==> !is_bare_alias(
                #[trigger] strip_managed(ls, false, false)[i],
            ),
    decreases ls.len(),
{
    if ls.len() > 0 {
        let rest = ls.drop_first();
        assert forall|i: int| 0 <= i < rest.len() implies #[trigger] rest[i] != start_marker()
            && rest[i] != end_marker() by {
            assert(rest[i] == ls[i + 1]);
        }
        lemma_strip_without_markers(rest);
        let l = ls[0];
        assert(l != start_marker() && l != end_marker());
        if !is_bare_alias(l) {
            let tl = strip_managed(rest, false, false);
            assert(strip_managed(ls, false, false) == seq![l] + tl);
            assert forall|i: int|
                0 <= i < strip_managed(ls, false, false).len() implies !is_bare_alias(
                #[trigger] strip_managed(ls, false, false)[i],
            ) by {
                if i > 0 {
                    assert(strip_managed(ls, false, false)[i] == tl[i - 1]);
                }
            }
        } else {
            assert(strip_managed(ls, false, false) == strip_managed(rest, false, false));
        }
    }
}

/// A file without marker lines loses all its bare alias lines on a save:
/// they go into the managed block, once, and a second save writes the same
/// text again, when names and commands hold no line break.
pub proof fn lemma_legacy_aliases_absorbed(content: Seq<char>, es: Seq<Entry>)
    requires
        forall|i: int|
            0 <= i < split_lines(content).len() ==> #[trigger] split_lines(content)[i]
                != start_marker() && split_lines(content)[i] != end_marker(),
        forall|i: int| 0 <= i < es.len() ==> one_line(#[trigger] es[i].0) && one_line(es[i].1),
    ensures
        forall|i: int|
            0 <= i < kept_lines(content).len() ==> !is_bare_alias(#[trigger] kept_lines(content)[i]),
        rewrite(rewrite(content, es), es) == rewrite(content, es),
{
    lemma_strip_without_markers(split_lines(content));
    lemma_save_idempotent(content, es);
}

} // verus!
