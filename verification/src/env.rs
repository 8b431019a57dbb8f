//! The `server.env` files: looking a key up, and rewriting one key.
use vstd::prelude::*;
use crate::text::{
    chars_of, has_char, is_ws, join, join_lines, lines, lines_from, push_str, slice_of, split_lines,
    starts_with, starts_with_vec, string_of, strip_cr, strip_end_char, strip_start_char, trim,
    trim_char, trim_char_vec, trim_end, trim_start, trim_vec, unlines, views,
};

verus! {

/// The prefix `KEY=` that marks the line of `key`.
pub open spec fn key_prefix(key: Seq<char>) -> Seq<char> {
    key + seq!['=']
}

/// The value written after `KEY=` on a line: trimmed, then stripped of quotes.
pub open spec fn clean_value(rest: Seq<char>) -> Seq<char> {
    trim_char(trim(rest), '"')
}

/// The value of the first line of `ls` that starts with `p`.
pub open spec fn lookup_prefixed(ls: Seq<Seq<char>>, p: Seq<char>) -> Option<Seq<char>>
    decreases ls.len(),
{
    if ls.len() == 0 {
        None
    } else if starts_with(ls[0], p) {
        Some(clean_value(ls[0].skip(p.len() as int)))
    } else {
        lookup_prefixed(ls.drop_first(), p)
    }
}

/// What `read_env_value` finds for `key` in the text `data`.
pub open spec fn env_value(data: Seq<char>, key: Seq<char>) -> Option<Seq<char>> {
    lookup_prefixed(lines(data), key_prefix(key))
}

/// The line `KEY="value"`.
pub open spec fn key_line(key: Seq<char>, value: Seq<char>) -> Seq<char> {
    key_prefix(key) + seq!['"'] + value + seq!['"']
}

/// `ls` with every line that starts with `p` replaced by `nl`.
pub open spec fn replace_prefixed(ls: Seq<Seq<char>>, p: Seq<char>, nl: Seq<char>) -> Seq<
    Seq<char>,
> {
    Seq::new(ls.len(), |i: int| if starts_with(ls[i], p) { nl } else { ls[i] })
}

/// Some line of `ls` starts with `p`.
pub open spec fn any_prefixed(ls: Seq<Seq<char>>, p: Seq<char>) -> bool {
    exists|i: int| 0 <= i < ls.len() && starts_with(ls[i], p)
}

/// The lines of `ls` with every line of prefix `p` replaced by `nl`, and `nl`
/// added at the end where there was none.
pub open spec fn set_prefixed_line(ls: Seq<Seq<char>>, p: Seq<char>, nl: Seq<char>) -> Seq<
    Seq<char>,
> {
    if any_prefixed(ls, p) {
        replace_prefixed(ls, p, nl)
    } else {
        replace_prefixed(ls, p, nl).push(nl)
    }
}

/// The text of `server.env` after `key` is set to `value`.
pub open spec fn env_with_key(content: Seq<char>, key: Seq<char>, value: Seq<char>) -> Seq<char> {
    unlines(set_prefixed_line(lines(content), key_prefix(key), key_line(key, value)))
}

/// The value of the first line that starts with `p`, from lines already split.
pub fn lookup_prefixed_lines(ls: &Vec<Vec<char>>, p: &Vec<char>) -> (r: Option<Vec<char>>)
    ensures
        match r {
            Some(v) => lookup_prefixed(views(ls@), p@) == Some(v@),
            None => lookup_prefixed(views(ls@), p@) is None,
        },
{
    let mut i: usize = 0;
    assert(views(ls@).skip(0) =~= views(ls@));
    while i < ls.len()
        invariant
            i <= ls.len(),
            lookup_prefixed(views(ls@), p@) == lookup_prefixed(views(ls@).skip(i as int), p@),
        decreases ls.len() - i,
    {
        assert(views(ls@).skip(i as int)[0] == ls@[i as int]@);
        if starts_with_vec(&ls[i], p) {
            let rest = slice_of(&ls[i], p.len(), ls[i].len());
            assert(rest@ =~= ls@[i as int]@.skip(p@.len() as int));
            let t = trim_vec(&rest);
            let v = trim_char_vec(&t, '"');
            return Some(v);
        }
        assert(views(ls@).skip(i as int).drop_first() =~= views(ls@).skip(i + 1));
        i = i + 1;
    }
    None
}

/// The value of `key` in the text of a `server.env`: the first line that starts
/// with `KEY=`, the rest of it trimmed and stripped of quotes.
pub fn read_env_value(env_data: &str, key: &str) -> (r: Option<String>)
    ensures
        match r {
            Some(v) => env_value(env_data@, key@) == Some(v@),
            None => env_value(env_data@, key@) is None,
        },
{
    let data = chars_of(env_data);
    let mut p = chars_of(key);
    p.push('=');
    assert(p@ =~= key_prefix(key@));
    let ls = split_lines(&data);
    match lookup_prefixed_lines(&ls, &p) {
        Some(v) => Some(string_of(&v)),
        None => None,
    }
}

/// Every line that starts with `p` replaced by `nl`; `nl` appended if none did.
pub fn set_prefixed_lines(ls: &Vec<Vec<char>>, p: &Vec<char>, nl: &Vec<char>) -> (r: Vec<
    Vec<char>,
>)
    ensures
        views(r@) == set_prefixed_line(views(ls@), p@, nl@),
{
    let mut out: Vec<Vec<char>> = Vec::new();
    let mut found = false;
    let mut i: usize = 0;
    let ghost target = replace_prefixed(views(ls@), p@, nl@);
    while i < ls.len()
        invariant
            i <= ls.len(),
            target == replace_prefixed(views(ls@), p@, nl@),
            views(out@) == target.take(i as int),
            found == exists|k: int| 0 <= k < i && starts_with(views(ls@)[k], p@),
        decreases ls.len() - i,
    {
        let ghost before = views(out@);
        let b = starts_with_vec(&ls[i], p);
        assert(views(ls@)[i as int] == ls@[i as int]@);
        assert((exists|k: int| 0 <= k < i + 1 && starts_with(views(ls@)[k], p@)) == (found || b))
            by {
            if b {
                assert(starts_with(views(ls@)[i as int], p@));
            }
            if exists|k: int| 0 <= k < i + 1 && starts_with(views(ls@)[k], p@) {
                let k = choose|k: int| 0 <= k < i + 1 && starts_with(views(ls@)[k], p@);
                if k < i {
                    assert(exists|k: int| 0 <= k < i && starts_with(views(ls@)[k], p@));
                }
            }
        }
        let c = if b {
            found = true;
            nl.clone()
        } else {
            ls[i].clone()
        };
        assert(c@ == (if b { nl@ } else { ls@[i as int]@ }));
        out.push(c);
        assert(views(out@) =~= before.push(c@));
        assert(target[i as int] == (if b { nl@ } else { ls@[i as int]@ }));
        assert(views(out@) =~= target.take(i + 1));
        i = i + 1;
    }
    assert(target.take(ls.len() as int) =~= target);
    if !found {
        let ghost before = views(out@);
        out.push(nl.clone());
        assert(views(out@) =~= before.push(nl@));
    }
    out
}

/// The new text of a `server.env` in which `key` is set to `value`: each line
/// that starts with `KEY=` becomes `KEY="value"`, or that line is added at the end.
pub fn update_env_content(content: &str, key: &str, value: &str) -> (r: String)
    ensures
        r@ == env_with_key(content@, key@, value@),
{
    let data = chars_of(content);
    let mut p = chars_of(key);
    p.push('=');
    assert(p@ =~= key_prefix(key@));
    let mut nl = p.clone();
    nl.push('"');
    push_str(&mut nl, value);
    nl.push('"');
    assert(nl@ =~= key_line(key@, value@));
    let ls = split_lines(&data);
    let out = set_prefixed_lines(&ls, &p, &nl);
    let joined = join_lines(&out);
    string_of(&joined)
}

// ---------------------------------------------------------------------------
// Lemmas on lines and lookups
// ---------------------------------------------------------------------------

/// Reading a line that ends with `'\n'`.
pub proof fn lemma_lines_from_line(a: Seq<char>, rest: Seq<char>, cur: Seq<char>)
    requires
        !has_char(a, '\n'),
    ensures
        lines_from(a + seq!['\n'] + rest, cur) == seq![strip_cr(cur + a)] + lines_from(
            rest,
            seq![],
        ),
    decreases a.len(),
{
    let s = a + seq!['\n'] + rest;
    if a.len() == 0 {
        assert(s.drop_first() =~= rest);
        assert(cur + a =~= cur);
    } else {
        assert(s[0] == a[0]);
        assert(a[0] != '\n');
        assert(s.drop_first() =~= a.drop_first() + seq!['\n'] + rest);
        assert(!has_char(a.drop_first(), '\n')) by {
            if has_char(a.drop_first(), '\n') {
                let k = choose|k: int| 0 <= k < a.drop_first().len() && a.drop_first()[k] == '\n';
                assert(a[k + 1] == '\n');
            }
        }
        lemma_lines_from_line(a.drop_first(), rest, cur.push(a[0]));
        assert(cur.push(a[0]) + a.drop_first() =~= cur + a);
    }
}

/// `join` taken apart at the front.
pub proof fn lemma_join_front(ls: Seq<Seq<char>>, sep: Seq<char>)
    requires
        ls.len() >= 2,
    ensures
        join(ls, sep) == ls[0] + sep + join(ls.drop_first(), sep),
    decreases ls.len(),
{
    let dl = ls.drop_last();
    let df = ls.drop_first();
    if ls.len() == 2 {
        assert(dl.len() == 1);
        assert(join(dl, sep) == dl[0]);
        assert(dl[0] == ls[0]);
        assert(df.len() == 1);
        assert(join(df, sep) == df[0]);
        assert(df[0] == ls.last());
    } else {
        lemma_join_front(dl, sep);
        assert(dl.drop_first() =~= df.drop_last());
        assert(df.last() == ls.last());
        assert(dl[0] == ls[0]);
        assert(join(df, sep) == join(df.drop_last(), sep) + sep + df.last());
        assert(join(ls, sep) == join(dl, sep) + sep + ls.last());
        assert(join(ls, sep) =~= ls[0] + sep + join(df, sep));
    }
}

/// Lines written with `unlines` read back as the same lines, but for one `'\r'`
/// that a line ending in it loses.
pub proof fn lemma_lines_unlines(ls: Seq<Seq<char>>)
    requires
        ls.len() >= 1,
        forall|i: int| 0 <= i < ls.len() ==> !has_char(#[trigger] ls[i], '\n'),
    ensures
        lines(unlines(ls)) == Seq::new(ls.len(), |i: int| strip_cr(ls[i])),
    decreases ls.len(),
{
    let target = Seq::new(ls.len(), |i: int| strip_cr(ls[i]));
    if ls.len() == 1 {
        assert(join(ls, seq!['\n']) == ls[0]);
        lemma_lines_from_line(ls[0], seq![], seq![]);
        assert(seq![] + ls[0] =~= ls[0]);
        assert(lines_from(seq![], seq![]) =~= seq![]);
        assert(lines(unlines(ls)) =~= target);
    } else {
        lemma_join_front(ls, seq!['\n']);
        let rest = unlines(ls.drop_first());
        assert(unlines(ls) =~= ls[0] + seq!['\n'] + rest);
        lemma_lines_from_line(ls[0], rest, seq![]);
        assert(seq![] + ls[0] =~= ls[0]);
        assert forall|i: int| 0 <= i < ls.drop_first().len() implies !has_char(
            #[trigger] ls.drop_first()[i],
            '\n',
        ) by {
            assert(ls.drop_first()[i] == ls[i + 1]);
        }
        lemma_lines_unlines(ls.drop_first());
        assert(lines(unlines(ls)) =~= target);
    }
}

/// No line holds `'\n'`.
pub proof fn lemma_lines_no_newline(s: Seq<char>, cur: Seq<char>)
    requires
        !has_char(cur, '\n'),
    ensures
        forall|i: int|
            0 <= i < lines_from(s, cur).len() ==> !has_char(#[trigger] lines_from(s, cur)[i], '\n'),
    decreases s.len(),
{
    if s.len() == 0 {
        if cur.len() > 0 {
            assert(lines_from(s, cur) == seq![cur]);
        } else {
            assert(lines_from(s, cur) == Seq::<Seq<char>>::empty());
        }
    } else if s[0] == '\n' {
        lemma_lines_no_newline(s.drop_first(), seq![]);
        let l = strip_cr(cur);
        assert(!has_char(l, '\n')) by {
            if has_char(l, '\n') {
                let k = choose|k: int| 0 <= k < l.len() && l[k] == '\n';
                assert(cur[k] == '\n');
            }
        }
        let r = lines_from(s, cur);
        assert(r == seq![l] + lines_from(s.drop_first(), seq![]));
        assert forall|i: int| 0 <= i < r.len() implies !has_char(#[trigger] r[i], '\n') by {
            if i > 0 {
                assert(r[i] == lines_from(s.drop_first(), seq![])[i - 1]);
            }
        }
    } else {
        let c2 = cur.push(s[0]);
        assert(!has_char(c2, '\n')) by {
            if has_char(c2, '\n') {
                let k = choose|k: int| 0 <= k < c2.len() && c2[k] == '\n';
                if k < cur.len() {
                    assert(cur[k] == '\n');
                }
            }
        }
        lemma_lines_no_newline(s.drop_first(), c2);
        assert(lines_from(s, cur) == lines_from(s.drop_first(), c2));
    }
}

/// The lookup finds the first line with the prefix.
pub proof fn lemma_lookup_first(ls: Seq<Seq<char>>, p: Seq<char>, j: int)
    requires
        0 <= j < ls.len(),
        starts_with(ls[j], p),
        forall|i: int| 0 <= i < j ==> !starts_with(#[trigger] ls[i], p),
    ensures
        lookup_prefixed(ls, p) == Some(clean_value(ls[j].skip(p.len() as int))),
    decreases j,
{
    if j > 0 {
        assert(!starts_with(ls[0], p));
        assert forall|i: int| 0 <= i < j - 1 implies !starts_with(#[trigger] ls.drop_first()[i], p) by {
            assert(ls.drop_first()[i] == ls[i + 1]);
        }
        lemma_lookup_first(ls.drop_first(), p, j - 1);
    }
}

/// The lookup finds nothing where no line has the prefix.
pub proof fn lemma_lookup_none(ls: Seq<Seq<char>>, p: Seq<char>)
    requires
        forall|i: int| 0 <= i < ls.len() ==> !starts_with(#[trigger] ls[i], p),
    ensures
        lookup_prefixed(ls, p) is None,
    decreases ls.len(),
{
    if ls.len() > 0 {
        assert(!starts_with(ls[0], p));
        assert forall|i: int| 0 <= i < ls.drop_first().len() implies !starts_with(
            #[trigger] ls.drop_first()[i],
            p,
        ) by {
            assert(ls.drop_first()[i] == ls[i + 1]);
        }
        lemma_lookup_none(ls.drop_first(), p);
    }
}

/// Two lookups agree where the lines agree on who has the prefix and on the values.
pub proof fn lemma_lookup_same(a: Seq<Seq<char>>, b: Seq<Seq<char>>, p: Seq<char>)
    requires
        a.len() <= b.len(),
        forall|i: int|
            0 <= i < a.len() ==> (starts_with(#[trigger] a[i], p) <==> starts_with(b[i], p)),
        forall|i: int|
            0 <= i < a.len() && starts_with(#[trigger] a[i], p) ==> clean_value(
                a[i].skip(p.len() as int),
            ) == clean_value(b[i].skip(p.len() as int)),
        forall|i: int| a.len() <= i < b.len() ==> !starts_with(#[trigger] b[i], p),
    ensures
        lookup_prefixed(a, p) == lookup_prefixed(b, p),
    decreases a.len(),
{
    if a.len() == 0 {
        lemma_lookup_none(b, p);
    } else if starts_with(a[0], p) {
    } else {
        assert forall|i: int| 0 <= i < a.drop_first().len() implies (starts_with(
            #[trigger] a.drop_first()[i],
            p,
        ) <==> starts_with(b.drop_first()[i], p)) by {
            assert(a.drop_first()[i] == a[i + 1]);
            assert(b.drop_first()[i] == b[i + 1]);
        }
        assert forall|i: int|
            0 <= i < a.drop_first().len() && starts_with(
                #[trigger] a.drop_first()[i],
                p,
            ) implies clean_value(a.drop_first()[i].skip(p.len() as int)) == clean_value(
            b.drop_first()[i].skip(p.len() as int),
        ) by {
            assert(a.drop_first()[i] == a[i + 1]);
            assert(b.drop_first()[i] == b[i + 1]);
        }
        assert forall|i: int|
            a.drop_first().len() <= i < b.drop_first().len() implies !starts_with(
            #[trigger] b.drop_first()[i],
            p,
        ) by {
            assert(b.drop_first()[i] == b[i + 1]);
        }
        lemma_lookup_same(a.drop_first(), b.drop_first(), p);
    }
}

/// A prefix of the line holds the prefix only if the line does.
pub proof fn lemma_strip_cr_prefix(l: Seq<char>, p: Seq<char>)
    requires
        p.len() > 0,
        p.last() != '\r',
    ensures
        starts_with(strip_cr(l), p) <==> starts_with(l, p),
        starts_with(l, p) ==> clean_value(strip_cr(l).skip(p.len() as int)) == clean_value(
            l.skip(p.len() as int),
        ),
{
    if l.len() > 0 && l.last() == '\r' {
        let s = l.drop_last();
        if starts_with(l, p) {
            assert(p.len() < l.len()) by {
                if p.len() == l.len() {
                    assert(l.subrange(0, p.len() as int)[p.len() - 1] == l.last());
                }
            }
            assert(s.subrange(0, p.len() as int) =~= l.subrange(0, p.len() as int));
            let t = l.skip(p.len() as int);
            assert(s.skip(p.len() as int) =~= t.drop_last());
            assert(t.last() == '\r');
            lemma_trim_drop_ws_last(t);
        }
        if starts_with(s, p) {
            assert(s.subrange(0, p.len() as int) =~= l.subrange(0, p.len() as int));
        }
    }
}

/// Trimming ignores one trailing white-space character.
pub proof fn lemma_trim_drop_ws_last(t: Seq<char>)
    requires
        t.len() > 0,
        is_ws(t.last()),
    ensures
        trim(t.drop_last()) == trim(t),
{
    lemma_trim_start_drop_last(t);
}

proof fn lemma_trim_start_drop_last(t: Seq<char>)
    requires
        t.len() > 0,
        is_ws(t.last()),
    ensures
        trim_end(trim_start(t.drop_last())) == trim_end(trim_start(t)),
    decreases t.len(),
{
    if is_ws(t[0]) {
        if t.len() == 1 {
            assert(t.drop_last() =~= seq![]);
            assert(trim_start(t) == trim_start(t.drop_first()));
            assert(t.drop_first() =~= seq![]);
        } else {
            assert(t.drop_last()[0] == t[0]);
            assert(t.drop_last().drop_first() =~= t.drop_first().drop_last());
            lemma_trim_start_drop_last(t.drop_first());
        }
    } else {
        assert(t.drop_last()[0] == t[0]);
        assert(trim_start(t) == t);
        assert(trim_start(t.drop_last()) == t.drop_last());
    }
}

/// The prefix `KEY=` of one key is not that of another, for keys without `'='`.
pub proof fn lemma_distinct_prefixes(l: Seq<char>, k: Seq<char>, k2: Seq<char>)
    requires
        k != k2,
        !has_char(k, '='),
        !has_char(k2, '='),
        starts_with(l, key_prefix(k)),
    ensures
        !starts_with(l, key_prefix(k2)),
{
    if starts_with(l, key_prefix(k2)) {
        let p = key_prefix(k);
        let p2 = key_prefix(k2);
        if k.len() < k2.len() {
            assert(l[k.len() as int] == p[k.len() as int]);
            assert(l[k.len() as int] == p2[k.len() as int]);
            assert(k2[k.len() as int] == '=');
        } else if k2.len() < k.len() {
            assert(l[k2.len() as int] == p[k2.len() as int]);
            assert(l[k2.len() as int] == p2[k2.len() as int]);
            assert(k[k2.len() as int] == '=');
        } else {
            assert forall|i: int| 0 <= i < k.len() implies k[i] == k2[i] by {
                assert(l[i] == p[i]);
                assert(l[i] == p2[i]);
            }
            assert(k =~= k2);
        }
    }
}

proof fn lemma_clean_key_line(key: Seq<char>, value: Seq<char>)
    requires
        value.len() == 0 || (value[0] != '"' && value.last() != '"'),
    ensures
        clean_value(key_line(key, value).skip(key_prefix(key).len() as int)) == value,
{
    let q = seq!['"'] + value + seq!['"'];
    assert(key_line(key, value).skip(key_prefix(key).len() as int) =~= q);
    assert(trim_start(q) == q);
    assert(trim_end(q) == q);
    assert(q.drop_first() =~= value + seq!['"']);
    if value.len() == 0 {
        assert((value + seq!['"']).drop_first() =~= seq![]);
        assert(strip_start_char(q, '"') == strip_start_char(value + seq!['"'], '"'));
        assert(strip_start_char(value + seq!['"'], '"') == strip_start_char(seq![], '"'));
        assert(strip_end_char(seq![], '"') =~= value);
    } else {
        assert((value + seq!['"'])[0] == value[0]);
        assert(strip_start_char(value + seq!['"'], '"') == value + seq!['"']);
        assert((value + seq!['"']).drop_last() =~= value);
        assert(strip_end_char(value, '"') == value);
    }
}

// ---------------------------------------------------------------------------
// Laws of `server.env`
// ---------------------------------------------------------------------------

/// After `key` is set to `value`, reading `key` gives `value` back (for a key and
/// value on one line, and a value that neither starts nor ends with a quote).
pub proof fn law_env_read_after_update(content: Seq<char>, key: Seq<char>, value: Seq<char>)
    requires
        !has_char(key, '\n'),
        !has_char(value, '\n'),
        value.len() == 0 || (value[0] != '"' && value.last() != '"'),
    ensures
        env_value(env_with_key(content, key, value), key) == Some(value),
{
    let ls = lines(content);
    let p = key_prefix(key);
    let nl = key_line(key, value);
    let m = set_prefixed_line(ls, p, nl);
    lemma_lines_no_newline(content, seq![]);
    assert(!has_char(nl, '\n')) by {
        if has_char(nl, '\n') {
            let k = choose|k: int| 0 <= k < nl.len() && nl[k] == '\n';
            if k < key.len() {
                assert(key[k] == '\n');
            } else if k > key.len() + 1 && k < key.len() + 2 + value.len() {
                assert(value[k - key.len() - 2] == '\n');
            }
        }
    }
    assert(m.len() >= 1);
    assert forall|i: int| 0 <= i < m.len() implies !has_char(#[trigger] m[i], '\n') by {
        if i < ls.len() && !starts_with(ls[i], p) {
            assert(m[i] == ls[i]);
        }
    }
    lemma_lines_unlines(m);
    let ms = Seq::new(m.len(), |i: int| strip_cr(m[i]));
    assert(nl.last() == '"');
    assert(strip_cr(nl) == nl);
    assert(starts_with(nl, p)) by {
        assert(nl.subrange(0, p.len() as int) =~= p);
    }
    // The first line with the prefix is the key's line.
    let j: int = if any_prefixed(ls, p) {
        let w = choose|i: int| 0 <= i < ls.len() && starts_with(ls[i], p);
        first_prefixed(ls, p, w)
    } else {
        ls.len() as int
    };
    assert(ms[j] == nl);
    assert forall|i: int| 0 <= i < j implies !starts_with(#[trigger] ms[i], p) by {
        assert(!starts_with(ls[i], p));
        assert(m[i] == ls[i]);
        lemma_strip_cr_prefix(ls[i], p);
    }
    lemma_lookup_first(ms, p, j);
    lemma_clean_key_line(key, value);
}

/// The first index at or before `w` whose line has the prefix.
proof fn first_prefixed(ls: Seq<Seq<char>>, p: Seq<char>, w: int) -> (j: int)
    requires
        0 <= w < ls.len(),
        starts_with(ls[w], p),
    ensures
        0 <= j <= w,
        starts_with(ls[j], p),
        forall|i: int| 0 <= i < j ==> !starts_with(#[trigger] ls[i], p),
    decreases w,
{
    if exists|i: int| 0 <= i < w && starts_with(ls[i], p) {
        let i = choose|i: int| 0 <= i < w && starts_with(ls[i], p);
        first_prefixed(ls, p, i)
    } else {
        w
    }
}

/// Setting one key leaves what every other key reads as it was (keys without
/// `'='`, and a key and value on one line).
pub proof fn law_env_update_keeps_other_keys(
    content: Seq<char>,
    key: Seq<char>,
    value: Seq<char>,
    other: Seq<char>,
)
    requires
        key != other,
        !has_char(key, '='),
        !has_char(other, '='),
        !has_char(key, '\n'),
        !has_char(value, '\n'),
    ensures
        env_value(env_with_key(content, key, value), other) == env_value(content, other),
{
    let ls = lines(content);
    let p = key_prefix(key);
    let p2 = key_prefix(other);
    let nl = key_line(key, value);
    let m = set_prefixed_line(ls, p, nl);
    lemma_lines_no_newline(content, seq![]);
    assert(!has_char(nl, '\n')) by {
        if has_char(nl, '\n') {
            let k = choose|k: int| 0 <= k < nl.len() && nl[k] == '\n';
            if k < key.len() {
                assert(key[k] == '\n');
            } else if k > key.len() + 1 && k < key.len() + 2 + value.len() {
                assert(value[k - key.len() - 2] == '\n');
            }
        }
    }
    assert(m.len() >= 1);
    assert forall|i: int| 0 <= i < m.len() implies !has_char(#[trigger] m[i], '\n') by {
        if i < ls.len() && !starts_with(ls[i], p) {
            assert(m[i] == ls[i]);
        }
    }
    lemma_lines_unlines(m);
    let ms = Seq::new(m.len(), |i: int| strip_cr(m[i]));
    assert(starts_with(nl, p)) by {
        assert(nl.subrange(0, p.len() as int) =~= p);
    }
    lemma_distinct_prefixes(nl, key, other);
    assert(strip_cr(nl) == nl);
    assert forall|i: int| 0 <= i < ls.len() implies (starts_with(#[trigger] ls[i], p2)
        <==> starts_with(ms[i], p2)) by {
        if starts_with(ls[i], p) {
            lemma_distinct_prefixes(ls[i], key, other);
        } else {
            lemma_strip_cr_prefix(ls[i], p2);
        }
    }
    assert forall|i: int|
        0 <= i < ls.len() && starts_with(#[trigger] ls[i], p2) implies clean_value(
        ls[i].skip(p2.len() as int),
    ) == clean_value(ms[i].skip(p2.len() as int)) by {
        lemma_distinct_prefixes(ls[i], other, key);
        lemma_strip_cr_prefix(ls[i], p2);
    }
    assert forall|i: int| ls.len() <= i < ms.len() implies !starts_with(#[trigger] ms[i], p2) by {
        assert(m[i] == nl);
    }
    lemma_lookup_same(ls, ms, p2);
}

/// Setting a key rewrites `server.env` line by line: each line that did not
/// start with `KEY=` is kept, in its place (a last line without a newline that
/// ends in `'\r'` loses it, as every other line read does); each line that did
/// becomes `KEY="value"`; where none did, that line is added at the end; and the
/// text ends with a newline (a key and value on one line).
pub proof fn law_env_update_keeps_lines(content: Seq<char>, key: Seq<char>, value: Seq<char>)
    requires
        !has_char(key, '\n'),
        !has_char(value, '\n'),
    ensures
        ({
            let ls = lines(content);
            let p = key_prefix(key);
            let nl = key_line(key, value);
            let out = lines(env_with_key(content, key, value));
            &&& env_with_key(content, key, value).last() == '\n'
            &&& out.len() == ls.len() + if any_prefixed(ls, p) {
                0int
            } else {
                1int
            }
            &&& forall|i: int|
                0 <= i < ls.len() ==> #[trigger] out[i] == if starts_with(ls[i], p) {
                    nl
                } else {
                    strip_cr(ls[i])
                }
            &&& !any_prefixed(ls, p) ==> out.last() == nl
        }),
{
    let ls = lines(content);
    let p = key_prefix(key);
    let nl = key_line(key, value);
    let m = set_prefixed_line(ls, p, nl);
    lemma_lines_no_newline(content, seq![]);
    assert(!has_char(nl, '\n')) by {
        if has_char(nl, '\n') {
            let k = choose|k: int| 0 <= k < nl.len() && nl[k] == '\n';
            if k < key.len() {
                assert(key[k] == '\n');
            } else if k > key.len() + 1 && k < key.len() + 2 + value.len() {
                assert(value[k - key.len() - 2] == '\n');
            }
        }
    }
    assert(m.len() >= 1);
    assert forall|i: int| 0 <= i < m.len() implies !has_char(#[trigger] m[i], '\n') by {
        if i < ls.len() && !starts_with(ls[i], p) {
            assert(m[i] == ls[i]);
        }
    }
    lemma_lines_unlines(m);
    assert(nl.last() == '"');
    assert(strip_cr(nl) == nl);
    let out = lines(env_with_key(content, key, value));
    assert forall|i: int| 0 <= i < ls.len() implies #[trigger] out[i] == if starts_with(ls[i], p) {
        nl
    } else {
        strip_cr(ls[i])
    } by {
        assert(out[i] == strip_cr(m[i]));
    }
    if !any_prefixed(ls, p) {
        assert(out.last() == strip_cr(m.last()));
    }
}

} // verus!
