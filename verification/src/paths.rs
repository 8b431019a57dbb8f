//! Paths under the root folder, written as strings with `'/'` separators as on
//! the agent's host: joining, confining a client's relative path, and the
//! extension and stem of a file name.
use vstd::prelude::*;
use crate::protocol::FileScope;
use crate::text::{chars_of, eq_vec, extend, push_str, slice_of, string_of};

verus! {

/// `PathBuf::push(p)`: an absolute `p` replaces the path; otherwise `p` follows,
/// after a `'/'` where the path is not empty and does not end with one.
pub open spec fn path_push(base: Seq<char>, p: Seq<char>) -> Seq<char> {
    if p.len() > 0 && p[0] == '/' {
        p
    } else if base.len() > 0 && base.last() != '/' {
        base + seq!['/'] + p
    } else {
        base + p
    }
}

/// `base.join(p)`.
pub fn path_join(base: &str, p: &str) -> (r: String)
    ensures
        r@ == path_push(base@, p@),
{
    let b = chars_of(base);
    let q = chars_of(p);
    if q.len() > 0 && q[0] == '/' {
        return string_of(&q);
    }
    let mut out = b.clone();
    if b.len() > 0 && b[b.len() - 1] != '/' {
        out.push('/');
    }
    extend(&mut out, &q);
    string_of(&out)
}

/// The folder of a server, or its packwiz folder.
pub open spec fn scope_dir(root: Seq<char>, id: Seq<char>, scope: FileScope) -> Seq<char> {
    match scope {
        FileScope::Packwiz => path_push(path_push(root, id), "packwiz"@),
        FileScope::ServerRoot => path_push(root, id),
    }
}

/// The folder that a file request of `scope` is about.
pub fn base_dir_for_scope(root: &str, id: &str, scope: FileScope) -> (r: String)
    ensures
        r@ == scope_dir(root@, id@, scope),
{
    match scope {
        FileScope::Packwiz => {
            let d = path_join(root, id);
            path_join(d.as_str(), "packwiz")
        },
        FileScope::ServerRoot => path_join(root, id),
    }
}

/// The folder of a server's plugin requirement lists.
pub fn requirements_dir(root: &str, id: &str) -> (r: String)
    ensures
        r@ == path_push(path_push(root@, id@), "requirements"@),
{
    let d = path_join(root, id);
    path_join(d.as_str(), "requirements")
}

/// The pieces of `s` between `'/'`s, `cur` being the piece read so far.
pub open spec fn segments_from(s: Seq<char>, cur: Seq<char>) -> Seq<Seq<char>>
    decreases s.len(),
{
    if s.len() == 0 {
        seq![cur]
    } else if s[0] == '/' {
        seq![cur] + segments_from(s.drop_first(), seq![])
    } else {
        segments_from(s.drop_first(), cur.push(s[0]))
    }
}

/// The pieces of `s` between `'/'`s.
pub open spec fn segments(s: Seq<char>) -> Seq<Seq<char>> {
    segments_from(s, seq![])
}

/// A piece that names a file or folder: not empty and not `.`.
pub open spec fn is_named(seg: Seq<char>) -> bool {
    seg.len() > 0 && seg != seq!['.']
}

/// `base` with the named pieces of `segs` pushed, in order.
pub open spec fn push_named(base: Seq<char>, segs: Seq<Seq<char>>) -> Seq<char>
    decreases segs.len(),
{
    if segs.len() == 0 {
        base
    } else if is_named(segs.last()) {
        path_push(push_named(base, segs.drop_last()), segs.last())
    } else {
        push_named(base, segs.drop_last())
    }
}

/// A relative path leaves the folder it is joined to where it starts at the root
/// or has a `..` piece.
pub open spec fn escapes(rel: Seq<char>) -> bool {
    (rel.len() > 0 && rel[0] == '/') || segments(rel).contains(seq!['.', '.'])
}

/// What `safe_join` gives: the error where `rel` could leave `base`, else `base`
/// with the named pieces of `rel` pushed.
pub open spec fn confined_join(base: Seq<char>, rel: Seq<char>) -> Option<Seq<char>> {
    if escapes(rel) {
        None
    } else {
        Some(push_named(base, segments(rel)))
    }
}

/// The message of a refused relative path.
pub open spec fn bad_path_message(rel: Seq<char>) -> Seq<char> {
    "ruta inválida o fuera del modpack: '"@ + rel + "'"@
}

/// Push one named piece (no `'/'` in it) onto a path being built.
fn push_piece(out: &mut Vec<char>, seg: &Vec<char>)
    requires
        seg.len() > 0,
        seg@[0] != '/',
    ensures
        final(out)@ == path_push(old(out)@, seg@),
{
    if out.len() > 0 && out[out.len() - 1] != '/' {
        out.push('/');
    }
    extend(out, seg);
}

/// `base` joined with the client's relative path `rel`, refused where `rel` could
/// leave `base`: it starts at the root, or one of its pieces is `..`. Empty
/// pieces and `.` are skipped.
pub fn safe_join(base: &str, rel: &str) -> (r: Result<String, String>)
    ensures
        match r {
            Ok(p) => confined_join(base@, rel@) == Some(p@),
            Err(m) => confined_join(base@, rel@) is None && m@ == bad_path_message(rel@),
        },
{
    let b = chars_of(base);
    let s = chars_of(rel);
    let dotdot: Vec<char> = vec!['.', '.'];
    let dot: Vec<char> = vec!['.'];
    assert(dotdot@ =~= seq!['.', '.']);
    assert(dot@ =~= seq!['.']);
    let mut err = s.len() > 0 && s[0] == '/';
    let mut out = b.clone();
    let mut cur: Vec<char> = Vec::new();
    let mut i: usize = 0;
    let ghost mut done: Seq<Seq<char>> = seq![];
    assert(s@.skip(0) =~= s@);
    while i < s.len()
        invariant
            i <= s.len(),
            dotdot@ == seq!['.', '.'],
            dot@ == seq!['.'],
            segments(s@) == done + segments_from(s@.skip(i as int), cur@),
            !err ==> out@ == push_named(b@, done),
            err == ((s@.len() > 0 && s@[0] == '/') || done.contains(seq!['.', '.'])),
            forall|k: int| 0 <= k < cur@.len() ==> cur@[k] != '/',
        decreases s.len() - i,
    {
        assert(s@.skip(i as int).drop_first() =~= s@.skip(i + 1));
        if s[i] == '/' {
            let ghost seg = cur@;
            let is_up = eq_vec(&cur, &dotdot);
            let is_dot = eq_vec(&cur, &dot);
            if is_up {
                err = true;
            } else if !err && cur.len() > 0 && !is_dot {
                push_piece(&mut out, &cur);
            }
            proof {
                let nd = done.push(seg);
                assert(nd.drop_last() =~= done);
                assert(nd.contains(seq!['.', '.']) == (done.contains(seq!['.', '.']) || seg
                    == seq!['.', '.'])) by {
                    if nd.contains(seq!['.', '.']) {
                        let k = choose|k: int| 0 <= k < nd.len() && nd[k] == seq!['.', '.'];
                        if k < done.len() {
                            assert(done[k] == nd[k]);
                        }
                    }
                    if done.contains(seq!['.', '.']) {
                        let k = choose|k: int| 0 <= k < done.len() && done[k] == seq!['.', '.'];
                        assert(nd[k] == done[k]);
                    }
                    if seg == seq!['.', '.'] {
                        assert(nd[done.len() as int] == seg);
                    }
                }
                assert(segments_from(s@.skip(i as int), seg) == seq![seg] + segments_from(
                    s@.skip(i + 1),
                    seq![],
                ));
                assert(done + (seq![seg] + segments_from(s@.skip(i + 1), seq![])) =~= nd
                    + segments_from(s@.skip(i + 1), seq![]));
                done = nd;
            }
            cur = Vec::new();
            assert(cur@ =~= seq![]);
        } else {
            cur.push(s[i]);
        }
        i = i + 1;
    }
    // The last piece.
    let ghost seg = cur@;
    let is_up = eq_vec(&cur, &dotdot);
    let is_dot = eq_vec(&cur, &dot);
    if is_up {
        err = true;
    } else if !err && cur.len() > 0 && !is_dot {
        push_piece(&mut out, &cur);
    }
    proof {
        assert(s@.skip(i as int) =~= seq![]);
        let nd = done.push(seg);
        assert(nd.drop_last() =~= done);
        assert(segments(s@) =~= nd);
        assert(nd.contains(seq!['.', '.']) == (done.contains(seq!['.', '.']) || seg == seq![
            '.',
            '.',
        ])) by {
            if nd.contains(seq!['.', '.']) {
                let k = choose|k: int| 0 <= k < nd.len() && nd[k] == seq!['.', '.'];
                if k < done.len() {
                    assert(done[k] == nd[k]);
                }
            }
            if done.contains(seq!['.', '.']) {
                let k = choose|k: int| 0 <= k < done.len() && done[k] == seq!['.', '.'];
                assert(nd[k] == done[k]);
            }
            if seg == seq!['.', '.'] {
                assert(nd[done.len() as int] == seg);
            }
        }
    }
    if err {
        let mut m: Vec<char> = Vec::new();
        push_str(&mut m, "ruta inválida o fuera del modpack: '");
        extend(&mut m, &s);
        push_str(&mut m, "'");
        Err(string_of(&m))
    } else {
        Ok(string_of(&out))
    }
}

// ---------------------------------------------------------------------------
// File names
// ---------------------------------------------------------------------------

/// The index of the last `'.'` of `name`, -1 where there is none.
pub open spec fn last_dot(name: Seq<char>) -> int
    decreases name.len(),
{
    if name.len() == 0 {
        -1
    } else if name.last() == '.' {
        name.len() - 1
    } else {
        last_dot(name.drop_last())
    }
}

/// `Path::extension` of a file name: after its last `'.'`, none where it has no
/// `'.'` but at its start, and none for `..`.
pub open spec fn extension(name: Seq<char>) -> Option<Seq<char>> {
    if name == seq!['.', '.'] || last_dot(name) <= 0 {
        None
    } else {
        Some(name.skip(last_dot(name) + 1))
    }
}

/// `Path::file_stem` of a file name: before its last `'.'`, the whole name where
/// it has no extension.
pub open spec fn file_stem(name: Seq<char>) -> Seq<char> {
    if name == seq!['.', '.'] || last_dot(name) <= 0 {
        name
    } else {
        name.take(last_dot(name))
    }
}

fn last_dot_index(name: &Vec<char>) -> (r: Option<usize>)
    ensures
        match r {
            Some(i) => last_dot(name@) == i as int && i < name.len(),
            None => last_dot(name@) == -1,
        },
{
    let mut j: usize = name.len();
    assert(name@.take(name.len() as int) =~= name@);
    while j > 0
        invariant
            j <= name.len(),
            last_dot(name@) == last_dot(name@.take(j as int)),
        decreases j,
    {
        if name[j - 1] == '.' {
            return Some(j - 1);
        }
        assert(name@.take(j as int).drop_last() =~= name@.take(j - 1));
        j = j - 1;
    }
    None
}

/// The stem and extension of a file name.
pub fn split_extension(name: &str) -> (r: (String, Option<String>))
    ensures
        r.0@ == file_stem(name@),
        match r.1 {
            Some(e) => extension(name@) == Some(e@),
            None => extension(name@) is None,
        },
{
    let n = chars_of(name);
    let dotdot: Vec<char> = vec!['.', '.'];
    assert(dotdot@ =~= seq!['.', '.']);
    if eq_vec(&n, &dotdot) {
        return (string_of(&n), None);
    }
    match last_dot_index(&n) {
        Some(i) => {
            if i == 0 {
                (string_of(&n), None)
            } else {
                let stem = slice_of(&n, 0, i);
                let ext = slice_of(&n, i + 1, n.len());
                assert(stem@ =~= n@.take(i as int));
                assert(ext@ =~= n@.skip(i + 1));
                (string_of(&stem), Some(string_of(&ext)))
            }
        },
        None => (string_of(&n), None),
    }
}

/// Whether a file name has the extension `jar` (the engine files removed
/// before an engine is reinstalled).
pub fn is_jar_file(name: &str) -> (r: bool)
    ensures
        r == (extension(name@) == Some("jar"@)),
{
    let (_, ext) = split_extension(name);
    match ext {
        Some(e) => {
            let a = chars_of(e.as_str());
            let b = chars_of("jar");
            eq_vec(&a, &b)
        },
        None => false,
    }
}

/// The file of `names` whose stem is `pack_key`: the cover image kept for a
/// pack (the first such name in the order given).
pub open spec fn image_for(names: Seq<Seq<char>>, pack_key: Seq<char>) -> Option<Seq<char>>
    decreases names.len(),
{
    if names.len() == 0 {
        None
    } else if file_stem(names[0]) == pack_key {
        Some(names[0])
    } else {
        image_for(names.drop_first(), pack_key)
    }
}

/// The existing cover image of a pack among the file names of the images folder.
pub fn existing_image_filename(names: &Vec<String>, pack_key: &str) -> (r: Option<String>)
    ensures
        match r {
            Some(n) => image_for(crate::text::str_views(names@), pack_key@) == Some(n@),
            None => image_for(crate::text::str_views(names@), pack_key@) is None,
        },
{
    let ghost v = crate::text::str_views(names@);
    let mut i: usize = 0;
    assert(v.skip(0) =~= v);
    let key = chars_of(pack_key);
    while i < names.len()
        invariant
            i <= names.len(),
            v == crate::text::str_views(names@),
            key@ == pack_key@,
            image_for(v, pack_key@) == image_for(v.skip(i as int), pack_key@),
        decreases names.len() - i,
    {
        assert(v.skip(i as int)[0] == names@[i as int]@);
        let (stem, _) = split_extension(names[i].as_str());
        let sc = chars_of(stem.as_str());
        if eq_vec(&sc, &key) {
            return Some(names[i].clone());
        }
        assert(v.skip(i as int).drop_first() =~= v.skip(i + 1));
        i = i + 1;
    }
    None
}

/// The pieces of a path never hold `'/'`.
proof fn lemma_segments_no_slash(s: Seq<char>, cur: Seq<char>)
    requires
        forall|k: int| 0 <= k < cur.len() ==> cur[k] != '/',
    ensures
        forall|i: int, k: int|
            0 <= i < segments_from(s, cur).len() && 0 <= k < segments_from(s, cur)[i].len()
                ==> #[trigger] segments_from(s, cur)[i][k] != '/',
    decreases s.len(),
{
    if s.len() == 0 {
    } else if s[0] == '/' {
        lemma_segments_no_slash(s.drop_first(), seq![]);
        let r = segments_from(s, cur);
        assert(r == seq![cur] + segments_from(s.drop_first(), seq![]));
        assert forall|i: int, k: int| 0 <= i < r.len() && 0 <= k < r[i].len() implies #[trigger] r[i][k]
            != '/' by {
            if i > 0 {
                assert(r[i] == segments_from(s.drop_first(), seq![])[i - 1]);
            }
        }
    } else {
        lemma_segments_no_slash(s.drop_first(), cur.push(s[0]));
        assert(segments_from(s, cur) == segments_from(s.drop_first(), cur.push(s[0])));
    }
}

proof fn lemma_push_named_under(base: Seq<char>, segs: Seq<Seq<char>>)
    requires
        forall|i: int, k: int| 0 <= i < segs.len() && 0 <= k < segs[i].len() ==> #[trigger] segs[i][k] != '/',
    ensures
        starts_with_seq(push_named(base, segs), base),
        push_named(base, segs).len() == base.len() || base.len() == 0 || base.last() == '/'
            || push_named(base, segs)[base.len() as int] == '/',
    decreases segs.len(),
{
    if segs.len() == 0 {
        assert(base.subrange(0, base.len() as int) =~= base);
    } else {
        assert forall|i: int, k: int| 0 <= i < segs.drop_last().len() && 0 <= k < segs.drop_last()[i].len() implies #[trigger] segs.drop_last()[i][k] != '/' by {
            assert(segs.drop_last()[i] == segs[i]);
        }
        lemma_push_named_under(base, segs.drop_last());
        let prev = push_named(base, segs.drop_last());
        if is_named(segs.last()) {
            let l = segs.last();
            assert(l[0] != '/');
            let r = path_push(prev, l);
            assert(r.subrange(0, base.len() as int) =~= prev.subrange(0, base.len() as int));
            if prev.len() == base.len() && base.len() > 0 && base.last() != '/' {
                assert(r[base.len() as int] == '/');
            } else if prev.len() > base.len() {
                assert(r[base.len() as int] == prev[base.len() as int]);
            }
        }
    }
}

/// `s` starts with `p`.
pub open spec fn starts_with_seq(s: Seq<char>, p: Seq<char>) -> bool {
    p.len() <= s.len() && s.subrange(0, p.len() as int) == p
}

/// A joined path stays under its folder: it starts with the folder, followed by
/// a `'/'` where anything follows, and no piece of the relative path is `..`.
pub proof fn law_safe_join_stays_under(base: Seq<char>, rel: Seq<char>)
    ensures
        confined_join(base, rel) matches Some(p) ==> {
            &&& starts_with_seq(p, base)
            &&& (p.len() == base.len() || base.len() == 0 || base.last() == '/' || p[base.len() as int] == '/')
            &&& !segments(rel).contains(seq!['.', '.'])
        },
{
    lemma_segments_no_slash(rel, seq![]);
    lemma_push_named_under(base, segments(rel));
}

/// `segments` is `split` at `'/'`.
pub proof fn lemma_split_is_segments(s: Seq<char>)
    ensures
        crate::text::split(s, '/') == segments(s),
{
    lemma_split_from_segments(s, seq![]);
}

proof fn lemma_split_from_segments(s: Seq<char>, cur: Seq<char>)
    ensures
        crate::text::split_from(s, '/', cur) == segments_from(s, cur),
    decreases s.len(),
{
    if s.len() > 0 {
        if s[0] == '/' {
            lemma_split_from_segments(s.drop_first(), seq![]);
        } else {
            lemma_split_from_segments(s.drop_first(), cur.push(s[0]));
        }
    }
}

} // verus!
