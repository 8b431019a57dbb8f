//! The plugin lists of plugin servers and the proxy (`requirements/*.txt`), and
//! the choice of the file to download from Modrinth or GitHub.
use vstd::prelude::*;
use crate::protocol::{PluginSource, VelocityPluginEntry};
use crate::text::{
    is_ws, strip_cr, trim_end, trim_start,
    chars_of, ends_with_vec, eq_ignore_ascii_case, eq_ignore_ascii_case_vec, has_char,
    has_char_vec, join_lines, lines, push_str, split_lines, str_is, str_views, string_of, trim,
    trim_vec, unlines, views, ends_with,
};

verus! {

/// A listed line: not blank and not a `#` comment, once trimmed.
pub open spec fn listed(l: Seq<char>) -> bool {
    trim(l).len() > 0 && trim(l)[0] != '#'
}

/// The entries of a requirements list: its lines trimmed, blank lines and `#`
/// comments left out.
pub open spec fn requirement_entries(ls: Seq<Seq<char>>) -> Seq<Seq<char>>
    decreases ls.len(),
{
    if ls.len() == 0 {
        seq![]
    } else if listed(ls.last()) {
        requirement_entries(ls.drop_last()).push(trim(ls.last()))
    } else {
        requirement_entries(ls.drop_last())
    }
}

/// The entries of the text of a requirements list.
pub fn requirement_lines(content: &str) -> (r: Vec<String>)
    ensures
        str_views(r@) == requirement_entries(lines(content@)),
{
    let data = chars_of(content);
    let ls = split_lines(&data);
    let ghost v = views(ls@);
    let mut out: Vec<String> = Vec::new();
    let mut i: usize = 0;
    assert(str_views(out@) =~= requirement_entries(v.take(0)));
    while i < ls.len()
        invariant
            i <= ls.len(),
            v == views(ls@),
            str_views(out@) == requirement_entries(v.take(i as int)),
        decreases ls.len() - i,
    {
        assert(v.take(i + 1).drop_last() =~= v.take(i as int));
        assert(v.take(i + 1).last() == ls@[i as int]@);
        let t = trim_vec(&ls[i]);
        if t.len() > 0 && t[0] != '#' {
            let ghost before = str_views(out@);
            out.push(string_of(&t));
            assert(str_views(out@) =~= before.push(t@));
        }
        i = i + 1;
    }
    assert(v.take(ls.len() as int) =~= v);
    out
}

/// The plugins of a server, Modrinth's first, then GitHub's, then links.
pub fn plugin_entries(modrinth: Vec<String>, github: Vec<String>, direct: Vec<String>) -> (r: Vec<
    VelocityPluginEntry,
>)
    ensures
        r@.len() == modrinth@.len() + github@.len() + direct@.len(),
        forall|i: int|
            0 <= i < modrinth@.len() ==> (#[trigger] r@[i]).source == PluginSource::Modrinth
                && r@[i].value@ == modrinth@[i]@,
        forall|i: int|
            0 <= i < github@.len() ==> (#[trigger] r@[modrinth@.len() + i]).source
                == PluginSource::Github && r@[modrinth@.len() + i].value@ == github@[i]@,
        forall|i: int|
            0 <= i < direct@.len() ==> (#[trigger] r@[modrinth@.len() + github@.len()
                + i]).source == PluginSource::Direct && r@[modrinth@.len() + github@.len()
                + i].value@ == direct@[i]@,
{
    let mut out: Vec<VelocityPluginEntry> = Vec::new();
    let mut i: usize = 0;
    while i < modrinth.len()
        invariant
            i <= modrinth.len(),
            out@.len() == i,
            forall|k: int|
                0 <= k < i ==> (#[trigger] out@[k]).source == PluginSource::Modrinth
                    && out@[k].value@ == modrinth@[k]@,
        decreases modrinth.len() - i,
    {
        out.push(VelocityPluginEntry { source: PluginSource::Modrinth, value: modrinth[i].clone() });
        i = i + 1;
    }
    let mut j: usize = 0;
    while j < github.len()
        invariant
            j <= github.len(),
            out@.len() == modrinth@.len() + j,
            forall|k: int|
                0 <= k < modrinth@.len() ==> (#[trigger] out@[k]).source == PluginSource::Modrinth
                    && out@[k].value@ == modrinth@[k]@,
            forall|k: int|
                0 <= k < j ==> (#[trigger] out@[modrinth@.len() + k]).source
                    == PluginSource::Github && out@[modrinth@.len() + k].value@ == github@[k]@,
        decreases github.len() - j,
    {
        out.push(VelocityPluginEntry { source: PluginSource::Github, value: github[j].clone() });
        j = j + 1;
    }
    let mut k: usize = 0;
    while k < direct.len()
        invariant
            k <= direct.len(),
            out@.len() == modrinth@.len() + github@.len() + k,
            forall|m: int|
                0 <= m < modrinth@.len() ==> (#[trigger] out@[m]).source == PluginSource::Modrinth
                    && out@[m].value@ == modrinth@[m]@,
            forall|m: int|
                0 <= m < github@.len() ==> (#[trigger] out@[modrinth@.len() + m]).source
                    == PluginSource::Github && out@[modrinth@.len() + m].value@ == github@[m]@,
            forall|m: int|
                0 <= m < k ==> (#[trigger] out@[modrinth@.len() + github@.len() + m]).source
                    == PluginSource::Direct && out@[modrinth@.len() + github@.len() + m].value@
                    == direct@[m]@,
        decreases direct.len() - k,
    {
        out.push(VelocityPluginEntry { source: PluginSource::Direct, value: direct[k].clone() });
        k = k + 1;
    }
    out
}

/// What adding a plugin to a list comes to.
pub enum RequirementAdd {
    /// The value is refused, with the message the client is sent.
    Invalid(String),
    /// The (trimmed) value is listed already, ignoring ASCII case.
    AlreadyListed(String),
    /// The (trimmed) value, and the new text of the list.
    Write(String, String),
}

/// Some entry equals `v`, ignoring ASCII case.
pub open spec fn listed_already(existing: Seq<Seq<char>>, v: Seq<char>) -> bool {
    exists|i: int| 0 <= i < existing.len() && eq_ignore_ascii_case(existing[i], v)
}

/// Adding `value` to a list with `existing` entries: refused when blank or on
/// several lines; nothing to do where it is listed; else the entries with it
/// appended, one per line.
pub fn add_requirement(existing: &Vec<String>, value: &str) -> (r: RequirementAdd)
    ensures
        ({
            let v = trim(value@);
            let ex = str_views(existing@);
            if v.len() == 0 {
                r matches RequirementAdd::Invalid(m) && m@ == "El valor no puede estar vacío."@
            } else if has_char(v, '\n') || has_char(v, '\r') {
                r matches RequirementAdd::Invalid(m) && m@
                    == "El valor no puede contener saltos de línea."@
            } else if listed_already(ex, v) {
                r matches RequirementAdd::AlreadyListed(x) && x@ == v
            } else {
                r matches RequirementAdd::Write(x, c) && x@ == v && c@ == unlines(ex.push(v))
            }
        }),
{
    let raw = chars_of(value);
    let v = trim_vec(&raw);
    assert(v@ == trim(value@));
    if v.len() == 0 {
        return RequirementAdd::Invalid(String::from_str("El valor no puede estar vacío."));
    }
    if has_char_vec(&v, '\n') || has_char_vec(&v, '\r') {
        return RequirementAdd::Invalid(
            String::from_str("El valor no puede contener saltos de línea."),
        );
    }
    let ghost ex = str_views(existing@);
    let mut lsv: Vec<Vec<char>> = Vec::new();
    let mut i: usize = 0;
    while i < existing.len()
        invariant
            i <= existing.len(),
            ex == str_views(existing@),
            v@ == trim(value@),
            v@.len() > 0,
            !has_char(v@, '\n') && !has_char(v@, '\r'),
            views(lsv@) == ex.take(i as int),
            forall|k: int| 0 <= k < i ==> !eq_ignore_ascii_case(ex[k], v@),
        decreases existing.len() - i,
    {
        let e = chars_of(existing[i].as_str());
        assert(e@ == ex[i as int]);
        if eq_ignore_ascii_case_vec(&e, &v) {
            assert(eq_ignore_ascii_case(ex[i as int], v@));
            return RequirementAdd::AlreadyListed(string_of(&v));
        }
        let ghost old_l = lsv@;
        let ghost ev = e@;
        lsv.push(e);
        assert(lsv@ == old_l.push(e));
        assert(views(lsv@) =~= views(old_l).push(ev));
        assert(ex.take(i + 1) =~= ex.take(i as int).push(ex[i as int]));
        i = i + 1;
    }
    assert(ex.take(existing.len() as int) =~= ex);
    let ghost before = views(lsv@);
    lsv.push(v.clone());
    assert(views(lsv@) =~= ex.push(v@));
    let text = join_lines(&lsv);
    RequirementAdd::Write(string_of(&v), string_of(&text))
}

/// The entries that stay when `value` is removed: those not equal to it,
/// ignoring ASCII case.
pub open spec fn kept_entries(existing: Seq<Seq<char>>, value: Seq<char>) -> Seq<Seq<char>> {
    existing.filter(|l: Seq<char>| !eq_ignore_ascii_case(l, value))
}

/// The new text of a list with `value` removed: the other entries one per line,
/// or nothing where none is left.
pub fn remove_requirement(existing: &Vec<String>, value: &str) -> (r: String)
    ensures
        r@ == if kept_entries(str_views(existing@), value@).len() == 0 {
            Seq::<char>::empty()
        } else {
            unlines(kept_entries(str_views(existing@), value@))
        },
{
    let val = chars_of(value);
    let ghost ex = str_views(existing@);
    let ghost pred = |l: Seq<char>| !eq_ignore_ascii_case(l, value@);
    let mut kept: Vec<Vec<char>> = Vec::new();
    let mut i: usize = 0;
    assert(ex.take(0).filter(pred) =~= seq![]);
    while i < existing.len()
        invariant
            i <= existing.len(),
            ex == str_views(existing@),
            val@ == value@,
            pred == (|l: Seq<char>| !eq_ignore_ascii_case(l, value@)),
            views(kept@) == ex.take(i as int).filter(pred),
        decreases existing.len() - i,
    {
        let e = chars_of(existing[i].as_str());
        assert(ex.take(i + 1).drop_last() =~= ex.take(i as int));
        assert(ex.take(i + 1).last() == e@);
        reveal_with_fuel(Seq::<_>::filter, 1);
        if !eq_ignore_ascii_case_vec(&e, &val) {
            let ghost before = views(kept@);
            kept.push(e);
            assert(views(kept@) =~= before.push(ex[i as int]));
        }
        i = i + 1;
    }
    assert(ex.take(existing.len() as int) =~= ex);
    if kept.len() == 0 {
        String::new()
    } else {
        let text = join_lines(&kept);
        string_of(&text)
    }
}

// ---------------------------------------------------------------------------
// Choosing what to download
// ---------------------------------------------------------------------------

/// A file of a Modrinth version, as far as it was given.
pub struct ModrinthFile {
    pub primary: Option<bool>,
    pub url: Option<String>,
    pub filename: Option<String>,
}

/// A Modrinth version, as far as it was given.
pub struct ModrinthVersion {
    pub version_type: Option<String>,
    pub files: Option<Vec<ModrinthFile>>,
}

/// The index of the first release, else 0.
pub open spec fn chosen_version(vs: Seq<ModrinthVersion>) -> int {
    if exists|i: int| 0 <= i < vs.len() && is_release(vs[i]) {
        choose|i: int|
            0 <= i < vs.len() && is_release(vs[i]) && forall|k: int|
                0 <= k < i ==> !is_release(#[trigger] vs[k])
    } else {
        0
    }
}

/// A version of type `release`.
pub open spec fn is_release(v: ModrinthVersion) -> bool {
    v.version_type matches Some(t) && t@ == "release"@
}

/// A primary file.
pub open spec fn is_primary(f: ModrinthFile) -> bool {
    f.primary == Some(true)
}

/// The file chosen from a version's files: the first primary one, else the first.
pub open spec fn chosen_file(fs: Seq<ModrinthFile>) -> int {
    if exists|i: int| 0 <= i < fs.len() && is_primary(fs[i]) {
        choose|i: int|
            0 <= i < fs.len() && is_primary(fs[i]) && forall|k: int|
                0 <= k < i ==> !is_primary(#[trigger] fs[k])
    } else {
        0
    }
}

/// The URL and name of the plugin file to download from the versions Modrinth
/// listed: of the first release (else the first version), its first primary file
/// (else its first file), where that file has both. None where there are no
/// versions or files.
pub fn pick_modrinth_file(versions: &Vec<ModrinthVersion>) -> (r: Option<(String, String)>)
    requires
        versions@.len() > 0,
    ensures
        ({
            let v = versions@[chosen_version(versions@)];
            match v.files {
                Some(fs) if fs@.len() > 0 => {
                    let f = fs@[chosen_file(fs@)];
                    match (f.url, f.filename) {
                        (Some(u), Some(n)) => r matches Some(p) && p.0@ == u@ && p.1@ == n@,
                        _ => r is None,
                    }
                },
                _ => r is None,
            }
        }),
{
    let mut ci: usize = 0;
    let mut found = false;
    let mut i: usize = 0;
    while i < versions.len()
        invariant
            i <= versions.len(),
            found ==> ci < versions.len() && is_release(versions@[ci as int]) && forall|k: int|
                0 <= k < ci ==> !is_release(#[trigger] versions@[k]),
            !found ==> ci == 0 && forall|k: int| 0 <= k < i ==> !is_release(#[trigger] versions@[k]),
        decreases versions.len() - i,
    {
        if !found {
            let rel = match &versions[i].version_type {
                Some(t) => str_is(t.as_str(), "release"),
                None => false,
            };
            if rel {
                found = true;
                ci = i;
            }
        }
        i = i + 1;
    }
    proof {
        if found {
            let w = chosen_version(versions@);
            assert(0 <= w < versions@.len() && is_release(versions@[w]));
            if w < ci {
                assert(!is_release(versions@[w]));
            }
            if ci < w {
                assert(!is_release(versions@[ci as int]));
            }
            assert(w == ci);
        } else {
            assert(!exists|i: int| 0 <= i < versions@.len() && is_release(versions@[i]));
        }
    }
    let v = &versions[ci];
    match &v.files {
        None => None,
        Some(fs) => {
            if fs.len() == 0 {
                return None;
            }
            let mut fi: usize = 0;
            let mut ffound = false;
            let mut j: usize = 0;
            while j < fs.len()
                invariant
                    j <= fs.len(),
                    ffound ==> fi < fs.len() && is_primary(fs@[fi as int]) && forall|k: int|
                        0 <= k < fi ==> !is_primary(#[trigger] fs@[k]),
                    !ffound ==> fi == 0 && forall|k: int| 0 <= k < j ==> !is_primary(#[trigger] fs@[k]),
                decreases fs.len() - j,
            {
                if !ffound && fs[j].primary == Some(true) {
                    ffound = true;
                    fi = j;
                }
                j = j + 1;
            }
            proof {
                if ffound {
                    let w = chosen_file(fs@);
                    assert(0 <= w < fs@.len() && is_primary(fs@[w]));
                    if w < fi {
                        assert(!is_primary(fs@[w]));
                    }
                    if fi < w {
                        assert(!is_primary(fs@[fi as int]));
                    }
                    assert(w == fi);
                } else {
                    assert(!exists|i: int| 0 <= i < fs@.len() && is_primary(fs@[i]));
                }
            }
            let f = &fs[fi];
            match (&f.url, &f.filename) {
                (Some(u), Some(n)) => Some((u.clone(), n.clone())),
                _ => None,
            }
        },
    }
}

/// A release asset on GitHub, as far as it was given.
pub struct GithubAsset {
    pub name: Option<String>,
    pub browser_download_url: Option<String>,
}

/// An asset whose name ends in `.jar`.
pub open spec fn is_jar_asset(a: GithubAsset) -> bool {
    a.name matches Some(n) && ends_with(n@, ".jar"@)
}

/// The jar of the latest release on GitHub: the first asset named `*.jar`; its
/// URL and name where it has both.
pub open spec fn github_choice_matches(assets: Option<Seq<GithubAsset>>, r: Option<Option<(String, String)>>) -> bool {
    match assets {
        Some(a) if exists|i: int| 0 <= i < a.len() && is_jar_asset(a[i]) => {
            let j = choose|j: int|
                0 <= j < a.len() && is_jar_asset(a[j]) && forall|k: int|
                    0 <= k < j ==> !is_jar_asset(#[trigger] a[k]);
            match (a[j].browser_download_url, a[j].name) {
                (Some(u), Some(n)) => r matches Some(Some(p)) && p.0@ == u@ && p.1@ == n@,
                _ => r matches Some(None),
            }
        },
        _ => r is None,
    }
}

/// The file to download from a GitHub release: none where no asset is a jar;
/// the jar's URL and name where it has both.
pub fn pick_github_asset(assets: &Option<Vec<GithubAsset>>) -> (r: Option<Option<(String, String)>>)
    ensures
        github_choice_matches(
            match assets {
                Some(a) => Some(a@),
                None => None,
            },
            r,
        ),
{
    match assets {
        None => None,
        Some(a) => {
            let jar = chars_of(".jar");
            let mut i: usize = 0;
            while i < a.len()
                invariant
                    i <= a.len(),
                    *assets == Some(*a),
                    jar@ == ".jar"@,
                    forall|k: int| 0 <= k < i ==> !is_jar_asset(#[trigger] a@[k]),
                decreases a.len() - i,
            {
                let is_jar = match &a[i].name {
                    Some(n) => {
                        let nc = chars_of(n.as_str());
                        ends_with_vec(&nc, &jar)
                    },
                    None => false,
                };
                if is_jar {
                    proof {
                        let j = choose|j: int|
                            0 <= j < a@.len() && is_jar_asset(a@[j]) && forall|k: int|
                                0 <= k < j ==> !is_jar_asset(#[trigger] a@[k]);
                        assert(is_jar_asset(a@[i as int]));
                        if j < i {
                            assert(!is_jar_asset(a@[j]));
                        }
                        if i < j {
                            assert(!is_jar_asset(a@[i as int]));
                        }
                        assert(j == i);
                    }
                    let r = match &a[i].browser_download_url {
                        Some(u) => match &a[i].name {
                            Some(n) => Some(Some((u.clone(), n.clone()))),
                            None => Some(None),
                        },
                        None => Some(None),
                    };
                    assert(github_choice_matches(Some(a@), r));
                    return r;
                }
                i = i + 1;
            }
            None
        },
    }
}

// ---------------------------------------------------------------------------
// Where plugins are asked for
// ---------------------------------------------------------------------------

/// Modrinth's list of versions of a project for some loaders, narrowed to a
/// Minecraft version where a hint is given and not empty.
pub open spec fn modrinth_versions_address(slug: Seq<char>, loaders: Seq<char>, hint: Option<Seq<char>>) -> Seq<char> {
    let base = "https://api.modrinth.com/v2/project/"@ + slug + "/version?loaders="@ + loaders;
    match hint {
        Some(v) if v.len() > 0 => base + "&game_versions=%5B%22"@ + v + "%22%5D"@,
        _ => base,
    }
}

/// The address of the versions of the Modrinth project `slug`.
pub fn modrinth_versions_url(slug: &str, loaders: &str, hint: &Option<String>) -> (r: String)
    ensures
        r@ == modrinth_versions_address(
            slug@,
            loaders@,
            match hint {
                Some(h) => Some(h@),
                None => None,
            },
        ),
{
    let mut out: Vec<char> = Vec::new();
    crate::text::push_str(&mut out, "https://api.modrinth.com/v2/project/");
    crate::text::push_str(&mut out, slug);
    crate::text::push_str(&mut out, "/version?loaders=");
    crate::text::push_str(&mut out, loaders);
    match hint {
        Some(v) => {
            let c = chars_of(v.as_str());
            if c.len() > 0 {
                crate::text::push_str(&mut out, "&game_versions=%5B%22");
                crate::text::push_str(&mut out, v.as_str());
                crate::text::push_str(&mut out, "%22%5D");
            }
        },
        None => {},
    }
    string_of(&out)
}

/// Whether to ask Modrinth again without the Minecraft version: nothing was
/// found and a (non-empty) version narrowed the question.
pub fn retry_without_hint(found: usize, hint: &Option<String>) -> (r: bool)
    ensures
        r == (found == 0 && (hint matches Some(h) && h@.len() > 0)),
{
    match hint {
        Some(h) => found == 0 && chars_of(h.as_str()).len() > 0,
        None => false,
    }
}

/// The latest release of a GitHub repository (`owner/name`).
pub fn github_release_url(repo: &str) -> (r: String)
    ensures
        r@ == "https://api.github.com/repos/"@ + repo@ + "/releases/latest"@,
{
    let mut out: Vec<char> = Vec::new();
    crate::text::push_str(&mut out, "https://api.github.com/repos/");
    crate::text::push_str(&mut out, repo);
    crate::text::push_str(&mut out, "/releases/latest");
    string_of(&out)
}

// ---------------------------------------------------------------------------
// What the lists keep
// ---------------------------------------------------------------------------

/// An entry as the lists hold it: trimmed, not empty, not a comment, on one
/// line.
pub open spec fn clean_entry(e: Seq<char>) -> bool {
    trim(e) == e && e.len() > 0 && e[0] != '#' && !has_char(e, '\n')
}

proof fn lemma_trim_end_last(x: Seq<char>)
    ensures
        trim_end(x).len() > 0 ==> !is_ws(trim_end(x).last()),
    decreases x.len(),
{
    if x.len() > 0 && is_ws(x.last()) {
        lemma_trim_end_last(x.drop_last());
    }
}

proof fn lemma_clean_keeps_cr(e: Seq<char>)
    requires
        clean_entry(e),
    ensures
        strip_cr(e) == e,
{
    lemma_trim_end_last(trim_start(e));
    assert(is_ws('\r'));
}

proof fn lemma_clean_entries(ls: Seq<Seq<char>>)
    requires
        forall|i: int| 0 <= i < ls.len() ==> clean_entry(#[trigger] ls[i]),
    ensures
        requirement_entries(ls) == ls,
    decreases ls.len(),
{
    if ls.len() > 0 {
        let init = ls.drop_last();
        assert forall|i: int| 0 <= i < init.len() implies clean_entry(#[trigger] init[i]) by {
            assert(init[i] == ls[i]);
        }
        lemma_clean_entries(init);
        assert(clean_entry(ls[ls.len() - 1]));
        assert(ls =~= init.push(ls.last()));
    }
}

/// Clean entries written one per line read back as the same entries.
pub proof fn lemma_written_entries_read_back(ls: Seq<Seq<char>>)
    requires
        ls.len() >= 1,
        forall|i: int| 0 <= i < ls.len() ==> clean_entry(#[trigger] ls[i]),
    ensures
        requirement_entries(lines(unlines(ls))) == ls,
{
    assert forall|i: int| 0 <= i < ls.len() implies !has_char(#[trigger] ls[i], '\n') by {
        assert(clean_entry(ls[i]));
    }
    crate::env::lemma_lines_unlines(ls);
    assert forall|i: int| 0 <= i < ls.len() implies #[trigger] strip_cr(ls[i]) == ls[i] by {
        lemma_clean_keeps_cr(ls[i]);
    }
    assert(lines(unlines(ls)) =~= ls);
    lemma_clean_entries(ls);
}

/// A plugin added to a list is listed when the list is read again, after the
/// entries that were there (a value starting with `#` is left out: it is
/// written, but read back as a comment).
pub proof fn law_added_plugin_is_listed(existing: Seq<Seq<char>>, value: Seq<char>)
    requires
        forall|i: int| 0 <= i < existing.len() ==> clean_entry(#[trigger] existing[i]),
        clean_entry(value),
    ensures
        requirement_entries(lines(unlines(existing.push(value)))) == existing.push(value),
{
    let ls = existing.push(value);
    assert forall|i: int| 0 <= i < ls.len() implies clean_entry(#[trigger] ls[i]) by {
        if i < existing.len() {
            assert(ls[i] == existing[i]);
        }
    }
    lemma_written_entries_read_back(ls);
}

/// A plugin removed from a list is no longer listed when the list is read
/// again: what is read back is the entries kept, none equal to it ignoring
/// ASCII case.
pub proof fn law_removed_plugin_is_gone(existing: Seq<Seq<char>>, value: Seq<char>)
    requires
        forall|i: int| 0 <= i < existing.len() ==> clean_entry(#[trigger] existing[i]),
        kept_entries(existing, value).len() > 0,
    ensures
        requirement_entries(lines(unlines(kept_entries(existing, value)))) == kept_entries(
            existing,
            value,
        ),
        forall|i: int|
            0 <= i < kept_entries(existing, value).len() ==> !eq_ignore_ascii_case(
                #[trigger] kept_entries(existing, value)[i],
                value,
            ),
{
    let pred = |l: Seq<char>| !eq_ignore_ascii_case(l, value);
    let k = kept_entries(existing, value);
    assert forall|i: int| 0 <= i < k.len() implies clean_entry(#[trigger] k[i]) && !eq_ignore_ascii_case(k[i], value) by {
        existing.lemma_filter_pred(pred, i);
        existing.lemma_filter_contains_rev(pred, k[i]);
    }
    lemma_written_entries_read_back(k);
}

proof fn lemma_first_release_exists(vs: Seq<ModrinthVersion>, w: int)
    requires
        0 <= w < vs.len(),
        is_release(vs[w]),
    ensures
        exists|i: int|
            0 <= i < vs.len() && is_release(vs[i]) && forall|k: int|
                0 <= k < i ==> !is_release(#[trigger] vs[k]),
    decreases w,
{
    if exists|k: int| 0 <= k < w && is_release(vs[k]) {
        let k = choose|k: int| 0 <= k < w && is_release(vs[k]);
        lemma_first_release_exists(vs, k);
    } else {
        assert(forall|k: int| 0 <= k < w ==> !is_release(#[trigger] vs[k]));
    }
}

proof fn lemma_first_primary_exists(fs: Seq<ModrinthFile>, w: int)
    requires
        0 <= w < fs.len(),
        is_primary(fs[w]),
    ensures
        exists|i: int|
            0 <= i < fs.len() && is_primary(fs[i]) && forall|k: int|
                0 <= k < i ==> !is_primary(#[trigger] fs[k]),
    decreases w,
{
    if exists|k: int| 0 <= k < w && is_primary(fs[k]) {
        let k = choose|k: int| 0 <= k < w && is_primary(fs[k]);
        lemma_first_primary_exists(fs, k);
    } else {
        assert(forall|k: int| 0 <= k < w ==> !is_primary(#[trigger] fs[k]));
    }
}

/// Whether a version is of that type.
pub open spec fn of_type(v: ModrinthVersion, name: Seq<char>) -> bool {
    v.version_type matches Some(t) && t@ == name
}

/// The plugin is downloaded from the first version of type `release` in the
/// order Modrinth lists them (newest first); only where none is a release is it
/// the first version. Of that version's files it is the first primary one, else
/// the first.
pub proof fn law_modrinth_first_release(vs: Seq<ModrinthVersion>, fs: Seq<ModrinthFile>)
    requires
        vs.len() > 0,
        fs.len() > 0,
    ensures
        ({
            let c = chosen_version(vs);
            &&& 0 <= c < vs.len()
            &&& (exists|i: int| 0 <= i < vs.len() && of_type(#[trigger] vs[i], "release"@)) ==> (
            of_type(vs[c], "release"@) && forall|k: int|
                0 <= k < c ==> !of_type(#[trigger] vs[k], "release"@))
            &&& (forall|i: int| 0 <= i < vs.len() ==> !of_type(#[trigger] vs[i], "release"@))
                ==> c == 0
        }),
        ({
            let f = chosen_file(fs);
            &&& 0 <= f < fs.len()
            &&& (exists|i: int| 0 <= i < fs.len() && (#[trigger] fs[i]).primary == Some(true)) ==> (
            fs[f].primary == Some(true) && forall|k: int|
                0 <= k < f ==> (#[trigger] fs[k]).primary != Some(true))
            &&& (forall|i: int| 0 <= i < fs.len() ==> (#[trigger] fs[i]).primary != Some(true))
                ==> f == 0
        }),
{
    if exists|i: int| 0 <= i < vs.len() && is_release(vs[i]) {
        let w = choose|i: int| 0 <= i < vs.len() && is_release(vs[i]);
        lemma_first_release_exists(vs, w);
        let c = chosen_version(vs);
        assert(is_release(vs[c]));
        assert forall|k: int| 0 <= k < c implies !of_type(#[trigger] vs[k], "release"@) by {
            assert(!is_release(vs[k]));
        }
    } else {
        assert forall|i: int| 0 <= i < vs.len() implies !of_type(#[trigger] vs[i], "release"@) by {
            assert(!is_release(vs[i]));
        }
    }
    if exists|i: int| 0 <= i < fs.len() && is_primary(fs[i]) {
        let w = choose|i: int| 0 <= i < fs.len() && is_primary(fs[i]);
        lemma_first_primary_exists(fs, w);
        let f = chosen_file(fs);
        assert(is_primary(fs[f]));
        assert forall|k: int| 0 <= k < f implies (#[trigger] fs[k]).primary != Some(true) by {
            assert(!is_primary(fs[k]));
        }
    } else {
        assert forall|i: int| 0 <= i < fs.len() implies (#[trigger] fs[i]).primary != Some(true) by {
            assert(!is_primary(fs[i]));
        }
    }
}

} // verus!
