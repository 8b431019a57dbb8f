//! Modpacks managed with packwiz: the settings read from `server.env`, the
//! catalogue entry of a published pack, the mods listed by their `.toml`, and
//! the checks on uploaded files.
use vstd::prelude::*;
use crate::naming::{
    display_loader_name, installer_url, loader_display_name, loader_installer_url, version_id,
    version_id_for,
};
use crate::paths::{confined_join, extension, file_stem, is_named, safe_join, segments, split_extension};
use crate::protocol::PackwizMod;
use crate::store::ModpackEntry;
use crate::text::{
    chars_of, contains_seq, contains_vec, eq_vec, extend, has_char, has_char_vec, lines,
    lowercase, push_str, remove_all, remove_all_vec, split, split_char, split_lines, starts_with,
    starts_with_vec, str_is, string_of, to_lowercase, trim, trim_vec, views,
};

verus! {

// ---------------------------------------------------------------------------
// Reading `server.env` the way the packwiz and engine handlers do
// ---------------------------------------------------------------------------

/// `line.replace(key, "").replace('"', "").trim()`.
pub open spec fn replaced_value(line: Seq<char>, key: Seq<char>) -> Seq<char> {
    trim(remove_all(remove_all(line, key), seq!['"']))
}

/// The value of the last line that starts with `key` (by `replaced_value`), or
/// `default` where none does.
pub open spec fn last_replaced(ls: Seq<Seq<char>>, key: Seq<char>, default: Seq<char>) -> Seq<char>
    decreases ls.len(),
{
    if ls.len() == 0 {
        default
    } else if starts_with(ls.last(), key) {
        replaced_value(ls.last(), key)
    } else {
        last_replaced(ls.drop_last(), key, default)
    }
}

/// Like `last_replaced`, with none where no line starts with `key`.
pub open spec fn last_replaced_opt(ls: Seq<Seq<char>>, key: Seq<char>) -> Option<Seq<char>>
    decreases ls.len(),
{
    if ls.len() == 0 {
        None
    } else if starts_with(ls.last(), key) {
        Some(replaced_value(ls.last(), key))
    } else {
        last_replaced_opt(ls.drop_last(), key)
    }
}

fn replaced_value_vec(line: &Vec<char>, key: &Vec<char>) -> (r: Vec<char>)
    ensures
        r@ == replaced_value(line@, key@),
{
    let a = remove_all_vec(line, key);
    let q: Vec<char> = vec!['"'];
    assert(q@ =~= seq!['"']);
    let b = remove_all_vec(&a, &q);
    trim_vec(&b)
}

/// The value of the last line of `ls` that starts with `key`, if any.
fn last_replaced_lines(ls: &Vec<Vec<char>>, key: &str) -> (r: Option<Vec<char>>)
    ensures
        match r {
            Some(v) => last_replaced_opt(views(ls@), key@) == Some(v@),
            None => last_replaced_opt(views(ls@), key@) is None,
        },
{
    let k = chars_of(key);
    let ghost v = views(ls@);
    let mut found: Option<Vec<char>> = None;
    let mut i: usize = 0;
    while i < ls.len()
        invariant
            i <= ls.len(),
            v == views(ls@),
            k@ == key@,
            match found {
                Some(x) => last_replaced_opt(v.take(i as int), key@) == Some(x@),
                None => last_replaced_opt(v.take(i as int), key@) is None,
            },
        decreases ls.len() - i,
    {
        assert(v.take(i + 1).drop_last() =~= v.take(i as int));
        assert(v.take(i + 1).last() == ls@[i as int]@);
        if starts_with_vec(&ls[i], &k) {
            found = Some(replaced_value_vec(&ls[i], &k));
        }
        i = i + 1;
    }
    assert(v.take(ls.len() as int) =~= v);
    found
}

proof fn lemma_last_replaced(ls: Seq<Seq<char>>, key: Seq<char>, default: Seq<char>)
    ensures
        last_replaced(ls, key, default) == match last_replaced_opt(ls, key) {
            Some(v) => v,
            None => default,
        },
    decreases ls.len(),
{
    if ls.len() > 0 && !starts_with(ls.last(), key) {
        lemma_last_replaced(ls.drop_last(), key, default);
    }
}

fn last_replaced_or(ls: &Vec<Vec<char>>, key: &str, default: &str) -> (r: String)
    ensures
        r@ == last_replaced(views(ls@), key@, default@),
{
    proof {
        lemma_last_replaced(views(ls@), key@, default@);
    }
    match last_replaced_lines(ls, key) {
        Some(v) => string_of(&v),
        None => String::from_str(default),
    }
}

/// The loader and Minecraft version packwiz is initialised with, from the text
/// of `server.env` (by default `fabric` and 1.21.1): Paper and Folia packs use
/// the `paper` loader, the proxy none with 1.21.1.
pub open spec fn packwiz_init(env_data: Seq<char>) -> (Seq<char>, Seq<char>) {
    let ls = lines(env_data);
    let mc = last_replaced(ls, "MC_VERSION="@, "1.21.1"@);
    let st = last_replaced(ls, "SERVER_TYPE="@, "fabric"@);
    if st == "paper"@ {
        ("paper"@, mc)
    } else if st == "velocity"@ {
        ("none"@, "1.21.1"@)
    } else if st == "folia"@ {
        ("paper"@, mc)
    } else {
        (st, mc)
    }
}

/// The `--modloader` and `--mc-version` of `packwiz init` for a server.
pub fn packwiz_init_settings(env_data: &str) -> (r: (String, String))
    ensures
        (r.0@, r.1@) == packwiz_init(env_data@),
{
    let data = chars_of(env_data);
    let ls = split_lines(&data);
    let mc = last_replaced_or(&ls, "MC_VERSION=", "1.21.1");
    let st = last_replaced_or(&ls, "SERVER_TYPE=", "fabric");
    if str_is(st.as_str(), "paper") {
        (String::from_str("paper"), mc)
    } else if str_is(st.as_str(), "velocity") {
        (String::from_str("none"), String::from_str("1.21.1"))
    } else if str_is(st.as_str(), "folia") {
        (String::from_str("paper"), mc)
    } else {
        (st, mc)
    }
}

/// What a publication reads from `server.env`.
pub struct PublishFields {
    pub title: String,
    pub mc_version: String,
    pub server_type: String,
    pub engine_build: Option<String>,
}

/// The fields of a publication: the server's name (by default `Servidor
/// Lumineria`), Minecraft version (1.21.1), type (`neoforge`) and engine build.
pub open spec fn publish_fields_match(r: PublishFields, env_data: Seq<char>) -> bool {
    let ls = lines(env_data);
    &&& r.title@ == last_replaced(ls, "SERVER_NAME="@, "Servidor Lumineria"@)
    &&& r.mc_version@ == last_replaced(ls, "MC_VERSION="@, "1.21.1"@)
    &&& r.server_type@ == last_replaced(ls, "SERVER_TYPE="@, "neoforge"@)
    &&& match r.engine_build {
        Some(b) => last_replaced_opt(ls, "ENGINE_BUILD="@) == Some(b@),
        None => last_replaced_opt(ls, "ENGINE_BUILD="@) is None,
    }
}

/// The fields of a publication from the text of `server.env`.
pub fn publish_fields(env_data: &str) -> (r: PublishFields)
    ensures
        publish_fields_match(r, env_data@),
{
    let data = chars_of(env_data);
    let ls = split_lines(&data);
    let title = last_replaced_or(&ls, "SERVER_NAME=", "Servidor Lumineria");
    let mc_version = last_replaced_or(&ls, "MC_VERSION=", "1.21.1");
    let server_type = last_replaced_or(&ls, "SERVER_TYPE=", "neoforge");
    let engine_build = match last_replaced_lines(&ls, "ENGINE_BUILD=") {
        Some(v) => Some(string_of(&v)),
        None => None,
    };
    PublishFields { title, mc_version, server_type, engine_build }
}

/// The catalogue entry of a published pack.
pub open spec fn entry_matches(
    e: ModpackEntry,
    f: PublishFields,
    domain: Seq<char>,
    pack_key: Seq<char>,
    image_file: Seq<char>,
) -> bool {
    let build = match f.engine_build {
        Some(b) => Some(b@),
        None => None,
    };
    &&& e.title@ == f.title@
    &&& e.mc_version@ == f.mc_version@
    &&& e.version_id@ == version_id(f.server_type@, build)
    &&& e.java_version == 21
    &&& e.loader_name@ == loader_display_name(f.server_type@)
    &&& e.loader_url@ == installer_url(
        f.server_type@,
        match build {
            Some(b) => b,
            None => seq![],
        },
    )
    &&& e.packwiz_url@ == domain + "/"@ + pack_key + "/pack.toml"@
    &&& e.image@ == domain + "/images/"@ + image_file
}

/// The catalogue entry of a pack published at `domain` under `pack_key`.
pub fn modpack_entry(f: &PublishFields, domain: &str, pack_key: &str, image_file: &str) -> (r:
    ModpackEntry)
    ensures
        entry_matches(r, *f, domain@, pack_key@, image_file@),
{
    let build = match &f.engine_build {
        Some(b) => b.clone(),
        None => String::new(),
    };
    let mut url: Vec<char> = Vec::new();
    push_str(&mut url, domain);
    push_str(&mut url, "/");
    push_str(&mut url, pack_key);
    push_str(&mut url, "/pack.toml");
    let mut img: Vec<char> = Vec::new();
    push_str(&mut img, domain);
    push_str(&mut img, "/images/");
    push_str(&mut img, image_file);
    ModpackEntry {
        title: f.title.clone(),
        mc_version: f.mc_version.clone(),
        version_id: version_id_for(f.server_type.as_str(), &f.engine_build),
        java_version: 21,
        loader_name: display_loader_name(f.server_type.as_str()),
        loader_url: loader_installer_url(f.server_type.as_str(), build.as_str()),
        packwiz_url: string_of(&url),
        image: string_of(&img),
    }
}

// ---------------------------------------------------------------------------
// `server.env` as the engine handlers read it
// ---------------------------------------------------------------------------

/// `line.split('=').nth(1).unwrap_or(default).replace('"', "").trim()`.
pub open spec fn second_piece_value(line: Seq<char>, default: Seq<char>) -> Seq<char> {
    let parts = split(line, '=');
    trim(remove_all(if parts.len() > 1 { parts[1] } else { default }, seq!['"']))
}

/// The value of the last line that starts with `key`, by `second_piece_value`.
pub open spec fn last_second_piece(ls: Seq<Seq<char>>, key: Seq<char>, default: Seq<char>) -> Seq<
    char,
>
    decreases ls.len(),
{
    if ls.len() == 0 {
        default
    } else if starts_with(ls.last(), key) {
        second_piece_value(ls.last(), default)
    } else {
        last_second_piece(ls.drop_last(), key, default)
    }
}

fn second_piece_vec(line: &Vec<char>, default: &Vec<char>) -> (r: Vec<char>)
    ensures
        r@ == second_piece_value(line@, default@),
{
    let parts = split_char(line, '=');
    let piece = if parts.len() > 1 {
        assert(views(parts@)[1] == parts@[1]@);
        parts[1].clone()
    } else {
        default.clone()
    };
    let q: Vec<char> = vec!['"'];
    assert(q@ =~= seq!['"']);
    let b = remove_all_vec(&piece, &q);
    trim_vec(&b)
}

fn last_second_piece_lines(ls: &Vec<Vec<char>>, key: &str, default: &str) -> (r: String)
    ensures
        r@ == last_second_piece(views(ls@), key@, default@),
{
    let k = chars_of(key);
    let d = chars_of(default);
    let ghost v = views(ls@);
    let mut cur: Vec<char> = d.clone();
    let mut i: usize = 0;
    proof {
        assert(v.take(0) =~= seq![]);
    }
    while i < ls.len()
        invariant
            i <= ls.len(),
            v == views(ls@),
            k@ == key@,
            d@ == default@,
            cur@ == last_second_piece(v.take(i as int), key@, default@),
        decreases ls.len() - i,
    {
        assert(v.take(i + 1).drop_last() =~= v.take(i as int));
        assert(v.take(i + 1).last() == ls@[i as int]@);
        if starts_with_vec(&ls[i], &k) {
            cur = second_piece_vec(&ls[i], &d);
        }
        i = i + 1;
    }
    assert(v.take(ls.len() as int) =~= v);
    string_of(&cur)
}

/// The engine settings of a server.
pub struct EngineSettings {
    pub mc_version: String,
    pub server_type: String,
    pub min_ram: String,
    pub max_ram: String,
}

/// The engine settings from the text of `server.env`: Minecraft version (by
/// default `latest`), type (`paper`), and memory (`1G` to `4G`).
pub open spec fn engine_settings_match(r: EngineSettings, env_data: Seq<char>) -> bool {
    let ls = lines(env_data);
    &&& r.mc_version@ == last_second_piece(ls, "MC_VERSION="@, "latest"@)
    &&& r.server_type@ == last_second_piece(ls, "SERVER_TYPE="@, "paper"@)
    &&& r.min_ram@ == last_second_piece(ls, "MIN_RAM="@, "1G"@)
    &&& r.max_ram@ == last_second_piece(ls, "MAX_RAM="@, "4G"@)
}

/// The engine settings of a server, as automatic updates and the recreation of
/// its container read them.
pub fn engine_settings(env_data: &str) -> (r: EngineSettings)
    ensures
        engine_settings_match(r, env_data@),
{
    let data = chars_of(env_data);
    let ls = split_lines(&data);
    EngineSettings {
        mc_version: last_second_piece_lines(&ls, "MC_VERSION=", "latest"),
        server_type: last_second_piece_lines(&ls, "SERVER_TYPE=", "paper"),
        min_ram: last_second_piece_lines(&ls, "MIN_RAM=", "1G"),
        max_ram: last_second_piece_lines(&ls, "MAX_RAM=", "4G"),
    }
}

/// Engines that can update themselves from PaperMC's builds.
pub open spec fn papermc_engine(server_type: Seq<char>) -> bool {
    server_type == "paper"@ || server_type == "velocity"@ || server_type == "folia"@
}

/// Whether a server's engine comes from PaperMC (Paper, Velocity, Folia).
pub fn is_papermc_engine(server_type: &str) -> (r: bool)
    ensures
        r == papermc_engine(server_type@),
{
    str_is(server_type, "paper") || str_is(server_type, "velocity") || str_is(server_type, "folia")
}

// ---------------------------------------------------------------------------
// The mods of a pack
// ---------------------------------------------------------------------------

/// The value of a `key = "value"` line: between the first and second `'='`,
/// without quotes, trimmed.
pub open spec fn toml_value(line: Seq<char>) -> Seq<char> {
    let parts = split(line, '=');
    trim(remove_all(if parts.len() > 1 { parts[1] } else { seq![] }, seq!['"']))
}

/// The value of the last trimmed line that starts with `key`, or `default`.
pub open spec fn last_toml_value(ls: Seq<Seq<char>>, key: Seq<char>, default: Seq<char>) -> Seq<
    char,
>
    decreases ls.len(),
{
    if ls.len() == 0 {
        default
    } else if starts_with(trim(ls.last()), key) {
        toml_value(trim(ls.last()))
    } else {
        last_toml_value(ls.drop_last(), key, default)
    }
}

fn last_toml_value_lines(ls: &Vec<Vec<char>>, key: &str, default: &str) -> (r: Vec<char>)
    ensures
        r@ == last_toml_value(views(ls@), key@, default@),
{
    let k = chars_of(key);
    let empty: Vec<char> = Vec::new();
    let ghost v = views(ls@);
    let mut cur = chars_of(default);
    let mut i: usize = 0;
    proof {
        assert(v.take(0) =~= seq![]);
    }
    while i < ls.len()
        invariant
            i <= ls.len(),
            v == views(ls@),
            k@ == key@,
            empty@ == Seq::<char>::empty(),
            cur@ == last_toml_value(v.take(i as int), key@, default@),
        decreases ls.len() - i,
    {
        assert(v.take(i + 1).drop_last() =~= v.take(i as int));
        assert(v.take(i + 1).last() == ls@[i as int]@);
        let t = trim_vec(&ls[i]);
        if starts_with_vec(&t, &k) {
            let parts = split_char(&t, '=');
            let piece = if parts.len() > 1 {
                assert(views(parts@)[1] == parts@[1]@);
                parts[1].clone()
            } else {
                empty.clone()
            };
            let q: Vec<char> = vec!['"'];
            assert(q@ =~= seq!['"']);
            let b = remove_all_vec(&piece, &q);
            cur = trim_vec(&b);
        }
        i = i + 1;
    }
    assert(v.take(ls.len() as int) =~= v);
    cur
}

/// The mod that a packwiz `.toml` of folder `category` describes: named by its
/// `name =` line, its file `category/FILENAME`, its `.toml` `category/TOML`, and
/// its side (by default `both`); none without a name.
pub open spec fn mod_of_toml(
    category: Seq<char>,
    toml_name: Seq<char>,
    content: Seq<char>,
) -> Option<(Seq<char>, Seq<char>, Seq<char>, Seq<char>)> {
    let ls = lines(content);
    let name = last_toml_value(ls, "name ="@, seq![]);
    let filename = last_toml_value(ls, "filename ="@, seq![]);
    let side = last_toml_value(ls, "side ="@, "both"@);
    if name.len() == 0 {
        None
    } else {
        Some((name, category + "/"@ + filename, category + "/"@ + toml_name, side))
    }
}

/// The mod described by a packwiz `.toml` file of a pack's folder.
pub fn packwiz_mod_from_toml(category: &str, toml_name: &str, content: &str) -> (r: Option<
    PackwizMod,
>)
    ensures
        match r {
            Some(m) => mod_of_toml(category@, toml_name@, content@) == Some(
                (m.name@, m.filename@, m.toml_path@, m.side@),
            ),
            None => mod_of_toml(category@, toml_name@, content@) is None,
        },
{
    let data = chars_of(content);
    let ls = split_lines(&data);
    proof {
        reveal_strlit("");
    }
    let name = last_toml_value_lines(&ls, "name =", "");
    let filename = last_toml_value_lines(&ls, "filename =", "");
    let side = last_toml_value_lines(&ls, "side =", "both");
    assert(name@ == last_toml_value(lines(content@), "name ="@, ""@));
    assert(""@ == Seq::<char>::empty());
    if name.len() == 0 {
        return None;
    }
    let mut f: Vec<char> = Vec::new();
    push_str(&mut f, category);
    push_str(&mut f, "/");
    extend(&mut f, &filename);
    let mut t: Vec<char> = Vec::new();
    push_str(&mut t, category);
    push_str(&mut t, "/");
    push_str(&mut t, toml_name);
    Some(
        PackwizMod {
            name: string_of(&name),
            filename: string_of(&f),
            toml_path: string_of(&t),
            side: string_of(&side),
        },
    )
}

/// The folders of a pack whose mods are listed, in the order they are read.
pub fn mod_categories() -> (r: Vec<&'static str>)
    ensures
        r@.len() == 5,
        r@[0]@ == "mods"@,
        r@[1]@ == "resourcepacks"@,
        r@[2]@ == "shaderpacks"@,
        r@[3]@ == "plugins"@,
        r@[4]@ == "config"@,
{
    vec!["mods", "resourcepacks", "shaderpacks", "plugins", "config"]
}

/// Whether a file of a pack's folder is a packwiz `.toml`.
pub fn is_toml_file(name: &str) -> (r: bool)
    ensures
        r == (extension(name@) == Some("toml"@)),
{
    let (_, ext) = split_extension(name);
    match ext {
        Some(e) => str_is(e.as_str(), "toml"),
        None => false,
    }
}

/// The lower-cased name of a mod, by which the list is ordered.
pub open spec fn mod_key(m: PackwizMod) -> Seq<char> {
    lowercase(m.name@)
}

/// The mods ordered by their lower-cased names; mods of the same name keep
/// their order.
pub fn sort_mods(mods: Vec<PackwizMod>) -> (r: Vec<PackwizMod>)
    ensures
        crate::sort::sorted_by_fn(r@, |m: PackwizMod| mod_key(m)),
        r@.to_multiset() == mods@.to_multiset(),
        crate::sort::keeps_order_of_ties(r@, mods@, |m: PackwizMod| mod_key(m)),
{
    let key = |m: &PackwizMod| -> (s: String)
        ensures
            s@ == lowercase(m.name@),
        { to_lowercase(m.name.as_str()) };
    crate::sort::sort_with_key(mods, &key, Ghost(|m: PackwizMod| mod_key(m)))
}

// ---------------------------------------------------------------------------
// Uploads
// ---------------------------------------------------------------------------

/// A file name that an upload may not use: empty, with a separator or `..`, or
/// a pack's own `pack.toml` or `index.toml` (ignoring case).
pub open spec fn bad_upload_name(f: Seq<char>) -> bool {
    f.len() == 0 || has_char(f, '/') || has_char(f, '\\') || contains_seq(f, ".."@) || lowercase(f)
        == "pack.toml"@ || lowercase(f) == "index.toml"@
}

/// Refuses a bad upload file name, with the message the client is sent.
pub fn check_upload_name(filename: &str) -> (r: Result<(), String>)
    ensures
        r is Ok <==> !bad_upload_name(filename@),
        r matches Err(m) ==> m@ == "❌ Nombre de archivo inválido o reservado: '"@ + filename@
            + "'"@,
{
    let f = chars_of(filename);
    let dd = chars_of("..");
    let low = to_lowercase(filename);
    if f.len() == 0 || has_char_vec(&f, '/') || has_char_vec(&f, '\\') || contains_vec(&f, &dd)
        || str_is(low.as_str(), "pack.toml") || str_is(low.as_str(), "index.toml") {
        let mut m: Vec<char> = Vec::new();
        push_str(&mut m, "❌ Nombre de archivo inválido o reservado: '");
        push_str(&mut m, filename);
        push_str(&mut m, "'");
        Err(string_of(&m))
    } else {
        Ok(())
    }
}

/// An upload to the folder `""`, `"."` or `"root"` goes to the top of the tree.
pub open spec fn root_folder(folder: Seq<char>) -> bool {
    folder.len() == 0 || folder == "."@ || folder == "root"@
}

/// Whether an upload goes to the top of the tree.
pub fn is_root_folder(folder: &str) -> (r: bool)
    ensures
        r == root_folder(folder@),
{
    let f = chars_of(folder);
    f.len() == 0 || str_is(folder, ".") || str_is(folder, "root")
}

/// The folder an upload is written to: the tree itself for the top, else the
/// folder joined under it, refused (with a `❌`) where it could leave the tree.
pub fn upload_target_dir(base: &str, folder: &str) -> (r: Result<String, String>)
    ensures
        root_folder(folder@) ==> (r matches Ok(p) && p@ == base@),
        !root_folder(folder@) ==> match r {
            Ok(p) => confined_join(base@, folder@) == Some(p@),
            Err(m) => confined_join(base@, folder@) is None && m@ == "❌ "@
                + crate::paths::bad_path_message(folder@),
        },
{
    if is_root_folder(folder) {
        Ok(String::from_str(base))
    } else {
        match safe_join(base, folder) {
            Ok(p) => Ok(p),
            Err(e) => {
                let mut m: Vec<char> = Vec::new();
                push_str(&mut m, "❌ ");
                push_str(&mut m, e.as_str());
                Err(string_of(&m))
            },
        }
    }
}

/// The path of an uploaded file inside the pack, and that of its packwiz
/// `.toml` (the file's stem with the extension `toml`).
pub open spec fn upload_paths(folder: Seq<char>, filename: Seq<char>) -> (Seq<char>, Seq<char>) {
    let dir = if root_folder(folder) {
        seq![]
    } else {
        folder + "/"@
    };
    (dir + filename, dir + file_stem(filename) + ".toml"@)
}

/// The path of an uploaded file inside the pack, and that of its `.toml`.
pub fn uploaded_paths(folder: &str, filename: &str) -> (r: (String, String))
    ensures
        (r.0@, r.1@) == upload_paths(folder@, filename@),
{
    let mut dir: Vec<char> = Vec::new();
    if !is_root_folder(folder) {
        push_str(&mut dir, folder);
        push_str(&mut dir, "/");
    }
    let mut a = dir.clone();
    push_str(&mut a, filename);
    let (stem, _) = split_extension(filename);
    let mut b = dir.clone();
    push_str(&mut b, stem.as_str());
    push_str(&mut b, ".toml");
    (string_of(&a), string_of(&b))
}

/// The last piece of a path that names a file or folder (`Path::file_name`):
/// none where the path ends in `..` or has no such piece.
pub open spec fn file_name(path: Seq<char>) -> Option<Seq<char>> {
    match last_named(segments(path)) {
        Some(n) => if n == seq!['.', '.'] {
            None
        } else {
            Some(n)
        },
        None => None,
    }
}

/// The last named piece.
pub open spec fn last_named(segs: Seq<Seq<char>>) -> Option<Seq<char>>
    decreases segs.len(),
{
    if segs.len() == 0 {
        None
    } else if is_named(segs.last()) {
        Some(segs.last())
    } else {
        last_named(segs.drop_last())
    }
}

/// The name under which a pack's cover image is kept: the pack key and the
/// extension of the uploaded file's name (`png` where it has none).
pub open spec fn cover_image_name(pack_key: Seq<char>, upload_name: Seq<char>) -> Seq<char> {
    let ext = match file_name(upload_name) {
        Some(n) => match extension(n) {
            Some(e) => e,
            None => "png"@,
        },
        None => "png"@,
    };
    pack_key + "."@ + ext
}

fn file_name_exec(path: &str) -> (r: Option<String>)
    ensures
        match r {
            Some(n) => file_name(path@) == Some(n@),
            None => file_name(path@) is None,
        },
{
    let p = chars_of(path);
    let segs = split_char(&p, '/');
    proof {
        crate::paths::lemma_split_is_segments(p@);
    }
    let ghost v = views(segs@);
    assert(v == segments(path@));
    let mut j: usize = segs.len();
    assert(v.take(segs.len() as int) =~= v);
    let dot: Vec<char> = vec!['.'];
    let dotdot: Vec<char> = vec!['.', '.'];
    assert(dot@ =~= seq!['.']);
    assert(dotdot@ =~= seq!['.', '.']);
    while j > 0
        invariant
            j <= segs.len(),
            v == views(segs@),
            v == segments(path@),
            dot@ == seq!['.'],
            dotdot@ == seq!['.', '.'],
            last_named(v) == last_named(v.take(j as int)),
        decreases j,
    {
        assert(v.take(j as int).last() == segs@[j - 1]@);
        assert(v.take(j as int).drop_last() =~= v.take(j - 1));
        if segs[j - 1].len() > 0 && !eq_vec(&segs[j - 1], &dot) {
            assert(is_named(v.take(j as int).last()));
            assert(last_named(v.take(j as int)) == Some(segs@[j - 1]@));
            assert(last_named(segments(path@)) == Some(segs@[j - 1]@));
            if eq_vec(&segs[j - 1], &dotdot) {
                return None;
            }
            return Some(string_of(&segs[j - 1]));
        }
        j = j - 1;
    }
    None
}

/// The name of a pack's cover image from the name of the uploaded file.
pub fn cover_image_filename(pack_key: &str, upload_name: &str) -> (r: String)
    ensures
        r@ == cover_image_name(pack_key@, upload_name@),
{
    let mut out: Vec<char> = Vec::new();
    push_str(&mut out, pack_key);
    push_str(&mut out, ".");
    match file_name_exec(upload_name) {
        Some(n) => {
            let (_, ext) = split_extension(n.as_str());
            match ext {
                Some(e) => push_str(&mut out, e.as_str()),
                None => push_str(&mut out, "png"),
            }
        },
        None => push_str(&mut out, "png"),
    }
    string_of(&out)
}

// ---------------------------------------------------------------------------
// Running packwiz
// ---------------------------------------------------------------------------

fn push_owned(v: &mut Vec<String>, s: &str)
    ensures
        crate::text::str_views(final(v)@) == crate::text::str_views(old(v)@).push(s@),
{
    let ghost before = crate::text::str_views(v@);
    v.push(String::from_str(s));
    assert(crate::text::str_views(v@) =~= before.push(s@));
}

/// The arguments of `packwiz init` for a server's pack.
pub fn packwiz_init_args(id: &str, mc_version: &str, loader: &str) -> (r: Vec<String>)
    ensures
        crate::text::str_views(r@) == seq![
            "init"@,
            "--name"@,
            id@,
            "--author"@,
            "Lumineria"@,
            "--mc-version"@,
            mc_version@,
            "--modloader"@,
            loader@,
            "-y"@,
        ],
{
    let mut v: Vec<String> = Vec::new();
    push_owned(&mut v, "init");
    push_owned(&mut v, "--name");
    push_owned(&mut v, id);
    push_owned(&mut v, "--author");
    push_owned(&mut v, "Lumineria");
    push_owned(&mut v, "--mc-version");
    push_owned(&mut v, mc_version);
    push_owned(&mut v, "--modloader");
    push_owned(&mut v, loader);
    push_owned(&mut v, "-y");
    assert(crate::text::str_views(v@) =~= seq![
        "init"@,
        "--name"@,
        id@,
        "--author"@,
        "Lumineria"@,
        "--mc-version"@,
        mc_version@,
        "--modloader"@,
        loader@,
        "-y"@,
    ]);
    v
}

/// Why `packwiz init` failed: what it printed on its errors, else on its
/// output, trimmed.
pub fn init_failure_message(id: &str, stderr: &str, stdout: &str) -> (r: String)
    ensures
        r@ == "No pude inicializar packwiz para '"@ + id@ + "': "@ + (if trim(stderr@).len() > 0 {
            trim(stderr@)
        } else {
            trim(stdout@)
        }),
{
    let mut out: Vec<char> = Vec::new();
    push_str(&mut out, "No pude inicializar packwiz para '");
    push_str(&mut out, id);
    push_str(&mut out, "': ");
    let e = trim_vec(&chars_of(stderr));
    if e.len() > 0 {
        extend(&mut out, &e);
    } else {
        let o = trim_vec(&chars_of(stdout));
        extend(&mut out, &o);
    }
    string_of(&out)
}

/// The arguments of packwiz that add the mod a query names: from CurseForge
/// for its links, else from Modrinth.
pub fn mod_add_args(query: &str) -> (r: Vec<String>)
    ensures
        crate::text::str_views(r@) == seq![
            if contains_seq(query@, "curseforge.com"@) {
                "cf"@
            } else {
                "modrinth"@
            },
            "add"@,
            query@,
            "-y"@,
        ],
{
    let mut v: Vec<String> = Vec::new();
    push_owned(&mut v, crate::naming::mod_source_for_query(query));
    push_owned(&mut v, "add");
    push_owned(&mut v, query);
    push_owned(&mut v, "-y");
    assert(crate::text::str_views(v@) =~= seq![
        if contains_seq(query@, "curseforge.com"@) {
            "cf"@
        } else {
            "modrinth"@
        },
        "add"@,
        query@,
        "-y"@,
    ]);
    v
}

/// What a packwiz command printed, as log lines: its output, then its errors,
/// each trimmed, where it printed anything.
pub fn command_log_lines(stdout: &str, stderr: &str) -> (r: Vec<String>)
    ensures
        crate::text::str_views(r@) == (if stdout@.len() > 0 {
            seq![trim(stdout@)]
        } else {
            seq![]
        }) + (if stderr@.len() > 0 {
            seq![trim(stderr@)]
        } else {
            seq![]
        }),
{
    let mut v: Vec<String> = Vec::new();
    let o = chars_of(stdout);
    let e = chars_of(stderr);
    let ghost first = if stdout@.len() > 0 {
        seq![trim(stdout@)]
    } else {
        Seq::<Seq<char>>::empty()
    };
    if o.len() > 0 {
        let t = trim_vec(&o);
        v.push(string_of(&t));
    }
    assert(crate::text::str_views(v@) =~= first);
    if e.len() > 0 {
        let t = trim_vec(&e);
        let s = string_of(&t);
        let ghost sv = s@;
        v.push(s);
        assert(crate::text::str_views(v@) =~= first.push(sv));
    }
    proof {
        if stderr@.len() > 0 {
            assert(first + seq![trim(stderr@)] =~= first.push(trim(stderr@)));
        } else {
            assert(first + Seq::<Seq<char>>::empty() =~= first);
        }
    }
    v
}

} // verus!
