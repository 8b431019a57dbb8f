//! Names the agent derives from a server's type and version: container image,
//! loader names and URLs, plugin files and requirement lists.
use vstd::prelude::*;
use vstd::utf8::encode_utf8;
use crate::numbers::{is_digit, parse_unsigned, parse_unsigned_chars};
use crate::protocol::PluginSource;
use crate::text::{
    chars_of, contains_seq, contains_vec, ends_with, ends_with_vec, eq_ignore_ascii_case,
    eq_ignore_ascii_case_str, extend, lowercase, ascii_lowercase, ascii_upper_char, is_ascii_text,
    push_str, slice_of, split, split_char, starts_with, starts_with_vec, str_is, string_of,
    to_lowercase, views,
};

verus! {

// ---------------------------------------------------------------------------
// The Java image of a server
// ---------------------------------------------------------------------------

/// A piece of a version that `parse::<u32>` reads, or `default`.
pub open spec fn version_part(parts: Seq<Seq<char>>, i: int, default: nat) -> nat {
    if i < parts.len() && parse_unsigned(parts[i], 4294967295) is Some {
        parse_unsigned(parts[i], 4294967295)->0
    } else {
        default
    }
}

/// The Java image that runs a server: Java 25 for the proxy, else by the
/// Minecraft version `1.MINOR.PATCH` (minor 21 and patch 0 where unreadable):
/// Java 8 before 1.17, Java 17 before 1.20.5, Java 21 from there on.
pub open spec fn java_image(server_type: Seq<char>, mc_version: Seq<char>) -> Seq<char> {
    let parts = split(mc_version, '.');
    let minor = version_part(parts, 1, 21);
    let patch = version_part(parts, 2, 0);
    if server_type == "velocity"@ {
        "docker.io/library/eclipse-temurin:25-jre"@
    } else if minor < 17 {
        "docker.io/library/eclipse-temurin:8-jre"@
    } else if minor < 20 || (minor == 20 && patch < 5) {
        "docker.io/library/eclipse-temurin:17-jre"@
    } else {
        "docker.io/library/eclipse-temurin:21-jre"@
    }
}

/// The minor and patch numbers of a Minecraft version `1.MINOR.PATCH`, as the
/// image is chosen by them (21 and 0 where unreadable).
pub open spec fn mc_minor_patch(mc_version: Seq<char>) -> (nat, nat) {
    let parts = split(mc_version, '.');
    (version_part(parts, 1, 21), version_part(parts, 2, 0))
}

/// The Java release for a minor and patch number: 8, 17 or 21.
pub open spec fn java_release(minor: nat, patch: nat) -> nat {
    if minor < 17 {
        8
    } else if minor < 20 || (minor == 20 && patch < 5) {
        17
    } else {
        21
    }
}

/// The Temurin image of a Java release.
pub open spec fn temurin_image(java: nat) -> Seq<char> {
    if java == 8 {
        "docker.io/library/eclipse-temurin:8-jre"@
    } else if java == 17 {
        "docker.io/library/eclipse-temurin:17-jre"@
    } else if java == 21 {
        "docker.io/library/eclipse-temurin:21-jre"@
    } else {
        "docker.io/library/eclipse-temurin:25-jre"@
    }
}

/// The servers other than the proxy run on a Java release that never goes down
/// as the Minecraft version goes up: where `(minor, patch)` of the first
/// version comes no later than that of the second, so does its Java release.
pub proof fn law_java_grows_with_minecraft(server_type: Seq<char>, v1: Seq<char>, v2: Seq<char>)
    requires
        server_type != "velocity"@,
        mc_minor_patch(v1).0 < mc_minor_patch(v2).0 || (mc_minor_patch(v1).0 == mc_minor_patch(
            v2,
        ).0 && mc_minor_patch(v1).1 <= mc_minor_patch(v2).1),
    ensures
        java_image(server_type, v1) == temurin_image(
            java_release(mc_minor_patch(v1).0, mc_minor_patch(v1).1),
        ),
        java_image(server_type, v2) == temurin_image(
            java_release(mc_minor_patch(v2).0, mc_minor_patch(v2).1),
        ),
        java_release(mc_minor_patch(v1).0, mc_minor_patch(v1).1) <= java_release(
            mc_minor_patch(v2).0,
            mc_minor_patch(v2).1,
        ),
{
}

fn version_part_exec(parts: &Vec<Vec<char>>, i: usize, default: u64) -> (r: u64)
    ensures
        r as nat == version_part(views(parts@), i as int, default as nat),
{
    if i < parts.len() {
        assert(views(parts@)[i as int] == parts@[i as int]@);
        match parse_unsigned_chars(&parts[i], 4294967295) {
            Some(v) => v,
            None => default,
        }
    } else {
        default
    }
}

/// The container image that runs a server of this type and Minecraft version.
pub fn java_image_for(server_type: &str, mc_version: &str) -> (r: &'static str)
    ensures
        r@ == java_image(server_type@, mc_version@),
{
    if str_is(server_type, "velocity") {
        return "docker.io/library/eclipse-temurin:25-jre";
    }
    let v = chars_of(mc_version);
    let parts = split_char(&v, '.');
    let minor = version_part_exec(&parts, 1, 21);
    let patch = version_part_exec(&parts, 2, 0);
    if minor < 17 {
        "docker.io/library/eclipse-temurin:8-jre"
    } else if minor < 20 || (minor == 20 && patch < 5) {
        "docker.io/library/eclipse-temurin:17-jre"
    } else {
        "docker.io/library/eclipse-temurin:21-jre"
    }
}

// ---------------------------------------------------------------------------
// Loaders
// ---------------------------------------------------------------------------

/// The name for what `char::to_uppercase` gives, collected into a string.
pub uninterp spec fn uppercase_char(c: char) -> Seq<char>;

/// `c.to_uppercase()` collected into a string (std's Unicode upper-casing): for
/// an ASCII character, `a` to `z` become `A` to `Z` and the rest stays, as its
/// documentation gives it.
#[verifier::external_body]
fn char_to_uppercase(c: char) -> (r: String)
    ensures
        r@ == uppercase_char(c),
        (c as u32) < 128 ==> r@ == seq![ascii_upper_char(c)],
{
    c.to_uppercase().collect()
}

/// The display name of a loader: the known ones spelled as their projects spell
/// them, any other with its first character upper-cased (after lower-casing).
pub open spec fn loader_display_name(server_type: Seq<char>) -> Seq<char> {
    let l = lowercase(server_type);
    display_name_from(
        l,
        if l.len() > 0 {
            uppercase_char(l[0])
        } else {
            seq![]
        },
    )
}

/// The display name of a loader from its lower-cased type `l`, `first` being
/// the upper-cased first character of `l`.
pub open spec fn display_name_from(l: Seq<char>, first: Seq<char>) -> Seq<char> {
    if l == "neoforge"@ {
        "NeoForge"@
    } else if l == "forge"@ {
        "Forge"@
    } else if l == "fabric"@ {
        "Fabric"@
    } else if l == "paper"@ {
        "Paper"@
    } else if l == "velocity"@ {
        "Velocity"@
    } else if l == "folia"@ {
        "Folia"@
    } else if l.len() == 0 {
        l
    } else {
        first + l.drop_first()
    }
}

/// The display name of a loader whose type is ASCII text.
pub open spec fn ascii_display_name(server_type: Seq<char>) -> Seq<char> {
    display_name_from(
        ascii_lowercase(server_type),
        if server_type.len() > 0 {
            seq![ascii_upper_char(server_type[0])]
        } else {
            seq![]
        },
    )
}

/// The lower-cased form of ASCII text is ASCII, and its first character
/// upper-cases as the text's own first character does.
proof fn lemma_ascii_lower_first(s: Seq<char>)
    requires
        is_ascii_text(s),
        s.len() > 0,
    ensures
        (ascii_lowercase(s)[0] as u32) < 128,
        ascii_upper_char(ascii_lowercase(s)[0]) == ascii_upper_char(s[0]),
{
    let c = s[0];
    assert((c as u32) < 128);
    if 'A' <= c && c <= 'Z' {
        assert(ascii_lowercase(s)[0] == ((c as u32) + 32) as char);
    }
}

/// The display name of a server's loader in the modpack catalogue.
pub fn display_loader_name(server_type: &str) -> (r: String)
    ensures
        r@ == loader_display_name(server_type@),
        is_ascii_text(server_type@) ==> r@ == ascii_display_name(server_type@),
{
    let low = to_lowercase(server_type);
    proof {
        if is_ascii_text(server_type@) && server_type@.len() > 0 {
            lemma_ascii_lower_first(server_type@);
        }
    }
    let l = low.as_str();
    if str_is(l, "neoforge") {
        String::from_str("NeoForge")
    } else if str_is(l, "forge") {
        String::from_str("Forge")
    } else if str_is(l, "fabric") {
        String::from_str("Fabric")
    } else if str_is(l, "paper") {
        String::from_str("Paper")
    } else if str_is(l, "velocity") {
        String::from_str("Velocity")
    } else if str_is(l, "folia") {
        String::from_str("Folia")
    } else {
        let cs = chars_of(l);
        if cs.len() == 0 {
            return String::from_str(l);
        }
        let first = char_to_uppercase(cs[0]);
        let mut out = chars_of(first.as_str());
        let rest = slice_of(&cs, 1, cs.len());
        assert(rest@ =~= cs@.drop_first());
        extend(&mut out, &rest);
        string_of(&out)
    }
}

/// The URL of the installer of a NeoForge or Forge build; empty for others.
pub open spec fn installer_url(server_type: Seq<char>, build: Seq<char>) -> Seq<char> {
    installer_url_from(lowercase(server_type), build)
}

/// The installer URL for the lower-cased type `l`.
pub open spec fn installer_url_from(l: Seq<char>, build: Seq<char>) -> Seq<char> {
    if l == "neoforge"@ {
        neoforge_installer_url(build)
    } else if l == "forge"@ {
        forge_installer_url(build)
    } else {
        seq![]
    }
}

/// The URL of the NeoForge installer of a build.
pub open spec fn neoforge_installer_url(build: Seq<char>) -> Seq<char> {
    "https://maven.neoforged.net/releases/net/neoforged/neoforge/"@ + build + "/neoforge-"@ + build
        + "-installer.jar"@
}

/// The URL of the Forge installer of a build.
pub open spec fn forge_installer_url(build: Seq<char>) -> Seq<char> {
    "https://maven.minecraftforge.net/net/minecraftforge/forge/"@ + build + "/forge-"@ + build
        + "-installer.jar"@
}

/// The NeoForge installer URL of a build.
pub fn neoforge_url(build: &str) -> (r: String)
    ensures
        r@ == neoforge_installer_url(build@),
{
    let mut out: Vec<char> = Vec::new();
    push_str(&mut out, "https://maven.neoforged.net/releases/net/neoforged/neoforge/");
    push_str(&mut out, build);
    push_str(&mut out, "/neoforge-");
    push_str(&mut out, build);
    push_str(&mut out, "-installer.jar");
    string_of(&out)
}

/// The Forge installer URL of a build.
pub fn forge_url(build: &str) -> (r: String)
    ensures
        r@ == forge_installer_url(build@),
{
    let mut out: Vec<char> = Vec::new();
    push_str(&mut out, "https://maven.minecraftforge.net/net/minecraftforge/forge/");
    push_str(&mut out, build);
    push_str(&mut out, "/forge-");
    push_str(&mut out, build);
    push_str(&mut out, "-installer.jar");
    string_of(&out)
}

/// The installer URL that the modpack catalogue gives for a server's loader.
pub fn loader_installer_url(server_type: &str, build: &str) -> (r: String)
    ensures
        r@ == installer_url(server_type@, build@),
        is_ascii_text(server_type@) ==> r@ == installer_url_from(
            ascii_lowercase(server_type@),
            build@,
        ),
{
    let low = to_lowercase(server_type);
    if str_is(low.as_str(), "neoforge") {
        neoforge_url(build)
    } else if str_is(low.as_str(), "forge") {
        forge_url(build)
    } else {
        String::new()
    }
}

/// The version id of a pack: the lower-cased type, a dash, and the engine build,
/// or `desconocida` where the build is missing or empty.
pub open spec fn version_id(server_type: Seq<char>, build: Option<Seq<char>>) -> Seq<char> {
    version_id_from(lowercase(server_type), build)
}

/// The version id of a pack from the lower-cased type `l`.
pub open spec fn version_id_from(l: Seq<char>, build: Option<Seq<char>>) -> Seq<char> {
    match build {
        Some(b) if b.len() > 0 => l + "-"@ + b,
        _ => l + "-desconocida"@,
    }
}

/// The version id of a published pack.
pub fn version_id_for(server_type: &str, build: &Option<String>) -> (r: String)
    ensures
        r@ == version_id(
            server_type@,
            match build {
                Some(b) => Some(b@),
                None => None,
            },
        ),
        is_ascii_text(server_type@) ==> r@ == version_id_from(
            ascii_lowercase(server_type@),
            match build {
                Some(b) => Some(b@),
                None => None,
            },
        ),
{
    let low = to_lowercase(server_type);
    let mut out = chars_of(low.as_str());
    match build {
        Some(b) => {
            let bc = chars_of(b.as_str());
            if bc.len() > 0 {
                push_str(&mut out, "-");
                extend(&mut out, &bc);
            } else {
                push_str(&mut out, "-desconocida");
            }
        },
        None => {
            push_str(&mut out, "-desconocida");
        },
    }
    string_of(&out)
}

/// Engines that load plugins downloaded directly: Paper, Folia, Spigot, Velocity.
pub open spec fn direct_plugins(server_type: Seq<char>) -> bool {
    direct_plugins_from(lowercase(server_type))
}

/// Whether the lower-cased type `l` is one whose plugins are downloaded directly.
pub open spec fn direct_plugins_from(l: Seq<char>) -> bool {
    l == "paper"@ || l == "folia"@ || l == "spigot"@ || l == "velocity"@
}

/// Whether a server of this type gets its plugins downloaded directly.
pub fn uses_direct_plugins(server_type: &str) -> (r: bool)
    ensures
        r == direct_plugins(server_type@),
        is_ascii_text(server_type@) ==> r == direct_plugins_from(ascii_lowercase(server_type@)),
{
    let low = to_lowercase(server_type);
    let l = low.as_str();
    str_is(l, "paper") || str_is(l, "folia") || str_is(l, "spigot") || str_is(l, "velocity")
}

/// The `loaders` query of Modrinth for a server type: Velocity's, else the
/// plugin servers'.
pub fn modrinth_loaders_param(server_type: &str) -> (r: &'static str)
    ensures
        r@ == if eq_ignore_ascii_case(server_type@, "velocity"@) {
            "%5B%22velocity%22%5D"@
        } else {
            "%5B%22paper%22%2C%22folia%22%2C%22spigot%22%5D"@
        },
{
    if eq_ignore_ascii_case_str(server_type, "velocity") {
        "%5B%22velocity%22%5D"
    } else {
        "%5B%22paper%22%2C%22folia%22%2C%22spigot%22%5D"
    }
}

/// The requirements list of a plugin source.
pub fn requirements_file_for(source: PluginSource) -> (r: &'static str)
    ensures
        r@ == match source {
            PluginSource::Modrinth => "modrinth.txt"@,
            PluginSource::Github => "github.txt"@,
            PluginSource::Direct => "direct_links.txt"@,
        },
{
    match source {
        PluginSource::Modrinth => "modrinth.txt",
        PluginSource::Github => "github.txt",
        PluginSource::Direct => "direct_links.txt",
    }
}

// ---------------------------------------------------------------------------
// Plugin files
// ---------------------------------------------------------------------------

/// `s.trim_end_matches(p)`: `p` taken off the end as often as it is there.
pub open spec fn strip_suffix_all(s: Seq<char>, p: Seq<char>) -> Seq<char>
    decreases s.len(),
{
    if p.len() > 0 && ends_with(s, p) {
        strip_suffix_all(s.take(s.len() - p.len()), p)
    } else {
        s
    }
}

/// The dash-joined pieces of a name up to the first that starts with a digit.
pub open spec fn join_until_digit(parts: Seq<Seq<char>>, acc: Seq<char>) -> Seq<char>
    decreases parts.len(),
{
    if parts.len() == 0 {
        acc
    } else if parts[0].len() > 0 && is_digit(parts[0][0]) {
        acc
    } else {
        join_until_digit(
            parts.drop_first(),
            if acc.len() > 0 {
                acc + "-"@ + parts[0]
            } else {
                acc + parts[0]
            },
        )
    }
}

/// The name of a plugin without its version: the pieces of the file name (without
/// `.jar`) before the first that starts with a digit; the whole name where that
/// leaves fewer than three bytes.
pub open spec fn plugin_base(filename: Seq<char>) -> Seq<char> {
    let no_ext = strip_suffix_all(filename, ".jar"@);
    let prefix = join_until_digit(split(no_ext, '-'), seq![]);
    if encode_utf8(prefix).len() < 3 {
        no_ext
    } else {
        prefix
    }
}

fn strip_suffix_all_vec(s: &Vec<char>, p: &Vec<char>) -> (r: Vec<char>)
    ensures
        r@ == strip_suffix_all(s@, p@),
{
    let mut cur = s.clone();
    assert(cur@ == s@);
    while p.len() > 0 && ends_with_vec(&cur, p)
        invariant
            strip_suffix_all(s@, p@) == strip_suffix_all(cur@, p@),
        decreases cur.len(),
    {
        let next = slice_of(&cur, 0, cur.len() - p.len());
        assert(next@ =~= cur@.take(cur@.len() - p@.len()));
        cur = next;
    }
    cur
}

/// The name of a plugin without its version (see `plugin_base`).
pub fn plugin_prefix(filename: &str) -> (r: String)
    ensures
        r@ == plugin_base(filename@),
{
    let f = chars_of(filename);
    let jar = chars_of(".jar");
    let no_ext = strip_suffix_all_vec(&f, &jar);
    let parts = split_char(&no_ext, '-');
    let ghost ps = views(parts@);
    let mut prefix: Vec<char> = Vec::new();
    let mut i: usize = 0;
    assert(ps.skip(0) =~= ps);
    while i < parts.len()
        invariant
            i <= parts.len(),
            ps == views(parts@),
            join_until_digit(ps, seq![]) == join_until_digit(ps.skip(i as int), prefix@),
        ensures
            join_until_digit(ps, seq![]) == prefix@,
        decreases parts.len() - i,
    {
        assert(ps.skip(i as int)[0] == parts@[i as int]@);
        if parts[i].len() > 0 && '0' <= parts[i][0] && parts[i][0] <= '9' {
            break;
        }
        assert(ps.skip(i as int).drop_first() =~= ps.skip(i + 1));
        if prefix.len() > 0 {
            push_str(&mut prefix, "-");
        }
        extend(&mut prefix, &parts[i]);
        i = i + 1;
    }
    assert(i == parts.len() ==> ps.skip(i as int) =~= seq![]);
    let ps_str = string_of(&prefix);
    if ps_str.as_str().as_bytes().len() < 3 {
        string_of(&no_ext)
    } else {
        ps_str
    }
}

/// Whether an old plugin file is to go when `keep` is downloaded: a different
/// name (ignoring ASCII case) that, lower-cased, starts with the lower-cased base
/// name of `keep`, where that base has at least three bytes.
pub open spec fn replaces_plugin(name: Seq<char>, keep: Seq<char>) -> bool {
    let prefix = lowercase(plugin_base(keep));
    encode_utf8(prefix).len() >= 3 && !eq_ignore_ascii_case(name, keep) && starts_with(
        lowercase(name),
        prefix,
    )
}

/// Whether the plugin file `name` is an older version of `keep`.
pub fn is_old_plugin(name: &str, keep: &str) -> (r: bool)
    ensures
        r == replaces_plugin(name@, keep@),
{
    let base = plugin_prefix(keep);
    let prefix = to_lowercase(base.as_str());
    if prefix.as_str().as_bytes().len() < 3 {
        return false;
    }
    if eq_ignore_ascii_case_str(name, keep) {
        return false;
    }
    let low = to_lowercase(name);
    let a = chars_of(low.as_str());
    let b = chars_of(prefix.as_str());
    starts_with_vec(&a, &b)
}

/// Cleaning up after a download never removes the file just downloaded: a
/// plugin never counts as an older version of itself, whatever the case of
/// its letters.
pub proof fn law_plugin_never_replaces_itself(name: Seq<char>, keep: Seq<char>)
    requires
        eq_ignore_ascii_case(name, keep),
    ensures
        !replaces_plugin(name, keep),
{
}

/// The file name of a plugin downloaded from a link: the last piece of the URL
/// before any `?`, with `.jar` added where it does not end so.
pub open spec fn direct_plugin_file(url: Seq<char>) -> Seq<char> {
    let last = split(url, '/').last();
    let name = split(last, '?')[0];
    if ends_with(name, ".jar"@) {
        name
    } else {
        name + ".jar"@
    }
}

/// The file name under which a plugin link is saved.
pub fn direct_plugin_name(url: &str) -> (r: String)
    ensures
        r@ == direct_plugin_file(url@),
{
    let u = chars_of(url);
    let pieces = split_char(&u, '/');
    let last = pieces[pieces.len() - 1].clone();
    assert(last@ == split(url@, '/').last());
    let parts = split_char(&last, '?');
    let mut name = parts[0].clone();
    assert(name@ == split(last@, '?')[0]);
    let jar = chars_of(".jar");
    if !ends_with_vec(&name, &jar) {
        extend(&mut name, &jar);
    }
    string_of(&name)
}

// ---------------------------------------------------------------------------
// Client-only files of a modpack
// ---------------------------------------------------------------------------

/// The file names that only a client uses.
pub open spec fn client_only_name(n: Seq<char>) -> bool {
    n == "options.txt"@ || n == "optionsof.txt"@ || n == "optionsshaders.txt"@ || n
        == "servers.dat"@ || n == "servers.dat_old"@ || n == "usercache.json"@ || n
        == "usernamecache.json"@ || n == "hotbar.nbt"@ || n == "realms_persistence.json"@
}

/// A folder of client-only content: its top folder is `resourcepacks` or
/// `shaderpacks` (ignoring case).
pub open spec fn client_only_category(folder: Seq<char>) -> bool {
    let top = lowercase(split(folder, '/')[0]);
    top == "resourcepacks"@ || top == "shaderpacks"@
}

/// Whether a folder of the modpack holds client-only content.
pub fn is_client_only_category(folder: &str) -> (r: bool)
    ensures
        r == client_only_category(folder@),
{
    let f = chars_of(folder);
    let parts = split_char(&f, '/');
    let top = string_of(&parts[0]);
    let low = to_lowercase(top.as_str());
    str_is(low.as_str(), "resourcepacks") || str_is(low.as_str(), "shaderpacks")
}

/// Whether an uploaded file is client-only: by its folder, or by its name.
pub fn is_client_only_file(folder: &str, filename: &str) -> (r: bool)
    ensures
        r == (client_only_category(folder@) || client_only_name(lowercase(filename@))),
{
    if is_client_only_category(folder) {
        return true;
    }
    let low = to_lowercase(filename);
    let n = low.as_str();
    str_is(n, "options.txt") || str_is(n, "optionsof.txt") || str_is(n, "optionsshaders.txt")
        || str_is(n, "servers.dat") || str_is(n, "servers.dat_old") || str_is(n, "usercache.json")
        || str_is(n, "usernamecache.json") || str_is(n, "hotbar.nbt") || str_is(
        n,
        "realms_persistence.json",
    )
}

/// The packwiz source of a mod query: CurseForge for its links, else Modrinth.
pub fn mod_source_for_query(query: &str) -> (r: &'static str)
    ensures
        r@ == if contains_seq(query@, "curseforge.com"@) {
            "cf"@
        } else {
            "modrinth"@
        },
{
    let q = chars_of(query);
    let p = chars_of("curseforge.com");
    if contains_vec(&q, &p) {
        "cf"
    } else {
        "modrinth"
    }
}

} // verus!
