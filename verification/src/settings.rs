//! Publication settings, URLs, tokens, and the answers the agent sends for
//! simple actions.
use vstd::prelude::*;
use rand::RngCore;
use crate::env::{
    env_value, env_with_key, law_env_read_after_update, law_env_update_keeps_other_keys,
    read_env_value,
};
use crate::numbers::{parse_unsigned, parse_unsigned_chars};
use crate::paths::{path_join, path_push};
use crate::protocol::ServerEvent;
use crate::text::{
    chars_of, extend, has_char, push_str, slice_of, split, split_char, starts_with, starts_with_vec,
    is_ws, str_is, string_of, strip_end_char, trim, trim_end, trim_start, trim_vec, views,
};

verus! {

// ---------------------------------------------------------------------------
// The proxy's settings in `server.env`
// ---------------------------------------------------------------------------

/// The port and MOTD that `velocity.toml` is patched with: `SERVER_PORT` (25577
/// where missing or not a port) and `SERVER_MOTD` where it is not empty.
pub open spec fn velocity_settings_of(env_data: Seq<char>) -> (u16, Option<Seq<char>>) {
    let port: u16 = match env_value(env_data, "SERVER_PORT"@) {
        Some(v) => match parse_unsigned(v, 65535) {
            Some(p) => p as u16,
            None => 25577,
        },
        None => 25577,
    };
    let motd = match env_value(env_data, "SERVER_MOTD"@) {
        Some(m) => if m.len() > 0 {
            Some(m)
        } else {
            None
        },
        None => None,
    };
    (port, motd)
}

/// The port and MOTD of a proxy from its `server.env`.
pub fn velocity_settings(env_data: &str) -> (r: (u16, Option<String>))
    ensures
        (r.0, match r.1 {
            Some(m) => Some(m@),
            None => None,
        }) == velocity_settings_of(env_data@),
{
    let port: u16 = match read_env_value(env_data, "SERVER_PORT") {
        Some(v) => {
            let c = chars_of(v.as_str());
            match parse_unsigned_chars(&c, 65535) {
                Some(p) => p as u16,
                None => 25577,
            }
        },
        None => 25577,
    };
    let motd = match read_env_value(env_data, "SERVER_MOTD") {
        Some(m) => {
            let c = chars_of(m.as_str());
            if c.len() > 0 {
                Some(m)
            } else {
                None
            }
        },
        None => None,
    };
    (port, motd)
}

/// The Minecraft version that plugin downloads ask for: the manual hint
/// `VELOCITY_PLUGIN_MC_VERSION`, else `MC_VERSION`, each only where not empty.
pub open spec fn plugin_hint_of(env_data: Seq<char>) -> Option<Seq<char>> {
    match env_value(env_data, "VELOCITY_PLUGIN_MC_VERSION"@) {
        Some(v) if v.len() > 0 => Some(v),
        _ => match env_value(env_data, "MC_VERSION"@) {
            Some(v) if v.len() > 0 => Some(v),
            _ => None,
        },
    }
}

/// The Minecraft version that plugin downloads ask for, from `server.env`.
pub fn plugin_mc_hint(env_data: &str) -> (r: Option<String>)
    ensures
        match r {
            Some(v) => plugin_hint_of(env_data@) == Some(v@),
            None => plugin_hint_of(env_data@) is None,
        },
{
    match read_env_value(env_data, "VELOCITY_PLUGIN_MC_VERSION") {
        Some(v) => {
            let c = chars_of(v.as_str());
            if c.len() > 0 {
                return Some(v);
            }
        },
        None => {},
    }
    match read_env_value(env_data, "MC_VERSION") {
        Some(v) => {
            let c = chars_of(v.as_str());
            if c.len() > 0 {
                Some(v)
            } else {
                None
            }
        },
        None => None,
    }
}

/// What the client is told after the plugin version is set: cleared where
/// empty, else the version saved.
pub open spec fn hint_saved_text(value: Seq<char>) -> Seq<char> {
    if value.len() == 0 {
        "Versión de referencia para Modrinth borrada."@
    } else {
        "Versión de referencia para Modrinth guardada: "@ + value
    }
}

/// The message that confirms the Minecraft version for plugin downloads.
pub fn hint_saved_message(value: &str) -> (r: String)
    ensures
        r@ == hint_saved_text(value@),
{
    let v = chars_of(value);
    if v.len() == 0 {
        String::from_str("Versión de referencia para Modrinth borrada.")
    } else {
        let mut out = chars_of("Versión de referencia para Modrinth guardada: ");
        push_str(&mut out, value);
        string_of(&out)
    }
}

/// Once the plugin version is set in `server.env`, plugin downloads ask for
/// it (a version on one line that neither starts nor ends with a quote).
pub proof fn law_hint_set_is_used(content: Seq<char>, version: Seq<char>)
    requires
        version.len() > 0,
        !has_char(version, '\n'),
        version[0] != '"',
        version.last() != '"',
    ensures
        plugin_hint_of(env_with_key(content, "VELOCITY_PLUGIN_MC_VERSION"@, version)) == Some(
            version,
        ),
{
    lemma_hint_key_one_line();
    law_env_read_after_update(content, "VELOCITY_PLUGIN_MC_VERSION"@, version);
}

/// Once the plugin version is cleared, plugin downloads ask for the server's
/// own `MC_VERSION` again, as they did before one was set.
pub proof fn law_hint_cleared_falls_back(content: Seq<char>)
    ensures
        plugin_hint_of(env_with_key(content, "VELOCITY_PLUGIN_MC_VERSION"@, seq![])) == match env_value(
            content,
            "MC_VERSION"@,
        ) {
            Some(v) if v.len() > 0 => Some(v),
            _ => None,
        },
{
    let k = "VELOCITY_PLUGIN_MC_VERSION"@;
    lemma_hint_key_one_line();
    assert(!has_char(seq![], '\n'));
    law_env_read_after_update(content, k, seq![]);
    law_env_update_keeps_other_keys(content, k, seq![], "MC_VERSION"@);
}

proof fn lemma_hint_key_one_line()
    ensures
        !has_char("VELOCITY_PLUGIN_MC_VERSION"@, '\n'),
        !has_char("VELOCITY_PLUGIN_MC_VERSION"@, '='),
        !has_char("MC_VERSION"@, '='),
        "VELOCITY_PLUGIN_MC_VERSION"@ != "MC_VERSION"@,
{
    reveal_strlit("VELOCITY_PLUGIN_MC_VERSION");
    reveal_strlit("MC_VERSION");
    assert("VELOCITY_PLUGIN_MC_VERSION"@.len() != "MC_VERSION"@.len());
}

// ---------------------------------------------------------------------------
// The publication domain and target
// ---------------------------------------------------------------------------

/// The address as typed, trimmed and without trailing slashes.
pub open spec fn trimmed_url(raw: Seq<char>) -> Seq<char> {
    strip_end_char(trim(raw), '/')
}

/// The host of an address without scheme: before the first `':'`.
pub open spec fn url_host_of(raw: Seq<char>) -> Seq<char> {
    split(trimmed_url(raw), ':')[0]
}

fn trimmed_url_vec(raw: &str) -> (r: Vec<char>)
    ensures
        r@ == trimmed_url(raw@),
{
    let c = chars_of(raw);
    let t = trim_vec(&c);
    let mut j: usize = t.len();
    assert(t@.take(t.len() as int) =~= t@);
    while j > 0 && t[j - 1] == '/'
        invariant
            j <= t.len(),
            strip_end_char(t@, '/') == strip_end_char(t@.take(j as int), '/'),
        decreases j,
    {
        assert(t@.take(j as int).drop_last() =~= t@.take(j - 1));
        j = j - 1;
    }
    assert(t@.take(j as int) =~= t@.subrange(0, j as int));
    slice_of(&t, 0, j)
}

/// The host part of a domain as typed, which decides between `http` and `https`
/// where no scheme is given.
pub fn url_host(raw: &str) -> (r: String)
    ensures
        r@ == url_host_of(raw@),
{
    let t = trimmed_url_vec(raw);
    let parts = split_char(&t, ':');
    assert(views(parts@)[0] == parts@[0]@);
    string_of(&parts[0])
}

/// The base URL of the published files: as given where it has a scheme; else
/// `http://` for `localhost` and raw IP addresses, `https://` for names.
pub open spec fn base_url(raw: Seq<char>, host_is_ip: bool) -> Seq<char> {
    let t = trimmed_url(raw);
    if starts_with(t, "http://"@) || starts_with(t, "https://"@) {
        t
    } else if t == "localhost"@ || host_is_ip {
        "http://"@ + t
    } else {
        "https://"@ + t
    }
}

/// The base URL of the published files, where `host_is_ip` says whether
/// `url_host(raw)` is an IP address.
pub fn normalize_base_url(raw: &str, host_is_ip: bool) -> (r: String)
    ensures
        r@ == base_url(raw@, host_is_ip),
{
    let t = trimmed_url_vec(raw);
    let http = chars_of("http://");
    let https = chars_of("https://");
    if starts_with_vec(&t, &http) || starts_with_vec(&t, &https) {
        return string_of(&t);
    }
    let ts = string_of(&t);
    let mut out: Vec<char> = Vec::new();
    if str_is(ts.as_str(), "localhost") || host_is_ip {
        push_str(&mut out, "http://");
    } else {
        push_str(&mut out, "https://");
    }
    extend(&mut out, &t);
    string_of(&out)
}

proof fn lemma_strip_end_shape(s: Seq<char>, c: char)
    ensures
        strip_end_char(s, c).len() <= s.len(),
        strip_end_char(s, c) =~= s.take(strip_end_char(s, c).len() as int),
        strip_end_char(s, c).len() > 0 ==> strip_end_char(s, c).last() != c,
    decreases s.len(),
{
    if s.len() > 0 && s.last() == c {
        lemma_strip_end_shape(s.drop_last(), c);
        let r = strip_end_char(s, c);
        assert(s.drop_last().take(r.len() as int) =~= s.take(r.len() as int));
    }
}

proof fn lemma_trim_end_shape(s: Seq<char>)
    ensures
        trim_end(s).len() <= s.len(),
        trim_end(s) =~= s.take(trim_end(s).len() as int),
        trim_end(s).len() > 0 ==> !is_ws(trim_end(s).last()),
    decreases s.len(),
{
    if s.len() > 0 && is_ws(s.last()) {
        lemma_trim_end_shape(s.drop_last());
        let r = trim_end(s);
        assert(s.drop_last().take(r.len() as int) =~= s.take(r.len() as int));
    }
}

proof fn lemma_trim_start_first(s: Seq<char>)
    ensures
        trim_start(s).len() > 0 ==> !is_ws(trim_start(s)[0]),
    decreases s.len(),
{
    if s.len() > 0 && is_ws(s[0]) {
        lemma_trim_start_first(s.drop_first());
    }
}

/// Text that neither starts nor ends with white space, and does not end with
/// `/`, is its own trimmed form.
proof fn lemma_trimmed_url_fixed(u: Seq<char>)
    requires
        u.len() > 0,
        !is_ws(u[0]),
        !is_ws(u.last()),
        u.last() != '/',
    ensures
        trimmed_url(u) == u,
{
    assert(trim_start(u) == u);
    assert(trim_end(u) == u);
    assert(strip_end_char(u, '/') == u);
}

/// A base URL, once normalized, stays as it is when normalized again (whatever
/// is then said of its host); it has a scheme and no trailing `/`. This holds
/// where the given address, trimmed and stripped of trailing `/`, is not empty
/// and does not end with white space.
pub proof fn law_base_url_idempotent(raw: Seq<char>, host_is_ip: bool, again_ip: bool)
    requires
        trimmed_url(raw).len() > 0,
        trim_end(trimmed_url(raw)) == trimmed_url(raw),
    ensures
        base_url(base_url(raw, host_is_ip), again_ip) == base_url(raw, host_is_ip),
        starts_with(base_url(raw, host_is_ip), "http://"@) || starts_with(
            base_url(raw, host_is_ip),
            "https://"@,
        ),
        base_url(raw, host_is_ip).last() != '/',
{
    let t = trimmed_url(raw);
    let tr = trim(raw);
    let u = base_url(raw, host_is_ip);
    lemma_strip_end_shape(tr, '/');
    lemma_trim_end_shape(trim_start(raw));
    lemma_trim_start_first(raw);
    lemma_trim_end_shape(t);
    assert(t[0] == tr[0]);
    assert(tr[0] == trim_start(raw)[0]);
    assert(!is_ws(t.last())) by {
        if is_ws(t.last()) {
            assert(trim_end(t) == trim_end(t.drop_last()));
            lemma_trim_end_shape(t.drop_last());
        }
    }
    reveal_strlit("http://");
    reveal_strlit("https://");
    if starts_with(t, "http://"@) || starts_with(t, "https://"@) {
        lemma_trimmed_url_fixed(u);
    } else {
        let scheme = if t == "localhost"@ || host_is_ip {
            "http://"@
        } else {
            "https://"@
        };
        assert(u == scheme + t);
        assert(u[0] == 'h');
        assert(u.last() == t.last());
        lemma_trimmed_url_fixed(u);
        assert(u.subrange(0, scheme.len() as int) =~= scheme);
    }
}

/// `~/rest` under the home folder where there is one; any other path as it is.
pub open spec fn expanded_path(path: Seq<char>, home: Option<Seq<char>>) -> Seq<char> {
    if starts_with(path, "~/"@) && home is Some {
        path_push(home->0, path.skip(2))
    } else {
        path
    }
}

/// A path with a leading `~/` expanded to the home folder (`home` is what `HOME`
/// holds, if set).
pub fn expand_tilde(path: &str, home: Option<&str>) -> (r: String)
    ensures
        r@ == expanded_path(
            path@,
            match home {
                Some(h) => Some(h@),
                None => None,
            },
        ),
{
    let p = chars_of(path);
    let t = chars_of("~/");
    assert(t@ == "~/"@);
    proof {
        reveal_strlit("~/");
    }
    if starts_with_vec(&p, &t) {
        match home {
            Some(h) => {
                let rest = slice_of(&p, 2, p.len());
                assert(rest@ =~= p@.skip(2));
                let rs = string_of(&rest);
                return crate::paths::path_join(h, rs.as_str());
            },
            None => {},
        }
    }
    String::from_str(path)
}

/// Where packs are published.
#[derive(Clone, Debug)]
pub enum PublishTarget {
    /// Another machine, reached over SSH.
    Ssh { ssh_host: String, remote_base: String, web_root: String },
    /// The machine the agent runs on.
    LocalFs { base_path: String, web_root: String },
}

/// The publication target of the settings: over SSH where a host is given (not
/// blank, trimmed), else on this machine under the remote base (by default
/// `~/lumineria`, expanded); the web root is `/var/www/html`.
pub open spec fn target_matches(
    t: PublishTarget,
    ssh_host: Option<Seq<char>>,
    remote_base: Seq<char>,
    home: Option<Seq<char>>,
) -> bool {
    let base = if trim(remote_base).len() == 0 {
        "~/lumineria"@
    } else {
        trim(remote_base)
    };
    match ssh_host {
        Some(h) if trim(h).len() > 0 => t matches PublishTarget::Ssh {
            ssh_host: sh,
            remote_base: rb,
            web_root: wr,
        } && sh@ == trim(h) && rb@ == base && wr@ == "/var/www/html"@,
        _ => t matches PublishTarget::LocalFs { base_path: bp, web_root: wr } && bp@
            == expanded_path(base, home) && wr@ == "/var/www/html"@,
    }
}

/// The publication target that the client's settings choose.
pub fn publish_target_from(ssh_host: Option<&str>, remote_base: &str, home: Option<&str>) -> (r:
    PublishTarget)
    ensures
        target_matches(
            r,
            match ssh_host {
                Some(h) => Some(h@),
                None => None,
            },
            remote_base@,
            match home {
                Some(h) => Some(h@),
                None => None,
            },
        ),
{
    let rb = chars_of(remote_base);
    let rbt = trim_vec(&rb);
    let base = if rbt.len() == 0 {
        String::from_str("~/lumineria")
    } else {
        string_of(&rbt)
    };
    let host: Option<String> = match ssh_host {
        Some(h) => {
            let hc = chars_of(h);
            let ht = trim_vec(&hc);
            if ht.len() > 0 {
                Some(string_of(&ht))
            } else {
                None
            }
        },
        None => None,
    };
    match host {
        Some(h) => PublishTarget::Ssh {
            ssh_host: h,
            remote_base: base,
            web_root: String::from_str("/var/www/html"),
        },
        None => PublishTarget::LocalFs {
            base_path: expand_tilde(base.as_str(), home),
            web_root: String::from_str("/var/www/html"),
        },
    }
}

/// The SSH host and remote base that the client is shown for a target.
pub fn publish_config_of(t: &PublishTarget) -> (r: (Option<String>, String))
    ensures
        match t {
            PublishTarget::Ssh { ssh_host, remote_base, .. } => (r.0 matches Some(h) && h@
                == ssh_host@) && r.1@ == remote_base@,
            PublishTarget::LocalFs { base_path, .. } => r.0 is None && r.1@ == base_path@,
        },
{
    match t {
        PublishTarget::Ssh { ssh_host, remote_base, .. } => (
            Some(ssh_host.clone()),
            remote_base.clone(),
        ),
        PublishTarget::LocalFs { base_path, .. } => (None, base_path.clone()),
    }
}

/// The acknowledgement of new publication settings.
pub fn publish_config_ack(domain: &str) -> (r: ServerEvent)
    ensures
        r matches ServerEvent::Ack { ok, message } && ok && (message matches Some(m) && m@
            == "✅ Configuración de publicación actualizada. Dominio: "@ + domain@),
{
    let mut m: Vec<char> = Vec::new();
    push_str(&mut m, "✅ Configuración de publicación actualizada. Dominio: ");
    push_str(&mut m, domain);
    ServerEvent::Ack { ok: true, message: Some(string_of(&m)) }
}

// ---------------------------------------------------------------------------
// Answers to actions
// ---------------------------------------------------------------------------

/// The answer to an action on `id`: an acknowledgement, or the error prefixed by
/// the id.
pub fn action_event(id: &str, result: Result<(), String>) -> (r: ServerEvent)
    ensures
        match result {
            Ok(()) => r matches ServerEvent::Ack { ok, message } && ok && message is None,
            Err(e) => r matches ServerEvent::Error { message } && message@ == id@ + ": "@ + e@,
        },
{
    match result {
        Ok(()) => ServerEvent::Ack { ok: true, message: None },
        Err(e) => {
            let mut m: Vec<char> = Vec::new();
            push_str(&mut m, id);
            push_str(&mut m, ": ");
            push_str(&mut m, e.as_str());
            ServerEvent::Error { message: string_of(&m) }
        },
    }
}

// ---------------------------------------------------------------------------
// The agent's token
// ---------------------------------------------------------------------------

/// The lower-case hexadecimal digit of `d < 16`.
pub open spec fn hex_digit(d: nat) -> char {
    if d < 10 {
        crate::numbers::digit_char(d)
    } else if d == 10 {
        'a'
    } else if d == 11 {
        'b'
    } else if d == 12 {
        'c'
    } else if d == 13 {
        'd'
    } else if d == 14 {
        'e'
    } else {
        'f'
    }
}

/// Each byte as two lower-case hexadecimal digits (`{:02x}`).
pub open spec fn hex_text(b: Seq<u8>) -> Seq<char>
    decreases b.len(),
{
    if b.len() == 0 {
        seq![]
    } else {
        hex_text(b.drop_last()) + seq![hex_digit((b.last() / 16) as nat), hex_digit((b.last() % 16) as nat)]
    }
}

fn hex_digit_exec(d: u8) -> (c: char)
    requires
        d < 16,
    ensures
        c == hex_digit(d as nat),
{
    if d == 0 {
        '0'
    } else if d == 1 {
        '1'
    } else if d == 2 {
        '2'
    } else if d == 3 {
        '3'
    } else if d == 4 {
        '4'
    } else if d == 5 {
        '5'
    } else if d == 6 {
        '6'
    } else if d == 7 {
        '7'
    } else if d == 8 {
        '8'
    } else if d == 9 {
        '9'
    } else if d == 10 {
        'a'
    } else if d == 11 {
        'b'
    } else if d == 12 {
        'c'
    } else if d == 13 {
        'd'
    } else if d == 14 {
        'e'
    } else {
        'f'
    }
}

/// The bytes in lower-case hexadecimal, two digits each.
pub fn hex_encode(b: &[u8]) -> (r: String)
    ensures
        r@ == hex_text(b@),
{
    let mut out: Vec<char> = Vec::new();
    let mut i: usize = 0;
    while i < b.len()
        invariant
            i <= b.len(),
            out@ == hex_text(b@.take(i as int)),
        decreases b.len() - i,
    {
        assert(b@.take(i + 1).drop_last() =~= b@.take(i as int));
        out.push(hex_digit_exec(b[i] / 16));
        out.push(hex_digit_exec(b[i] % 16));
        assert(out@ =~= hex_text(b@.take(i + 1)));
        i = i + 1;
    }
    assert(b@.take(b.len() as int) =~= b@);
    string_of(&out)
}

/// 24 bytes from the operating system's random source (`OsRng::try_fill_bytes`);
/// none where that source fails.
#[verifier::external_body]
fn random_bytes() -> (r: Option<Vec<u8>>)
    ensures
        r matches Some(v) ==> v@.len() == 24,
{
    let mut bytes = [0u8; 24];
    match rand::rngs::OsRng.try_fill_bytes(&mut bytes) {
        Ok(()) => Some(bytes.to_vec()),
        Err(_) => None,
    }
}

/// A new secret token for the agent: 24 random bytes in hexadecimal (48
/// characters); none where the system's random source fails.
pub fn generate_token() -> (r: Option<String>)
    ensures
        r matches Some(t) ==> t@.len() == 48 && exists|b: Seq<u8>| b.len() == 24 && t@ == hex_text(b),
{
    match random_bytes() {
        Some(b) => {
            let t = hex_encode(b.as_slice());
            proof {
                lemma_hex_len(b@);
            }
            Some(t)
        },
        None => None,
    }
}

proof fn lemma_hex_len(b: Seq<u8>)
    ensures
        hex_text(b).len() == 2 * b.len(),
    decreases b.len(),
{
    if b.len() > 0 {
        lemma_hex_len(b.drop_last());
    }
}

// ---------------------------------------------------------------------------
// The Go and package tools
// ---------------------------------------------------------------------------

/// Where `go install` puts binaries: `GOBIN`, else `GOPATH/bin`, else
/// `HOME/go/bin`; none without any of them.
pub open spec fn go_bin_of(
    gobin: Option<Seq<char>>,
    gopath: Option<Seq<char>>,
    home: Option<Seq<char>>,
) -> Option<Seq<char>> {
    match gobin {
        Some(g) => Some(g),
        None => match gopath {
            Some(p) => Some(path_push(p, "bin"@)),
            None => match home {
                Some(h) => Some(path_push(path_push(h, "go"@), "bin"@)),
                None => None,
            },
        },
    }
}

/// The folder of the binaries that `go install` builds, from the variables
/// `GOBIN`, `GOPATH` and `HOME`; the error where none is set.
pub fn go_bin_dir(gobin: Option<&str>, gopath: Option<&str>, home: Option<&str>) -> (r: Result<
    String,
    String,
>)
    ensures
        match r {
            Ok(d) => go_bin_of(
                match gobin {
                    Some(g) => Some(g@),
                    None => None,
                },
                match gopath {
                    Some(g) => Some(g@),
                    None => None,
                },
                match home {
                    Some(g) => Some(g@),
                    None => None,
                },
            ) == Some(d@),
            Err(m) => gobin is None && gopath is None && home is None && m@
                == "No se pudo obtener la variable HOME"@,
        },
{
    match gobin {
        Some(g) => Ok(String::from_str(g)),
        None => match gopath {
            Some(p) => Ok(crate::paths::path_join(p, "bin")),
            None => match home {
                Some(h) => {
                    let a = crate::paths::path_join(h, "go");
                    Ok(crate::paths::path_join(a.as_str(), "bin"))
                },
                None => Err(String::from_str("No se pudo obtener la variable HOME")),
            },
        },
    }
}

/// The places where the packwiz binary is looked for, in order: `packwiz` in
/// each folder of `PATH`, then in the folder of Go binaries where it is known.
pub open spec fn packwiz_places(path_dirs: Seq<Seq<char>>, go_bin: Option<Seq<char>>) -> Seq<Seq<char>> {
    let in_path = Seq::new(path_dirs.len(), |i: int| path_push(path_dirs[i], "packwiz"@));
    match go_bin {
        Some(g) => in_path.push(path_push(g, "packwiz"@)),
        None => in_path,
    }
}

/// Where to look for the packwiz binary.
pub fn packwiz_candidates(path_dirs: &Vec<String>, go_bin: &Option<String>) -> (r: Vec<String>)
    ensures
        crate::text::str_views(r@) == packwiz_places(
            crate::text::str_views(path_dirs@),
            match go_bin {
                Some(g) => Some(g@),
                None => None,
            },
        ),
{
    let ghost ds = crate::text::str_views(path_dirs@);
    let mut out: Vec<String> = Vec::new();
    let mut i: usize = 0;
    while i < path_dirs.len()
        invariant
            i <= path_dirs.len(),
            ds == crate::text::str_views(path_dirs@),
            crate::text::str_views(out@) =~= Seq::new(i as nat, |k: int| path_push(ds[k], "packwiz"@)),
        decreases path_dirs.len() - i,
    {
        let ghost before = crate::text::str_views(out@);
        let p = path_join(path_dirs[i].as_str(), "packwiz");
        let ghost pv = p@;
        out.push(p);
        assert(crate::text::str_views(out@) =~= before.push(pv));
        assert(pv == path_push(ds[i as int], "packwiz"@));
        i = i + 1;
    }
    match go_bin {
        Some(g) => {
            let ghost before = crate::text::str_views(out@);
            let p = path_join(g.as_str(), "packwiz");
            let ghost pv = p@;
            out.push(p);
            assert(crate::text::str_views(out@) =~= before.push(pv));
        },
        None => {},
    }
    out
}

/// The first place that holds a file.
pub open spec fn first_present(found: Seq<(Seq<char>, bool)>) -> Option<Seq<char>>
    decreases found.len(),
{
    if found.len() == 0 {
        None
    } else if found[0].1 {
        Some(found[0].0)
    } else {
        first_present(found.drop_first())
    }
}

/// The packwiz binary to run, from the places looked at and whether each holds
/// a file: the first that does, else `packwiz` for the shell to find.
pub fn resolve_packwiz_bin(found: &Vec<(String, bool)>) -> (r: String)
    ensures
        r@ == match first_present(Seq::new(found@.len(), |i: int| (found@[i].0@, found@[i].1))) {
            Some(p) => p,
            None => "packwiz"@,
        },
{
    let ghost fs = Seq::new(found@.len(), |i: int| (found@[i].0@, found@[i].1));
    let mut i: usize = 0;
    assert(fs.skip(0) =~= fs);
    while i < found.len()
        invariant
            i <= found.len(),
            fs == Seq::new(found@.len(), |i: int| (found@[i].0@, found@[i].1)),
            first_present(fs) == first_present(fs.skip(i as int)),
        decreases found.len() - i,
    {
        assert(fs.skip(i as int).drop_first() =~= fs.skip(i + 1));
        if found[i].1 {
            return found[i].0.clone();
        }
        i = i + 1;
    }
    String::from_str("packwiz")
}

} // verus!
