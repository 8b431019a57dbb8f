//! The text of the files a server is configured by: `server.env`,
//! `server.properties`, `start.sh`, `velocity.toml` and a mod's `.toml`.
use vstd::prelude::*;
use crate::env::{any_prefixed, replace_prefixed};
use crate::numbers::{decimal, decimal_chars};
use crate::protocol::ServerConfigParams;
use crate::text::{
    chars_of, extend, has_char, join_lines, lines, push_str, split_lines, starts_with,
    starts_with_vec, string_of, trim_start, trim_start_vec, unlines, views, has_char_vec,
};

verus! {

/// How `Display` writes a `bool`.
pub open spec fn bool_text(b: bool) -> Seq<char> {
    if b {
        "true"@
    } else {
        "false"@
    }
}

fn bool_str(b: bool) -> (r: &'static str)
    ensures
        r@ == bool_text(b),
{
    if b {
        "true"
    } else {
        "false"
    }
}

/// The `server.env` written for a new server.
pub open spec fn server_env_text(c: ServerConfigParams) -> Seq<char> {
    "# === IDENTIFICACIÓN ===\nSERVER_NAME=\""@ + c.display_name@ + "\"\nSERVER_TYPE=\""@
        + c.server_type@ + "\"\nSERVER_BUILD_MODE=\""@ + c.server_type@ + "\"\nSERVER_MOTD=\""@
        + c.display_name@ + "\"\n\n# === RED Y RENDIMIENTO ===\nSERVER_PORT=\""@ + decimal(
        c.port as nat,
    ) + "\"\nMIN_RAM=\""@ + c.min_ram@ + "\"\nMAX_RAM=\""@ + c.max_ram@ + "\"\nONLINE_MODE=\""@
        + bool_text(c.online_mode) + "\"\nENFORCE_SECURE_PROFILE=\""@ + bool_text(
        c.enforce_secure_profile,
    ) + "\"\n\n# === MINECRAFT ===\nMC_VERSION=\""@ + c.mc_version@ + "\"\n"@
}

/// The `server.env` of a new server: its name (also its MOTD), type, port,
/// memory, online mode, secure profile and Minecraft version.
pub fn server_env_content(c: &ServerConfigParams) -> (r: String)
    ensures
        r@ == server_env_text(*c),
{
    let mut out: Vec<char> = Vec::new();
    push_str(&mut out, "# === IDENTIFICACIÓN ===\nSERVER_NAME=\"");
    push_str(&mut out, c.display_name.as_str());
    push_str(&mut out, "\"\nSERVER_TYPE=\"");
    push_str(&mut out, c.server_type.as_str());
    push_str(&mut out, "\"\nSERVER_BUILD_MODE=\"");
    push_str(&mut out, c.server_type.as_str());
    push_str(&mut out, "\"\nSERVER_MOTD=\"");
    push_str(&mut out, c.display_name.as_str());
    push_str(&mut out, "\"\n\n# === RED Y RENDIMIENTO ===\nSERVER_PORT=\"");
    let port = decimal_chars(c.port as u64);
    extend(&mut out, &port);
    push_str(&mut out, "\"\nMIN_RAM=\"");
    push_str(&mut out, c.min_ram.as_str());
    push_str(&mut out, "\"\nMAX_RAM=\"");
    push_str(&mut out, c.max_ram.as_str());
    push_str(&mut out, "\"\nONLINE_MODE=\"");
    push_str(&mut out, bool_str(c.online_mode));
    push_str(&mut out, "\"\nENFORCE_SECURE_PROFILE=\"");
    push_str(&mut out, bool_str(c.enforce_secure_profile));
    push_str(&mut out, "\"\n\n# === MINECRAFT ===\nMC_VERSION=\"");
    push_str(&mut out, c.mc_version.as_str());
    push_str(&mut out, "\"\n");
    string_of(&out)
}

/// The `server.properties` written for a new server.
pub open spec fn server_properties_text(c: ServerConfigParams) -> Seq<char> {
    "server-port="@ + decimal(c.port as nat) + "\nquery.port="@ + decimal(c.port as nat)
        + "\nonline-mode="@ + bool_text(c.online_mode) + "\nenforce-secure-profile="@ + bool_text(
        c.enforce_secure_profile,
    ) + "\nmotd="@ + c.display_name@
        + "\nmax-players=20\nprevent-proxy-connections=false\nenable-rcon=false\n"@
}

/// The `server.properties` of a new server: port (also the query port), online
/// mode, secure profile, MOTD, and RCON switched off.
pub fn server_properties_content(c: &ServerConfigParams) -> (r: String)
    ensures
        r@ == server_properties_text(*c),
{
    let mut out: Vec<char> = Vec::new();
    let port = decimal_chars(c.port as u64);
    push_str(&mut out, "server-port=");
    extend(&mut out, &port);
    push_str(&mut out, "\nquery.port=");
    extend(&mut out, &port);
    push_str(&mut out, "\nonline-mode=");
    push_str(&mut out, bool_str(c.online_mode));
    push_str(&mut out, "\nenforce-secure-profile=");
    push_str(&mut out, bool_str(c.enforce_secure_profile));
    push_str(&mut out, "\nmotd=");
    push_str(&mut out, c.display_name.as_str());
    push_str(&mut out, "\nmax-players=20\nprevent-proxy-connections=false\nenable-rcon=false\n");
    string_of(&out)
}

/// The `start.sh` that launches a jar in the container.
pub open spec fn start_script_text(
    server_type: Seq<char>,
    min_ram: Seq<char>,
    max_ram: Seq<char>,
    jar_name: Seq<char>,
) -> Seq<char> {
    "#!/bin/sh\ncd /data\nexec java -Xms"@ + min_ram + " -Xmx"@ + max_ram + " -jar "@ + jar_name
        + if server_type == "velocity"@ {
        "\n"@
    } else {
        " nogui\n"@
    }
}

/// The `start.sh` for a jar: a proxy (`velocity`) is started without `nogui`.
pub fn start_script_content(server_type: &str, min_ram: &str, max_ram: &str, jar_name: &str) -> (r:
    String)
    ensures
        r@ == start_script_text(server_type@, min_ram@, max_ram@, jar_name@),
{
    let mut out: Vec<char> = Vec::new();
    push_str(&mut out, "#!/bin/sh\ncd /data\nexec java -Xms");
    push_str(&mut out, min_ram);
    push_str(&mut out, " -Xmx");
    push_str(&mut out, max_ram);
    push_str(&mut out, " -jar ");
    push_str(&mut out, jar_name);
    let t = chars_of(server_type);
    let v = chars_of("velocity");
    if crate::text::eq_vec(&t, &v) {
        push_str(&mut out, "\n");
    } else {
        push_str(&mut out, " nogui\n");
    }
    string_of(&out)
}

/// The `start.sh` for a server that a mod-loader installer left a `run.sh` for.
pub fn run_sh_start_script() -> (r: String)
    ensures
        r@ == "#!/bin/sh\ncd /data\nexec sh run.sh nogui\n"@,
{
    let mut out: Vec<char> = Vec::new();
    push_str(&mut out, "#!/bin/sh\ncd /data\nexec sh run.sh nogui\n");
    string_of(&out)
}

// ---------------------------------------------------------------------------
// Rewriting `key=value` files line by line
// ---------------------------------------------------------------------------

/// Lines with every line of prefix `p` replaced by `nl`, and whether one had it.
fn replace_prefixed_lines(ls: &Vec<Vec<char>>, p: &Vec<char>, nl: &Vec<char>) -> (r: (
    Vec<Vec<char>>,
    bool,
))
    ensures
        views(r.0@) == replace_prefixed(views(ls@), p@, nl@),
        r.1 == any_prefixed(views(ls@), p@),
{
    let mut out: Vec<Vec<char>> = Vec::new();
    let mut found = false;
    let mut i: usize = 0;
    let ghost target = replace_prefixed(views(ls@), p@, nl@);
    while i < ls.len()
        invariant
            i <= ls.len(),
            target == replace_prefixed(views(ls@), p@, nl@),
            views(out@) == target.take(i as int),
            found == exists|k: int| 0 <= k < i && starts_with(views(ls@)[k], p@),
        decreases ls.len() - i,
    {
        let ghost before = views(out@);
        let b = starts_with_vec(&ls[i], p);
        assert(views(ls@)[i as int] == ls@[i as int]@);
        assert((exists|k: int| 0 <= k < i + 1 && starts_with(views(ls@)[k], p@)) == (found || b))
            by {
            if b {
                assert(starts_with(views(ls@)[i as int], p@));
            }
            if exists|k: int| 0 <= k < i + 1 && starts_with(views(ls@)[k], p@) {
                let k = choose|k: int| 0 <= k < i + 1 && starts_with(views(ls@)[k], p@);
                if k < i {
                    assert(exists|k: int| 0 <= k < i && starts_with(views(ls@)[k], p@));
                }
            }
        }
        let c = if b {
            found = true;
            nl.clone()
        } else {
            ls[i].clone()
        };
        assert(c@ == (if b { nl@ } else { ls@[i as int]@ }));
        out.push(c);
        assert(views(out@) =~= before.push(c@));
        assert(views(out@) =~= target.take(i + 1));
        i = i + 1;
    }
    assert(target.take(ls.len() as int) =~= target);
    (out, found)
}

/// `server.properties` with the line of a key set: each line that starts with
/// `p` becomes `nl`, and where none did, `nl` follows the rewritten text.
pub open spec fn properties_with_line(content: Seq<char>, p: Seq<char>, nl: Seq<char>) -> Seq<
    char,
> {
    unlines(replace_prefixed(lines(content), p, nl)) + if any_prefixed(lines(content), p) {
        seq![]
    } else {
        nl + seq!['\n']
    }
}

/// The `server.properties` text after the MOTD is set.
pub open spec fn properties_with_motd(content: Seq<char>, motd: Seq<char>) -> Seq<char> {
    properties_with_line(content, "motd="@, "motd="@ + motd)
}

/// `server.properties` with its MOTD set to `motd`.
pub fn set_motd_content(content: &str, motd: &str) -> (r: String)
    ensures
        r@ == properties_with_motd(content@, motd@),
{
    let data = chars_of(content);
    let p = chars_of("motd=");
    let mut nl = p.clone();
    push_str(&mut nl, motd);
    let ls = split_lines(&data);
    let (out, found) = replace_prefixed_lines(&ls, &p, &nl);
    let mut text = join_lines(&out);
    if !found {
        extend(&mut text, &nl);
        text.push('\n');
    }
    proof {
        if !found {
            assert(text@ =~= properties_with_motd(content@, motd@));
        } else {
            assert(text@ =~= properties_with_motd(content@, motd@));
        }
    }
    string_of(&text)
}

/// The `server.properties` text after the port is set: the lines of
/// `server-port=` and `query.port=` rewritten, each added after the text where
/// it was missing.
pub open spec fn properties_with_port(content: Seq<char>, port: nat) -> Seq<char> {
    let ls = lines(content);
    let pl = "server-port="@ + decimal(port);
    let ql = "query.port="@ + decimal(port);
    let mapped = replace_prefixed(replace_prefixed(ls, "server-port="@, pl), "query.port="@, ql);
    unlines(mapped) + (if any_prefixed(ls, "server-port="@) {
        seq![]
    } else {
        pl + seq!['\n']
    }) + (if any_prefixed(ls, "query.port="@) {
        seq![]
    } else {
        ql + seq!['\n']
    })
}

proof fn lemma_port_prefixes(l: Seq<char>)
    ensures
        starts_with(l, "server-port="@) ==> !starts_with(l, "query.port="@),
        starts_with("server-port="@ + l, "server-port="@),
        !starts_with("server-port="@ + l, "query.port="@),
{
    reveal_strlit("server-port=");
    reveal_strlit("query.port=");
    assert("server-port="@[0] == 's');
    assert("query.port="@[0] == 'q');
    if starts_with(l, "server-port="@) && starts_with(l, "query.port="@) {
        assert(l.subrange(0, 12)[0] == l[0]);
        assert(l.subrange(0, 11)[0] == l[0]);
    }
    assert(("server-port="@ + l).subrange(0, 12) =~= "server-port="@);
    assert(("server-port="@ + l)[0] == 's');
    assert("query.port="@[0] == 'q');
}

/// `server.properties` with its server port and query port set to `port`.
pub fn set_port_content(content: &str, port: u16) -> (r: String)
    ensures
        r@ == properties_with_port(content@, port as nat),
{
    let data = chars_of(content);
    let digits = decimal_chars(port as u64);
    let p = chars_of("server-port=");
    let q = chars_of("query.port=");
    let mut pl = p.clone();
    extend(&mut pl, &digits);
    let mut ql = q.clone();
    extend(&mut ql, &digits);
    let ls = split_lines(&data);
    let (first, found_port) = replace_prefixed_lines(&ls, &p, &pl);
    let (out, found_query) = replace_prefixed_lines(&first, &q, &ql);
    proof {
        let v = views(ls@);
        let f = views(first@);
        // The second pass finds `query.port=` exactly where the original lines had it.
        assert forall|i: int| 0 <= i < v.len() implies (starts_with(#[trigger] f[i], q@)
            <==> starts_with(v[i], q@)) by {
            if starts_with(v[i], p@) {
                lemma_port_prefixes(v[i]);
                lemma_port_prefixes(digits@);
                assert(f[i] == pl@);
                assert(pl@ =~= "server-port="@ + digits@);
            }
        }
        if any_prefixed(f, q@) {
            let k = choose|k: int| 0 <= k < f.len() && starts_with(f[k], q@);
            assert(starts_with(v[k], q@));
        }
        if any_prefixed(v, q@) {
            let k = choose|k: int| 0 <= k < v.len() && starts_with(v[k], q@);
            assert(starts_with(f[k], q@));
        }
        assert(found_query == any_prefixed(v, q@));
        assert(views(out@) =~= replace_prefixed(replace_prefixed(v, p@, pl@), q@, ql@));
    }
    let mut text = join_lines(&out);
    if !found_port {
        extend(&mut text, &pl);
        text.push('\n');
    }
    if !found_query {
        extend(&mut text, &ql);
        text.push('\n');
    }
    proof {
        assert(text@ =~= properties_with_port(content@, port as nat));
    }
    string_of(&text)
}

// ---------------------------------------------------------------------------
// `velocity.toml`
// ---------------------------------------------------------------------------

/// `m.replace('"', "\\\"")`.
pub open spec fn escape_quotes(m: Seq<char>) -> Seq<char>
    decreases m.len(),
{
    if m.len() == 0 {
        seq![]
    } else if m.last() == '"' {
        escape_quotes(m.drop_last()) + seq!['\\', '"']
    } else {
        escape_quotes(m.drop_last()).push(m.last())
    }
}

fn escape_quotes_vec(m: &Vec<char>) -> (r: Vec<char>)
    ensures
        r@ == escape_quotes(m@),
{
    let mut out: Vec<char> = Vec::new();
    let mut i: usize = 0;
    while i < m.len()
        invariant
            i <= m.len(),
            out@ == escape_quotes(m@.take(i as int)),
        decreases m.len() - i,
    {
        assert(m@.take(i + 1).drop_last() =~= m@.take(i as int));
        if m[i] == '"' {
            out.push('\\');
            out.push('"');
            assert(out@ =~= escape_quotes(m@.take(i + 1)));
        } else {
            out.push(m[i]);
        }
        i = i + 1;
    }
    assert(m@.take(m.len() as int) =~= m@);
    out
}

/// A line of `velocity.toml` that sets `key`: after the indentation it starts
/// with `key`, and it holds `'='`.
pub open spec fn is_key_line(l: Seq<char>, key: Seq<char>) -> bool {
    starts_with(trim_start(l), key) && has_char(trim_start(l), '=')
}

/// `bind = "0.0.0.0:PORT"`.
pub open spec fn bind_line(port: nat) -> Seq<char> {
    "bind = \"0.0.0.0:"@ + decimal(port) + "\""@
}

/// `motd = "MOTD"`, quotes in the MOTD escaped.
pub open spec fn motd_line(m: Seq<char>) -> Seq<char> {
    "motd = \""@ + escape_quotes(m) + "\""@
}

/// A line of `velocity.toml` after the patch.
pub open spec fn velocity_line(l: Seq<char>, port: nat, motd: Option<Seq<char>>) -> Seq<char> {
    if is_key_line(l, "bind"@) {
        bind_line(port)
    } else if motd is Some && is_key_line(l, "motd"@) {
        motd_line(motd->0)
    } else {
        l
    }
}

/// The text of `velocity.toml` after the bind address and (where one is given)
/// the MOTD are set: matching lines rewritten, a missing bind line put first, a
/// missing MOTD line put last.
pub open spec fn velocity_patched(content: Seq<char>, port: nat, motd: Option<Seq<char>>) -> Seq<
    char,
> {
    let ls = lines(content);
    let mapped = Seq::new(ls.len(), |i: int| velocity_line(ls[i], port, motd));
    let found_bind = exists|i: int| 0 <= i < ls.len() && is_key_line(ls[i], "bind"@);
    let found_motd = exists|i: int|
        0 <= i < ls.len() && !is_key_line(ls[i], "bind"@) && is_key_line(ls[i], "motd"@);
    let with_bind = if found_bind {
        mapped
    } else {
        seq![bind_line(port)] + mapped
    };
    unlines(
        if motd is Some && !found_motd {
            with_bind.push(motd_line(motd->0))
        } else {
            with_bind
        },
    )
}

fn is_key_line_vec(l: &Vec<char>, key: &Vec<char>) -> (r: bool)
    ensures
        r == is_key_line(l@, key@),
{
    let t = trim_start_vec(l);
    starts_with_vec(&t, key) && has_char_vec(&t, '=')
}

/// `velocity.toml` with the proxy bound to `0.0.0.0:port`, and its MOTD set where
/// one is given.
pub fn patch_velocity_content(content: &str, port: u16, motd: Option<&str>) -> (r: String)
    ensures
        r@ == velocity_patched(
            content@,
            port as nat,
            match motd {
                Some(m) => Some(m@),
                None => None,
            },
        ),
{
    let ghost gm: Option<Seq<char>> = match motd {
        Some(m) => Some(m@),
        None => None,
    };
    let data = chars_of(content);
    let ls = split_lines(&data);
    let bind_key = chars_of("bind");
    let motd_key = chars_of("motd");
    let mut bl: Vec<char> = Vec::new();
    push_str(&mut bl, "bind = \"0.0.0.0:");
    let digits = decimal_chars(port as u64);
    extend(&mut bl, &digits);
    push_str(&mut bl, "\"");
    assert(bl@ == bind_line(port as nat));
    let ml: Option<Vec<char>> = match motd {
        Some(m) => {
            let mv = chars_of(m);
            let mut line: Vec<char> = Vec::new();
            push_str(&mut line, "motd = \"");
            let esc = escape_quotes_vec(&mv);
            extend(&mut line, &esc);
            push_str(&mut line, "\"");
            Some(line)
        },
        None => None,
    };
    assert(ml is Some <==> gm is Some);
    assert(ml is Some ==> ml->0@ == motd_line(gm->0));
    let ghost v = views(ls@);
    let ghost mapped = Seq::new(v.len(), |i: int| velocity_line(v[i], port as nat, gm));
    let mut out: Vec<Vec<char>> = Vec::new();
    let mut found_bind = false;
    let mut found_motd = false;
    let mut i: usize = 0;
    while i < ls.len()
        invariant
            i <= ls.len(),
            v == views(ls@),
            mapped == Seq::new(v.len(), |i: int| velocity_line(v[i], port as nat, gm)),
            bind_key@ == "bind"@,
            motd_key@ == "motd"@,
            bl@ == bind_line(port as nat),
            ml is Some <==> gm is Some,
            ml is Some ==> ml->0@ == motd_line(gm->0),
            views(out@) == mapped.take(i as int),
            found_bind == exists|k: int| 0 <= k < i && is_key_line(v[k], "bind"@),
            found_motd == (gm is Some && exists|k: int|
                0 <= k < i && !is_key_line(v[k], "bind"@) && is_key_line(v[k], "motd"@)),
        decreases ls.len() - i,
    {
        assert(v[i as int] == ls@[i as int]@);
        let ghost before = views(out@);
        let is_bind = is_key_line_vec(&ls[i], &bind_key);
        let is_motd = is_key_line_vec(&ls[i], &motd_key);
        let line = if is_bind {
            found_bind = true;
            bl.clone()
        } else {
            match &ml {
                Some(m) => {
                    if is_motd {
                        found_motd = true;
                        m.clone()
                    } else {
                        ls[i].clone()
                    }
                },
                None => ls[i].clone(),
            }
        };
        proof {
            if is_bind {
                assert(exists|k: int| 0 <= k < i + 1 && is_key_line(v[k], "bind"@));
            }
            if exists|k: int| 0 <= k < i + 1 && is_key_line(v[k], "bind"@) {
                let k = choose|k: int| 0 <= k < i + 1 && is_key_line(v[k], "bind"@);
                if k < i {
                    assert(exists|k: int| 0 <= k < i && is_key_line(v[k], "bind"@));
                }
            }
            if !is_bind && is_motd {
                assert(exists|k: int|
                    0 <= k < i + 1 && !is_key_line(v[k], "bind"@) && is_key_line(v[k], "motd"@));
            }
            if exists|k: int|
                0 <= k < i + 1 && !is_key_line(v[k], "bind"@) && is_key_line(v[k], "motd"@) {
                let k = choose|k: int|
                    0 <= k < i + 1 && !is_key_line(v[k], "bind"@) && is_key_line(v[k], "motd"@);
                if k < i {
                    assert(exists|k: int|
                        0 <= k < i && !is_key_line(v[k], "bind"@) && is_key_line(v[k], "motd"@));
                }
            }
        }
        assert(line@ == mapped[i as int]);
        out.push(line);
        assert(views(out@) =~= before.push(line@));
        assert(views(out@) =~= mapped.take(i + 1));
        i = i + 1;
    }
    assert(mapped.take(ls.len() as int) =~= mapped);
    let ghost with_bind = if found_bind {
        mapped
    } else {
        seq![bind_line(port as nat)] + mapped
    };
    if !found_bind {
        out.insert(0, bl.clone());
        assert(views(out@) =~= with_bind);
    }
    let ghost final_lines = views(out@);
    match ml {
        Some(m) => {
            if !found_motd {
                out.push(m);
                assert(views(out@) =~= final_lines.push(motd_line(gm->0)));
            }
        },
        None => {},
    }
    let text = join_lines(&out);
    string_of(&text)
}

// ---------------------------------------------------------------------------
// A mod's `.toml`: the `side` line
// ---------------------------------------------------------------------------

/// A mod's `.toml` with every line that, after the indentation, starts with `p`
/// replaced by `nl`, or `nl` added at the end where none did.
pub open spec fn toml_with_line(content: Seq<char>, p: Seq<char>, nl: Seq<char>) -> Seq<char> {
    let ls = lines(content);
    let mapped = Seq::new(
        ls.len(),
        |i: int| if starts_with(trim_start(ls[i]), p) { nl } else { ls[i] },
    );
    unlines(
        if exists|i: int| 0 <= i < ls.len() && starts_with(trim_start(ls[i]), p) {
            mapped
        } else {
            mapped.push(nl)
        },
    )
}

fn set_indented_line(content: &str, p: &Vec<char>, nl: &Vec<char>) -> (r: String)
    ensures
        r@ == toml_with_line(content@, p@, nl@),
{
    let data = chars_of(content);
    let ls = split_lines(&data);
    let ghost v = views(ls@);
    let ghost mapped = Seq::new(
        v.len(),
        |i: int| if starts_with(trim_start(v[i]), p@) { nl@ } else { v[i] },
    );
    let mut out: Vec<Vec<char>> = Vec::new();
    let mut found = false;
    let mut i: usize = 0;
    while i < ls.len()
        invariant
            i <= ls.len(),
            v == views(ls@),
            mapped == Seq::new(
                v.len(),
                |i: int| if starts_with(trim_start(v[i]), p@) { nl@ } else { v[i] },
            ),
            views(out@) == mapped.take(i as int),
            found == exists|k: int| 0 <= k < i && starts_with(trim_start(v[k]), p@),
        decreases ls.len() - i,
    {
        assert(v[i as int] == ls@[i as int]@);
        let ghost before = views(out@);
        let t = trim_start_vec(&ls[i]);
        let b = starts_with_vec(&t, p);
        proof {
            if b {
                assert(exists|k: int| 0 <= k < i + 1 && starts_with(trim_start(v[k]), p@));
            }
            if exists|k: int| 0 <= k < i + 1 && starts_with(trim_start(v[k]), p@) {
                let k = choose|k: int| 0 <= k < i + 1 && starts_with(trim_start(v[k]), p@);
                if k < i {
                    assert(exists|k: int| 0 <= k < i && starts_with(trim_start(v[k]), p@));
                }
            }
        }
        let line = if b {
            found = true;
            nl.clone()
        } else {
            ls[i].clone()
        };
        assert(line@ == mapped[i as int]);
        out.push(line);
        assert(views(out@) =~= before.push(line@));
        assert(views(out@) =~= mapped.take(i + 1));
        i = i + 1;
    }
    assert(mapped.take(ls.len() as int) =~= mapped);
    if !found {
        let ghost before = views(out@);
        out.push(nl.clone());
        assert(views(out@) =~= before.push(nl@));
    }
    let text = join_lines(&out);
    string_of(&text)
}

/// `side = "SIDE"`.
pub open spec fn side_line(side: Seq<char>) -> Seq<char> {
    "side = \""@ + side + "\""@
}

/// A mod's `.toml` with its side set to `side`: the lines that start with
/// `side =` after the indentation rewritten, or the line added.
pub fn mod_side_content(content: &str, side: &str) -> (r: String)
    ensures
        r@ == toml_with_line(content@, "side ="@, side_line(side@)),
{
    let p = chars_of("side =");
    let mut nl: Vec<char> = Vec::new();
    push_str(&mut nl, "side = \"");
    push_str(&mut nl, side);
    push_str(&mut nl, "\"");
    set_indented_line(content, &p, &nl)
}

/// A mod's `.toml` marked as client-only: every line that starts with `side`
/// after the indentation becomes `side = "client"`, or that line is added.
pub fn client_side_content(content: &str) -> (r: String)
    ensures
        r@ == toml_with_line(content@, "side"@, side_line("client"@)),
{
    let p = chars_of("side");
    let mut nl: Vec<char> = Vec::new();
    push_str(&mut nl, "side = \"");
    push_str(&mut nl, "client");
    push_str(&mut nl, "\"");
    set_indented_line(content, &p, &nl)
}

} // verus!
