//! The desktop client's side: its saved settings, how it starts a local agent
//! and the address it connects to, how often it tries to connect, and which
//! PaperMC versions it offers.
use vstd::prelude::*;
use crate::engine::{is_stable_build, PaperBuild};
use crate::numbers::{parse_unsigned, parse_unsigned_chars};
use crate::text::{chars_of, push_str, str_is, str_views, string_of, trim, trim_vec};

verus! {

/// Where packs are published from the client's point of view: an SSH host (or
/// none: the agent's own machine), the base folder there and the public domain.
pub struct PublishConfig {
    pub ssh_host: Option<String>,
    pub remote_base: String,
    pub domain: String,
}

impl Default for PublishConfig {
    /// No SSH host, the base `~/lumineria`, the domain `http://localhost`.
    fn default() -> (r: PublishConfig)
        ensures
            r.ssh_host is None,
            r.remote_base@ == "~/lumineria"@,
            r.domain@ == "http://localhost"@,
    {
        PublishConfig {
            ssh_host: None,
            remote_base: String::from_str("~/lumineria"),
            domain: String::from_str("http://localhost"),
        }
    }
}

/// How the client last connected: its mode, and the folder or the address.
pub struct LastConnection {
    pub mode: String,
    pub folder: Option<String>,
    pub url: Option<String>,
}

impl Default for LastConnection {
    /// An empty mode, no folder, no address.
    fn default() -> (r: LastConnection)
        ensures
            r.mode@ == Seq::<char>::empty(),
            r.folder is None,
            r.url is None,
    {
        LastConnection { mode: String::new(), folder: None, url: None }
    }
}

/// The address a local agent listens on.
pub open spec fn local_agent_address() -> Seq<char> {
    "127.0.0.1:8756"@
}

/// The address a local agent listens on.
pub fn local_agent_port() -> (r: String)
    ensures
        r@ == local_agent_address(),
{
    String::from_str("127.0.0.1:8756")
}

/// The arguments that start a local agent serving `root` on `address` with
/// `token`, publishing as `cfg` says (the SSH host last, where there is one).
pub open spec fn agent_arguments(root: Seq<char>, address: Seq<char>, token: Seq<char>, cfg: PublishConfig) -> Seq<Seq<char>> {
    let base = seq![
        "serve"@,
        "--root"@,
        root,
        "--bind"@,
        address,
        "--token"@,
        token,
        "--vps-remote-base"@,
        cfg.remote_base@,
        "--domain"@,
        cfg.domain@,
    ];
    match cfg.ssh_host {
        Some(h) => base + seq!["--vps-ssh-host"@, h@],
        None => base,
    }
}

fn push_owned(v: &mut Vec<String>, s: &str)
    ensures
        str_views(final(v)@) == str_views(old(v)@).push(s@),
{
    let ghost before = str_views(v@);
    v.push(String::from_str(s));
    assert(str_views(v@) =~= before.push(s@));
}

/// The arguments of the local agent.
pub fn local_agent_args(root: &str, address: &str, token: &str, cfg: &PublishConfig) -> (r: Vec<
    String,
>)
    ensures
        str_views(r@) == agent_arguments(root@, address@, token@, *cfg),
{
    let mut v: Vec<String> = Vec::new();
    push_owned(&mut v, "serve");
    push_owned(&mut v, "--root");
    push_owned(&mut v, root);
    push_owned(&mut v, "--bind");
    push_owned(&mut v, address);
    push_owned(&mut v, "--token");
    push_owned(&mut v, token);
    push_owned(&mut v, "--vps-remote-base");
    push_owned(&mut v, cfg.remote_base.as_str());
    push_owned(&mut v, "--domain");
    push_owned(&mut v, cfg.domain.as_str());
    match &cfg.ssh_host {
        Some(h) => {
            push_owned(&mut v, "--vps-ssh-host");
            push_owned(&mut v, h.as_str());
        },
        None => {},
    }
    assert(str_views(v@) =~= agent_arguments(root@, address@, token@, *cfg));
    v
}

/// The WebSocket address of a local agent, with its token.
pub fn local_agent_url(address: &str, token: &str) -> (r: String)
    ensures
        r@ == "ws://"@ + address@ + "/ws?token="@ + token@,
{
    let mut out: Vec<char> = Vec::new();
    push_str(&mut out, "ws://");
    push_str(&mut out, address);
    push_str(&mut out, "/ws?token=");
    push_str(&mut out, token);
    string_of(&out)
}

/// The message for a folder that is no longer there.
pub fn missing_root_message(root: &str) -> (r: String)
    ensures
        r@ == "La carpeta registrada ya no existe: "@ + root@,
{
    let mut out: Vec<char> = Vec::new();
    push_str(&mut out, "La carpeta registrada ya no existe: ");
    push_str(&mut out, root);
    string_of(&out)
}

/// The process id kept in the pid file of a previous local agent, where the
/// file holds one (surrounding white space ignored).
pub fn stored_pid(text: &str) -> (r: Option<u32>)
    ensures
        match parse_unsigned(trim(text@), 4294967295) {
            Some(n) => r == Some(n as u32),
            None => r is None,
        },
{
    let c = chars_of(text);
    let t = trim_vec(&c);
    match parse_unsigned_chars(&t, 4294967295) {
        Some(n) => Some(n as u32),
        None => None,
    }
}

/// How many times the client tries to connect to an agent.
pub open spec fn connect_attempts() -> u32 {
    15
}

/// After a failed attempt to connect (`tried` attempts so far): try again, or
/// give up with the message quoting the last error.
pub fn after_failed_connect(tried: u32, last_error: &str) -> (r: Option<String>)
    ensures
        tried < connect_attempts() ==> r is None,
        tried >= connect_attempts() ==> (r matches Some(m) && m@
            == "No pude conectar tras varios intentos: "@ + last_error@),
{
    if tried < 15 {
        None
    } else {
        let mut out: Vec<char> = Vec::new();
        push_str(&mut out, "No pude conectar tras varios intentos: ");
        push_str(&mut out, last_error);
        Some(string_of(&out))
    }
}

/// The error of a request made before the client connected.
pub fn not_connected_error() -> (r: String)
    ensures
        r@ == "No conectado al agente todavía — llamá a connect_agent primero"@,
{
    String::from_str("No conectado al agente todavía — llamá a connect_agent primero")
}

// ---------------------------------------------------------------------------
// PaperMC versions offered
// ---------------------------------------------------------------------------

/// The PaperMC API's page of a project.
pub fn paper_project_url(project: &str) -> (r: String)
    ensures
        r@ == "https://fill.papermc.io/v3/projects/"@ + project@,
{
    let mut out: Vec<char> = Vec::new();
    push_str(&mut out, "https://fill.papermc.io/v3/projects/");
    push_str(&mut out, project);
    string_of(&out)
}

/// Whether a version has a build worth offering: a stable or recommended one
/// (none where the builds were not a list).
pub fn has_good_build(builds: &Option<Vec<PaperBuild>>) -> (r: bool)
    ensures
        r == good_builds(*builds),
{
    match builds {
        None => false,
        Some(b) => {
            let mut i: usize = 0;
            while i < b.len()
                invariant
                    i <= b.len(),
                    *builds == Some(*b),
                    forall|k: int| 0 <= k < i ==> !is_stable_build(#[trigger] b@[k]),
                decreases b.len() - i,
            {
                let stable = match &b[i].channel {
                    Some(c) => str_is(c.as_str(), "STABLE") || str_is(c.as_str(), "RECOMMENDED"),
                    None => false,
                };
                if stable {
                    assert(is_stable_build(b@[i as int]));
                    proof {
                        lemma_good_builds(*b, i as int);
                    }
                    return true;
                }
                i = i + 1;
            }
            false
        },
    }
}

/// The versions to offer among `candidates`: those whose builds (in the same
/// order) include a stable one.
pub fn offered_versions(candidates: &Vec<String>, builds: &Vec<Option<Vec<PaperBuild>>>) -> (r: Vec<
    String,
>)
    requires
        candidates.len() == builds.len(),
    ensures
        str_views(r@) == offered(str_views(candidates@), builds@),
{
    let ghost cs = str_views(candidates@);
    let mut out: Vec<String> = Vec::new();
    let mut i: usize = 0;
    while i < candidates.len()
        invariant
            i <= candidates.len(),
            candidates.len() == builds.len(),
            cs == str_views(candidates@),
            str_views(out@) == offered(cs.take(i as int), builds@.take(i as int)),
        decreases candidates.len() - i,
    {
        assert(cs.take(i + 1).drop_last() =~= cs.take(i as int));
        assert(builds@.take(i + 1).drop_last() =~= builds@.take(i as int));
        if has_good_build(&builds[i]) {
            let ghost before = str_views(out@);
            out.push(candidates[i].clone());
            assert(str_views(out@) =~= before.push(cs[i as int]));
        }
        i = i + 1;
    }
    assert(cs.take(candidates.len() as int) =~= cs);
    assert(builds@.take(candidates.len() as int) =~= builds@);
    out
}

/// A version's builds include a stable one.
pub open spec fn good_builds(b: Option<Vec<PaperBuild>>) -> bool {
    match b {
        Some(v) => any_stable(v@),
        None => false,
    }
}

/// Some build is stable.
pub open spec fn any_stable(bs: Seq<PaperBuild>) -> bool {
    exists|i: int| 0 <= i < bs.len() && is_stable_build(#[trigger] bs[i])
}

proof fn lemma_good_builds(v: Vec<PaperBuild>, i: int)
    requires
        0 <= i < v@.len(),
        is_stable_build(v@[i]),
    ensures
        good_builds(Some(v)),
{
    assert(any_stable(v@));
}

/// The candidates whose builds include a stable one, in order.
pub open spec fn offered(cs: Seq<Seq<char>>, bs: Seq<Option<Vec<PaperBuild>>>) -> Seq<Seq<char>>
    decreases cs.len(),
{
    if cs.len() == 0 || bs.len() == 0 {
        seq![]
    } else if good_builds(bs.last()) {
        offered(cs.drop_last(), bs.drop_last()).push(cs.last())
    } else {
        offered(cs.drop_last(), bs.drop_last())
    }
}

/// The versions the PaperMC API lists for a project, group after group, in
/// order.
pub fn project_versions(groups: &Vec<Vec<String>>) -> (r: Vec<String>)
    ensures
        str_views(r@) == flatten_views(groups@),
{
    let mut out: Vec<String> = Vec::new();
    let mut i: usize = 0;
    while i < groups.len()
        invariant
            i <= groups.len(),
            str_views(out@) == flatten_views(groups@.take(i as int)),
        decreases groups.len() - i,
    {
        assert(groups@.take(i + 1).drop_last() =~= groups@.take(i as int));
        let ghost before = str_views(out@);
        let mut j: usize = 0;
        while j < groups[i].len()
            invariant
                i < groups.len(),
                j <= groups@[i as int].len(),
                str_views(out@) == before + str_views(groups@[i as int]@).take(j as int),
            decreases groups@[i as int].len() - j,
        {
            let ghost b2 = str_views(out@);
            out.push(groups[i][j].clone());
            assert(str_views(out@) =~= b2.push(groups@[i as int]@[j as int]@));
            assert(str_views(groups@[i as int]@).take(j + 1) =~= str_views(groups@[i as int]@).take(
                j as int,
            ).push(groups@[i as int]@[j as int]@));
            j = j + 1;
        }
        assert(str_views(groups@[i as int]@).take(groups@[i as int].len() as int) =~= str_views(
            groups@[i as int]@,
        ));
        i = i + 1;
    }
    assert(groups@.take(groups.len() as int) =~= groups@);
    out
}

/// The views of groups of strings, one after the other.
pub open spec fn flatten_views(gs: Seq<Vec<String>>) -> Seq<Seq<char>>
    decreases gs.len(),
{
    if gs.len() == 0 {
        seq![]
    } else {
        flatten_views(gs.drop_last()) + str_views(gs.last()@)
    }
}

/// The version the PaperMC API lists first for a project: its latest.
pub fn latest_listed_version(groups: &Vec<Vec<String>>) -> (r: Option<String>)
    ensures
        match r {
            Some(v) => flatten_views(groups@).len() > 0 && v@ == flatten_views(groups@)[0],
            None => flatten_views(groups@).len() == 0,
        },
{
    let all = project_versions(groups);
    if all.len() > 0 {
        Some(all[0].clone())
    } else {
        None
    }
}

} // verus!
