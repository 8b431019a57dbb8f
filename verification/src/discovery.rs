//! Finding the servers under the root folder: parsing `server.env`, naming
//! containers, reading `podman`'s answers, and ordering the list.
use vstd::prelude::*;
use crate::env::env_value;
use crate::numbers::{parse_unsigned, parse_unsigned_chars};
use crate::protocol::{ServerInfo, ServerStatus};
use crate::text::{
    chars_of, contains_seq, contains_vec, eq_vec, has_char, lines, lowercase, slice_of,
    split_lines, string_of, strip_end_char, strip_start_char, to_lowercase, trim, trim_char,
    trim_char_vec, trim_vec, views,
};

verus! {

// ---------------------------------------------------------------------------
// Parsing `server.env` into a map
// ---------------------------------------------------------------------------

/// The index of the first `c` in `s` (`s.len()` where there is none).
pub open spec fn index_of_char(s: Seq<char>, c: char) -> int
    decreases s.len(),
{
    if s.len() == 0 {
        0
    } else if s[0] == c {
        0
    } else {
        1 + index_of_char(s.drop_first(), c)
    }
}

/// The key and value of one line of `server.env`: trimmed; blank lines, comments
/// and lines without `'='` have none; the value loses its quotes, double then single.
pub open spec fn env_entry(line: Seq<char>) -> Option<(Seq<char>, Seq<char>)> {
    let t = trim(line);
    if t.len() == 0 || t[0] == '#' || !has_char(t, '=') {
        None
    } else {
        let k = index_of_char(t, '=');
        Some(
            (
                trim(t.take(k)),
                trim_char(trim_char(trim(t.skip(k + 1)), '"'), '\''),
            ),
        )
    }
}

/// The entries of the lines, in order.
pub open spec fn env_pairs(ls: Seq<Seq<char>>) -> Seq<(Seq<char>, Seq<char>)>
    decreases ls.len(),
{
    if ls.len() == 0 {
        seq![]
    } else {
        match env_entry(ls.last()) {
            Some(e) => env_pairs(ls.drop_last()).push(e),
            None => env_pairs(ls.drop_last()),
        }
    }
}

/// The map of the entries, a later one of a key replacing an earlier one.
pub open spec fn pairs_map(ps: Seq<(Seq<char>, Seq<char>)>) -> Map<Seq<char>, Seq<char>>
    decreases ps.len(),
{
    if ps.len() == 0 {
        Map::empty()
    } else {
        pairs_map(ps.drop_last()).insert(ps.last().0, ps.last().1)
    }
}

/// The map that the text of a `server.env` holds.
pub open spec fn env_map(content: Seq<char>) -> Map<Seq<char>, Seq<char>> {
    pairs_map(env_pairs(lines(content)))
}

/// The key-value pairs of a `server.env`, in the order of its lines.
pub struct EnvMap {
    pub entries: Vec<(String, String)>,
}

/// The views of the pairs.
pub open spec fn pair_views(es: Seq<(String, String)>) -> Seq<(Seq<char>, Seq<char>)> {
    Seq::new(es.len(), |i: int| (es[i].0@, es[i].1@))
}

impl View for EnvMap {
    type V = Map<Seq<char>, Seq<char>>;

    open spec fn view(&self) -> Map<Seq<char>, Seq<char>> {
        pairs_map(pair_views(self.entries@))
    }
}

fn index_of_char_vec(s: &Vec<char>, c: char) -> (r: usize)
    ensures
        r as int == index_of_char(s@, c),
        r <= s.len(),
        r < s.len() <==> has_char(s@, c),
{
    let mut i: usize = 0;
    assert(s@.skip(0) =~= s@);
    while i < s.len()
        invariant
            i <= s.len(),
            index_of_char(s@, c) == i + index_of_char(s@.skip(i as int), c),
            forall|k: int| 0 <= k < i ==> s@[k] != c,
        decreases s.len() - i,
    {
        if s[i] == c {
            return i;
        }
        assert(s@.skip(i as int).drop_first() =~= s@.skip(i + 1));
        i = i + 1;
    }
    i
}

fn env_entry_of(line: &Vec<char>) -> (r: Option<(Vec<char>, Vec<char>)>)
    ensures
        match r {
            Some(e) => env_entry(line@) == Some((e.0@, e.1@)),
            None => env_entry(line@) is None,
        },
{
    let t = trim_vec(line);
    if t.len() == 0 || t[0] == '#' {
        return None;
    }
    let k = index_of_char_vec(&t, '=');
    if k >= t.len() {
        return None;
    }
    let key_raw = slice_of(&t, 0, k);
    assert(key_raw@ =~= t@.take(k as int));
    let key = trim_vec(&key_raw);
    let val_raw = slice_of(&t, k + 1, t.len());
    assert(val_raw@ =~= t@.skip(k + 1));
    let v1 = trim_vec(&val_raw);
    let v2 = trim_char_vec(&v1, '"');
    let v3 = trim_char_vec(&v2, '\'');
    Some((key, v3))
}

/// The key-value pairs of a `server.env` text: per line, trimmed; blank lines,
/// `#` comments and lines without `'='` skipped; key and value split at the first
/// `'='`, both trimmed, the value stripped of double then single quotes.
pub fn parse_env_text(content: &str) -> (r: EnvMap)
    ensures
        pair_views(r.entries@) == env_pairs(lines(content@)),
        r@ == env_map(content@),
{
    let data = chars_of(content);
    let ls = split_lines(&data);
    let ghost v = views(ls@);
    let mut entries: Vec<(String, String)> = Vec::new();
    let mut i: usize = 0;
    assert(pair_views(entries@) =~= env_pairs(v.take(0)));
    while i < ls.len()
        invariant
            i <= ls.len(),
            v == views(ls@),
            pair_views(entries@) == env_pairs(v.take(i as int)),
        decreases ls.len() - i,
    {
        assert(v.take(i + 1).drop_last() =~= v.take(i as int));
        assert(v.take(i + 1).last() == ls@[i as int]@);
        match env_entry_of(&ls[i]) {
            Some(e) => {
                let ghost before = pair_views(entries@);
                let k = string_of(&e.0);
                let val = string_of(&e.1);
                entries.push((k, val));
                assert(pair_views(entries@) =~= before.push((e.0@, e.1@)));
            },
            None => {},
        }
        i = i + 1;
    }
    assert(v.take(ls.len() as int) =~= v);
    EnvMap { entries }
}

proof fn lemma_pairs_map_tail(ps: Seq<(Seq<char>, Seq<char>)>, j: int, k: Seq<char>)
    requires
        0 <= j <= ps.len(),
        forall|i: int| j <= i < ps.len() ==> (#[trigger] ps[i]).0 != k,
    ensures
        pairs_map(ps).contains_key(k) == pairs_map(ps.take(j)).contains_key(k),
        pairs_map(ps).contains_key(k) ==> pairs_map(ps)[k] == pairs_map(ps.take(j))[k],
    decreases ps.len() - j,
{
    if j == ps.len() {
        assert(ps.take(j) =~= ps);
    } else {
        assert(ps.drop_last().take(j) =~= ps.take(j));
        assert forall|i: int| j <= i < ps.drop_last().len() implies (
        #[trigger] ps.drop_last()[i]).0 != k by {
            assert(ps.drop_last()[i] == ps[i]);
        }
        lemma_pairs_map_tail(ps.drop_last(), j, k);
    }
}

impl EnvMap {
    /// The value of `key`: that of its last pair.
    pub fn get(&self, key: &str) -> (r: Option<String>)
        ensures
            match r {
                Some(v) => self@.contains_key(key@) && self@[key@] == v@,
                None => !self@.contains_key(key@),
            },
    {
        let ghost ps = pair_views(self.entries@);
        let mut j: usize = self.entries.len();
        while j > 0
            invariant
                j <= self.entries.len(),
                ps == pair_views(self.entries@),
                forall|i: int| j <= i < ps.len() ==> (#[trigger] ps[i]).0 != key@,
            decreases j,
        {
            let kc = chars_of(self.entries[j - 1].0.as_str());
            let kk = chars_of(key);
            if eq_vec(&kc, &kk) {
                proof {
                    lemma_pairs_map_tail(ps, j as int, key@);
                    assert(ps.take(j as int).drop_last() =~= ps.take(j - 1));
                    assert(ps.take(j as int).last() == ps[j - 1]);
                }
                return Some(self.entries[j - 1].1.clone());
            }
            j = j - 1;
        }
        proof {
            lemma_pairs_map_tail(ps, 0, key@);
            assert(ps.take(0) =~= seq![]);
        }
        None
    }
}

// ---------------------------------------------------------------------------
// Container names
// ---------------------------------------------------------------------------

/// The characters kept in a container name.
pub open spec fn is_name_char(c: char) -> bool {
    ||| ('a' <= c && c <= 'z')
    ||| ('A' <= c && c <= 'Z')
    ||| ('0' <= c && c <= '9')
    ||| c == '_'
    ||| c == '.'
    ||| c == '-'
}

/// The container name of a server folder: every other character becomes `'_'`,
/// leading and trailing `'_'` go, and an empty name becomes `server`.
pub open spec fn container_name(folder: Seq<char>) -> Seq<char> {
    let cleaned = Seq::new(folder.len(), |i: int| if is_name_char(folder[i]) { folder[i] } else { '_' });
    let trimmed = trim_char(cleaned, '_');
    if trimmed.len() == 0 {
        "server"@
    } else {
        trimmed
    }
}

/// The container name of a server folder (see `container_name`).
pub fn sanitize_container_name(folder: &str) -> (r: String)
    ensures
        r@ == container_name(folder@),
{
    let f = chars_of(folder);
    let mut cleaned: Vec<char> = Vec::new();
    let mut i: usize = 0;
    while i < f.len()
        invariant
            i <= f.len(),
            cleaned@ == Seq::new(i as nat, |k: int| if is_name_char(f@[k]) { f@[k] } else { '_' }),
        decreases f.len() - i,
    {
        let c = f[i];
        let keep = ('a' <= c && c <= 'z') || ('A' <= c && c <= 'Z') || ('0' <= c && c <= '9') || c
            == '_' || c == '.' || c == '-';
        cleaned.push(if keep { c } else { '_' });
        assert(cleaned@ =~= Seq::new(
            (i + 1) as nat,
            |k: int| if is_name_char(f@[k]) { f@[k] } else { '_' },
        ));
        i = i + 1;
    }
    let trimmed = trim_char_vec(&cleaned, '_');
    if trimmed.len() == 0 {
        String::from_str("server")
    } else {
        string_of(&trimmed)
    }
}

proof fn lemma_strip_start_first(s: Seq<char>, c: char)
    ensures
        strip_start_char(s, c).len() > 0 ==> strip_start_char(s, c)[0] != c,
        strip_start_char(s, c) == s.skip(s.len() - strip_start_char(s, c).len()),
        strip_start_char(s, c).len() <= s.len(),
    decreases s.len(),
{
    if s.len() > 0 && s[0] == c {
        lemma_strip_start_first(s.drop_first(), c);
        let r = strip_start_char(s.drop_first(), c);
        assert(s.drop_first().skip(s.drop_first().len() - r.len()) =~= s.skip(s.len() - r.len()));
    } else {
        assert(s.skip(0) =~= s);
    }
}

proof fn lemma_strip_end_last(s: Seq<char>, c: char)
    ensures
        strip_end_char(s, c).len() > 0 ==> strip_end_char(s, c).last() != c,
        strip_end_char(s, c) == s.take(strip_end_char(s, c).len() as int),
        strip_end_char(s, c).len() <= s.len(),
    decreases s.len(),
{
    if s.len() > 0 && s.last() == c {
        lemma_strip_end_last(s.drop_last(), c);
        let r = strip_end_char(s.drop_last(), c);
        assert(s.drop_last().take(r.len() as int) =~= s.take(r.len() as int));
    } else {
        assert(s.take(s.len() as int) =~= s);
    }
}

/// `s` with neither end `c` is its own `trim_char`.
proof fn lemma_trim_char_fixed(s: Seq<char>, c: char)
    requires
        s.len() > 0,
        s[0] != c,
        s.last() != c,
    ensures
        trim_char(s, c) == s,
{
}

/// Naming a container twice changes nothing: a container name is its own name.
pub proof fn law_container_name_idempotent(folder: Seq<char>)
    ensures
        container_name(container_name(folder)) == container_name(folder),
{
    let r = container_name(folder);
    let cleaned = Seq::new(folder.len(), |i: int| if is_name_char(folder[i]) { folder[i] } else { '_' });
    let t = trim_char(cleaned, '_');
    let a = strip_start_char(cleaned, '_');
    lemma_strip_start_first(cleaned, '_');
    lemma_strip_end_last(a, '_');
    if t.len() == 0 {
        reveal_strlit("server");
        assert(r =~= seq!['s', 'e', 'r', 'v', 'e', 'r']);
    } else {
        assert(t[0] == a[0]);
        assert(t[0] != '_');
        assert forall|i: int| 0 <= i < t.len() implies is_name_char(#[trigger] t[i]) by {
            assert(t[i] == a[i]);
            assert(a[i] == cleaned[cleaned.len() - a.len() + i]);
        }
    }
    assert(r.len() > 0);
    assert(r[0] != '_');
    assert(r.last() != '_');
    assert forall|i: int| 0 <= i < r.len() implies is_name_char(#[trigger] r[i]) by {
        if t.len() == 0 {
            assert(r =~= seq!['s', 'e', 'r', 'v', 'e', 'r']);
        }
    }
    let cleaned2 = Seq::new(r.len(), |i: int| if is_name_char(r[i]) { r[i] } else { '_' });
    assert(cleaned2 =~= r);
    lemma_trim_char_fixed(r, '_');
}

// ---------------------------------------------------------------------------
// What `podman` answers
// ---------------------------------------------------------------------------

/// What a finished command printed, and whether it succeeded.
pub struct CommandOutput {
    pub success: bool,
    pub stdout: String,
    pub stderr: String,
}

/// What `podman` said when a container does not exist.
pub open spec fn says_no_container(stderr: Seq<char>) -> bool {
    contains_seq(lowercase(stderr), "no such container"@) || contains_seq(
        lowercase(stderr),
        "no container with name"@,
    )
}

fn says_no_container_exec(stderr: &str) -> (r: bool)
    ensures
        r == says_no_container(stderr@),
{
    let low = to_lowercase(stderr);
    let l = chars_of(low.as_str());
    let a = chars_of("no such container");
    let b = chars_of("no container with name");
    contains_vec(&l, &a) || contains_vec(&l, &b)
}

/// The status of a container by the state that `podman inspect` printed.
pub open spec fn status_of_state(s: Seq<char>) -> ServerStatus {
    if s == "running"@ {
        ServerStatus::Running
    } else if s == "stopping"@ || s == "restarting"@ {
        ServerStatus::Restarting
    } else if s == "exited"@ || s == "created"@ || s == "stopped"@ || s == "configured"@ || s
        == "paused"@ || s == "removing"@ {
        ServerStatus::Stopped
    } else {
        ServerStatus::Unknown
    }
}

/// The status of a container from the answer of `podman inspect` (none where the
/// command could not be run).
pub open spec fn status_of_output(
    ran: bool,
    success: bool,
    stdout: Seq<char>,
    stderr: Seq<char>,
) -> ServerStatus {
    if !ran {
        ServerStatus::Unknown
    } else if success {
        status_of_state(trim(stdout))
    } else if says_no_container(stderr) {
        ServerStatus::Missing
    } else {
        ServerStatus::Unknown
    }
}

fn is_literal(s: &Vec<char>, lit: &str) -> (r: bool)
    ensures
        r == (s@ == lit@),
{
    let l = chars_of(lit);
    eq_vec(s, &l)
}

/// The status of a container from what `podman inspect -f {{.State.Status}}`
/// answered.
pub fn container_status_from(output: Option<&CommandOutput>) -> (r: ServerStatus)
    ensures
        r == match output {
            Some(o) => status_of_output(true, o.success, o.stdout@, o.stderr@),
            None => status_of_output(false, false, seq![], seq![]),
        },
{
    match output {
        None => ServerStatus::Unknown,
        Some(o) => {
            if o.success {
                let raw = chars_of(o.stdout.as_str());
                let s = trim_vec(&raw);
                if is_literal(&s, "running") {
                    ServerStatus::Running
                } else if is_literal(&s, "stopping") || is_literal(&s, "restarting") {
                    ServerStatus::Restarting
                } else if is_literal(&s, "exited") || is_literal(&s, "created") || is_literal(
                    &s,
                    "stopped",
                ) || is_literal(&s, "configured") || is_literal(&s, "paused") || is_literal(
                    &s,
                    "removing",
                ) {
                    ServerStatus::Stopped
                } else {
                    ServerStatus::Unknown
                }
            } else if says_no_container_exec(o.stderr.as_str()) {
                ServerStatus::Missing
            } else {
                ServerStatus::Unknown
            }
        },
    }
}

/// Whether `podman inspect -f {{.State.Running}}` said the container runs.
pub fn is_running_from(output: Option<&CommandOutput>) -> (r: bool)
    ensures
        r == match output {
            Some(o) => o.success && trim(o.stdout@) == "true"@,
            None => false,
        },
{
    match output {
        None => false,
        Some(o) => {
            if o.success {
                let raw = chars_of(o.stdout.as_str());
                let s = trim_vec(&raw);
                is_literal(&s, "true")
            } else {
                false
            }
        },
    }
}

/// The outcome of `podman rm`: a failure because the container was already gone
/// counts as done; any other failure is an error that quotes `podman`.
pub fn delete_outcome(output: &CommandOutput) -> (r: Result<(), String>)
    ensures
        r is Ok <==> (output.success || says_no_container(output.stderr@)),
        r matches Err(m) ==> m@ == "Error interno de Podman: "@ + trim(output.stderr@),
{
    if output.success || says_no_container_exec(output.stderr.as_str()) {
        Ok(())
    } else {
        let mut m: Vec<char> = Vec::new();
        crate::text::push_str(&mut m, "Error interno de Podman: ");
        let raw = chars_of(output.stderr.as_str());
        let t = trim_vec(&raw);
        crate::text::extend(&mut m, &t);
        Err(string_of(&m))
    }
}

// ---------------------------------------------------------------------------
// The list of servers
// ---------------------------------------------------------------------------

/// The value of `key` in the map, or `default`.
pub open spec fn get_or(m: Map<Seq<char>, Seq<char>>, key: Seq<char>, default: Seq<char>) -> Seq<
    char,
> {
    if m.contains_key(key) {
        m[key]
    } else {
        default
    }
}

/// The port of a server from its `SERVER_PORT`, 25565 where that is missing or
/// not a port.
pub open spec fn port_of(m: Map<Seq<char>, Seq<char>>) -> u16 {
    if m.contains_key("SERVER_PORT"@) && parse_unsigned(m["SERVER_PORT"@], 65535) is Some {
        parse_unsigned(m["SERVER_PORT"@], 65535)->0 as u16
    } else {
        25565
    }
}

/// The Minecraft version of a server: `MC_VERSION`, else `SERVER_MC_VERSION`.
pub open spec fn mc_version_of(m: Map<Seq<char>, Seq<char>>) -> Seq<char> {
    if m.contains_key("MC_VERSION"@) {
        m["MC_VERSION"@]
    } else {
        get_or(m, "SERVER_MC_VERSION"@, seq![])
    }
}

/// The entry of the list for a server folder, its `server.env` and its status.
pub open spec fn server_info_matches(
    r: ServerInfo,
    folder: Seq<char>,
    m: Map<Seq<char>, Seq<char>>,
    status: ServerStatus,
) -> bool {
    &&& r.id@ == container_name(folder)
    &&& r.display_name@ == get_or(m, "SERVER_NAME"@, folder)
    &&& r.server_type@ == get_or(m, "SERVER_TYPE"@, seq![])
    &&& r.port == port_of(m)
    &&& r.mc_version@ == mc_version_of(m)
    &&& r.mod_source@ == get_or(m, "MOD_SOURCE"@, "requirements"@)
    &&& r.status == status
}

/// The entry of the server list for a folder, from its `server.env`: the
/// container name as id; the name, type, port (25565 by default), Minecraft
/// version and mod source (`requirements` by default); and the status.
pub fn server_info_from_env(folder: &str, env: &EnvMap, status: ServerStatus) -> (r: ServerInfo)
    ensures
        server_info_matches(r, folder@, env@, status),
{
    let id = sanitize_container_name(folder);
    let display_name = match env.get("SERVER_NAME") {
        Some(v) => v,
        None => String::from_str(folder),
    };
    let server_type = match env.get("SERVER_TYPE") {
        Some(v) => v,
        None => String::new(),
    };
    let port: u16 = match env.get("SERVER_PORT") {
        Some(v) => {
            let cs = chars_of(v.as_str());
            match parse_unsigned_chars(&cs, 65535) {
                Some(p) => p as u16,
                None => 25565,
            }
        },
        None => 25565,
    };
    let mc_version = match env.get("MC_VERSION") {
        Some(v) => v,
        None => match env.get("SERVER_MC_VERSION") {
            Some(v) => v,
            None => String::new(),
        },
    };
    let mod_source = match env.get("MOD_SOURCE") {
        Some(v) => v,
        None => String::from_str("requirements"),
    };
    ServerInfo { id, display_name, server_type, port, mc_version, mod_source, status }
}

/// `a <= b` in the order of `str`: by characters (which, for UTF-8, is the
/// order of the bytes), a prefix first.
pub open spec fn text_le(a: Seq<char>, b: Seq<char>) -> bool
    decreases a.len(),
{
    if a.len() == 0 {
        true
    } else if b.len() == 0 {
        false
    } else if a[0] != b[0] {
        a[0] < b[0]
    } else {
        text_le(a.drop_first(), b.drop_first())
    }
}

/// Whether `a <= b` in the order of `str`.
pub fn text_le_exec(a: &str, b: &str) -> (r: bool)
    ensures
        r == text_le(a@, b@),
{
    let x = chars_of(a);
    let y = chars_of(b);
    let mut i: usize = 0;
    assert(x@.skip(0) =~= x@);
    assert(y@.skip(0) =~= y@);
    while i < x.len() && i < y.len() && x[i] == y[i]
        invariant
            i <= x.len(),
            i <= y.len(),
            text_le(a@, b@) == text_le(x@.skip(i as int), y@.skip(i as int)),
            x@ == a@,
            y@ == b@,
        decreases x.len() - i,
    {
        assert(x@.skip(i as int).drop_first() =~= x@.skip(i + 1));
        assert(y@.skip(i as int).drop_first() =~= y@.skip(i + 1));
        i = i + 1;
    }
    if i == x.len() {
        true
    } else if i == y.len() {
        false
    } else {
        x[i] < y[i]
    }
}

pub proof fn lemma_text_le_total(a: Seq<char>, b: Seq<char>)
    ensures
        text_le(a, b) || text_le(b, a),
    decreases a.len(),
{
    if a.len() > 0 && b.len() > 0 && a[0] == b[0] {
        lemma_text_le_total(a.drop_first(), b.drop_first());
    }
}

pub proof fn lemma_text_le_trans(a: Seq<char>, b: Seq<char>, c: Seq<char>)
    requires
        text_le(a, b),
        text_le(b, c),
    ensures
        text_le(a, c),
    decreases a.len(),
{
    if a.len() > 0 && b.len() > 0 && c.len() > 0 && a[0] == b[0] && b[0] == c[0] {
        lemma_text_le_trans(a.drop_first(), b.drop_first(), c.drop_first());
    }
}

/// The id of a server, by which the list is ordered.
pub open spec fn server_id(s: ServerInfo) -> Seq<char> {
    s.id@
}

/// The servers ordered by id.
pub open spec fn sorted_by_id(s: Seq<ServerInfo>) -> bool {
    crate::sort::sorted_by_fn(s, |x: ServerInfo| server_id(x))
}

/// The server list ordered by id (`sort_by` on `id`, which keeps the order of
/// servers with the same id).
pub fn sort_servers(v: Vec<ServerInfo>) -> (r: Vec<ServerInfo>)
    ensures
        sorted_by_id(r@),
        r@.to_multiset() == v@.to_multiset(),
        crate::sort::keeps_order_of_ties(r@, v@, |x: ServerInfo| server_id(x)),
{
    let key = |x: &ServerInfo| -> (s: String)
        ensures
            s@ == x.id@,
        { x.id.clone() };
    crate::sort::sort_with_key(v, &key, Ghost(|x: ServerInfo| server_id(x)))
}

/// One server folder seen under the root: its name, its `server.env`, and the
/// status of its container.
pub struct FoundServer {
    pub folder: String,
    pub env: EnvMap,
    pub status: ServerStatus,
}

/// The server list: one entry per folder with a `server.env`, ordered by id.
pub fn build_server_list(found: &Vec<FoundServer>) -> (r: Vec<ServerInfo>)
    ensures
        sorted_by_id(r@),
        r@.len() == found@.len(),
        exists|p: Seq<ServerInfo>|
            #![trigger p.to_multiset()]
            p.len() == found@.len() && p.to_multiset() == r@.to_multiset() && forall|i: int|
                0 <= i < found@.len() ==> server_info_matches(
                    #[trigger] p[i],
                    found@[i].folder@,
                    found@[i].env@,
                    found@[i].status,
                ),
{
    let mut infos: Vec<ServerInfo> = Vec::new();
    let mut i: usize = 0;
    while i < found.len()
        invariant
            i <= found.len(),
            infos@.len() == i,
            forall|k: int|
                0 <= k < i ==> server_info_matches(
                    #[trigger] infos@[k],
                    found@[k].folder@,
                    found@[k].env@,
                    found@[k].status,
                ),
        decreases found.len() - i,
    {
        let f = &found[i];
        infos.push(server_info_from_env(f.folder.as_str(), &f.env, f.status));
        i = i + 1;
    }
    let ghost p = infos@;
    let r = sort_servers(infos);
    proof {
        broadcast use vstd::seq_lib::group_to_multiset_ensures;
        assert(r@.len() == p.len()) by {
            assert(r@.to_multiset().len() == r@.len());
            assert(p.to_multiset().len() == p.len());
        }
    }
    r
}

/// Whether some `server.env` gives `SERVER_PORT` as `port`.
pub open spec fn port_registered(envs: Seq<Map<Seq<char>, Seq<char>>>, port: u16) -> bool {
    exists|i: int|
        0 <= i < envs.len() && (#[trigger] envs[i]).contains_key("SERVER_PORT"@) && parse_unsigned(
            envs[i]["SERVER_PORT"@],
            65535,
        ) == Some(port as nat)
}

/// Whether one of the servers' `server.env` already has `port` as its port.
pub fn is_port_registered(envs: &Vec<EnvMap>, port: u16) -> (r: bool)
    ensures
        r == port_registered(Seq::new(envs@.len(), |i: int| envs@[i]@), port),
{
    let ghost ms = Seq::new(envs@.len(), |i: int| envs@[i]@);
    let mut i: usize = 0;
    while i < envs.len()
        invariant
            i <= envs.len(),
            ms == Seq::new(envs@.len(), |i: int| envs@[i]@),
            forall|k: int|
                0 <= k < i ==> !((#[trigger] ms[k]).contains_key("SERVER_PORT"@) && parse_unsigned(
                    ms[k]["SERVER_PORT"@],
                    65535,
                ) == Some(port as nat)),
        decreases envs.len() - i,
    {
        assert(ms[i as int] == envs@[i as int]@);
        match envs[i].get("SERVER_PORT") {
            Some(v) => {
                let cs = chars_of(v.as_str());
                match parse_unsigned_chars(&cs, 65535) {
                    Some(p) => {
                        if p == port as u64 {
                            return true;
                        }
                    },
                    None => {},
                }
            },
            None => {},
        }
        i = i + 1;
    }
    false
}

/// The port that a `server.env` gives in its first `SERVER_PORT=` line.
pub open spec fn env_port(text: Seq<char>) -> Option<nat> {
    match env_value(text, "SERVER_PORT"@) {
        Some(v) => parse_unsigned(v, 65535),
        None => None,
    }
}

/// The first other server, in the order given, whose `server.env` takes `port`.
pub open spec fn port_taker(others: Seq<(Seq<char>, Seq<char>)>, id: Seq<char>, port: u16) -> Option<
    Seq<char>,
>
    decreases others.len(),
{
    if others.len() == 0 {
        None
    } else if others[0].0 != id && env_port(others[0].1) == Some(port as nat) {
        Some(others[0].0)
    } else {
        port_taker(others.drop_first(), id, port)
    }
}

/// Which other server already uses `port`, from the folders and the `server.env`
/// texts that could be read.
pub fn port_taken_by(others: &Vec<(String, String)>, id: &str, port: u16) -> (r: Option<String>)
    ensures
        match r {
            Some(o) => port_taker(pair_views(others@), id@, port) == Some(o@),
            None => port_taker(pair_views(others@), id@, port) is None,
        },
{
    let ghost ps = pair_views(others@);
    let mut i: usize = 0;
    assert(ps.skip(0) =~= ps);
    while i < others.len()
        invariant
            i <= others.len(),
            ps == pair_views(others@),
            port_taker(ps, id@, port) == port_taker(ps.skip(i as int), id@, port),
        decreases others.len() - i,
    {
        assert(ps.skip(i as int)[0] == (others@[i as int].0@, others@[i as int].1@));
        let a = chars_of(others[i].0.as_str());
        let b = chars_of(id);
        if !eq_vec(&a, &b) {
            match crate::env::read_env_value(others[i].1.as_str(), "SERVER_PORT") {
                Some(v) => {
                    let cs = chars_of(v.as_str());
                    match parse_unsigned_chars(&cs, 65535) {
                        Some(p) => {
                            if p == port as u64 {
                                return Some(others[i].0.clone());
                            }
                        },
                        None => {},
                    }
                },
                None => {},
            }
        }
        assert(ps.skip(i as int).drop_first() =~= ps.skip(i + 1));
        i = i + 1;
    }
    None
}

/// A server is never told that its own port is taken by itself: the server
/// named is another one, listed with a `server.env` that gives that port.
pub proof fn law_port_taker_is_another(others: Seq<(Seq<char>, Seq<char>)>, id: Seq<char>, port: u16)
    ensures
        port_taker(others, id, port) matches Some(o) ==> o != id && exists|i: int|
            0 <= i < others.len() && #[trigger] others[i] == (o, others[i].1) && env_port(
                others[i].1,
            ) == Some(port as nat),
    decreases others.len(),
{
    if others.len() > 0 {
        law_port_taker_is_another(others.drop_first(), id, port);
        if port_taker(others, id, port) != port_taker(others.drop_first(), id, port) {
            assert(others[0] == (others[0].0, others[0].1));
        } else if let Some(o) = port_taker(others, id, port) {
            let i = choose|i: int|
                0 <= i < others.drop_first().len() && #[trigger] others.drop_first()[i] == (
                    o,
                    others.drop_first()[i].1,
                ) && env_port(others.drop_first()[i].1) == Some(port as nat);
            assert(others[i + 1] == others.drop_first()[i]);
        }
    }
}

/// What a successful `podman inspect` answer means, by the state it printed
/// (trimmed): `running` is running; `stopping` and `restarting` are restarting;
/// `exited`, `created`, `stopped`, `configured`, `paused` and `removing` are
/// stopped; any other state is unknown. What the command wrote on its error
/// stream does not matter then.
pub proof fn law_podman_states(stdout: Seq<char>, stderr: Seq<char>)
    ensures
        ({
            let t = trim(stdout);
            let r = status_of_output(true, true, stdout, stderr);
            &&& t == "running"@ ==> r == ServerStatus::Running
            &&& (t == "stopping"@ || t == "restarting"@) ==> r == ServerStatus::Restarting
            &&& (t == "exited"@ || t == "created"@ || t == "stopped"@ || t == "configured"@ || t
                == "paused"@ || t == "removing"@) ==> r == ServerStatus::Stopped
            &&& !(t == "running"@ || t == "stopping"@ || t == "restarting"@ || t == "exited"@ || t
                == "created"@ || t == "stopped"@ || t == "configured"@ || t == "paused"@ || t
                == "removing"@) ==> r == ServerStatus::Unknown
            &&& r == status_of_output(true, true, stdout, seq![])
        }),
{
    reveal_strlit("running");
    reveal_strlit("stopping");
    reveal_strlit("restarting");
    reveal_strlit("exited");
    reveal_strlit("created");
    reveal_strlit("stopped");
    reveal_strlit("configured");
    reveal_strlit("paused");
    reveal_strlit("removing");
    assert("running"@.len() != "exited"@.len());
    assert("running"@ != "exited"@);
    assert("running"@[0] != "created"@[0]);
    assert("running"@ != "created"@);
    assert("running"@[0] != "stopped"@[0]);
    assert("running"@ != "stopped"@);
    assert("running"@.len() != "configured"@.len());
    assert("running"@ != "configured"@);
    assert("running"@.len() != "paused"@.len());
    assert("running"@ != "paused"@);
    assert("running"@.len() != "removing"@.len());
    assert("running"@ != "removing"@);
    assert("running"@.len() != "stopping"@.len());
    assert("running"@ != "stopping"@);
    assert("running"@.len() != "restarting"@.len());
    assert("running"@ != "restarting"@);
    assert("stopping"@.len() != "exited"@.len());
    assert("stopping"@ != "exited"@);
    assert("stopping"@.len() != "created"@.len());
    assert("stopping"@ != "created"@);
    assert("stopping"@.len() != "stopped"@.len());
    assert("stopping"@ != "stopped"@);
    assert("stopping"@.len() != "configured"@.len());
    assert("stopping"@ != "configured"@);
    assert("stopping"@.len() != "paused"@.len());
    assert("stopping"@ != "paused"@);
    assert("stopping"@[0] != "removing"@[0]);
    assert("stopping"@ != "removing"@);
    assert("stopping"@.len() != "restarting"@.len());
    assert("stopping"@ != "restarting"@);
    assert("restarting"@.len() != "exited"@.len());
    assert("restarting"@ != "exited"@);
    assert("restarting"@.len() != "created"@.len());
    assert("restarting"@ != "created"@);
    assert("restarting"@.len() != "stopped"@.len());
    assert("restarting"@ != "stopped"@);
    assert("restarting"@[0] != "configured"@[0]);
    assert("restarting"@ != "configured"@);
    assert("restarting"@.len() != "paused"@.len());
    assert("restarting"@ != "paused"@);
    assert("restarting"@.len() != "removing"@.len());
    assert("restarting"@ != "removing"@);
    assert("restarting"@.len() != "stopping"@.len());
    assert("restarting"@ != "stopping"@);
}

} // verus!
