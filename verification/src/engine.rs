//! Installing a server engine: which PaperMC build and which Fabric installer to
//! take, which jar launches a mod loader, and the commands that run installers.
use vstd::prelude::*;
use crate::text::{
    chars_of, contains_seq, contains_vec, ends_with, ends_with_vec, lines, lowercase, push_str,
    split_lines, str_is, str_views, string_of, to_lowercase, trim, trim_vec, views, join,
};

verus! {

// ---------------------------------------------------------------------------
// PaperMC builds
// ---------------------------------------------------------------------------

/// A build as the PaperMC API lists it, as far as it was given.
pub struct PaperBuild {
    pub id: Option<String>,
    pub channel: Option<String>,
    pub jar_name: Option<String>,
    pub url: Option<String>,
}

/// A build on the `STABLE` or `RECOMMENDED` channel.
pub open spec fn is_stable_build(b: PaperBuild) -> bool {
    b.channel matches Some(c) && (c@ == "STABLE"@ || c@ == "RECOMMENDED"@)
}

/// The index of the build to install: the first stable one, else the first.
pub open spec fn chosen_build(bs: Seq<PaperBuild>) -> int {
    if exists|i: int| 0 <= i < bs.len() && is_stable_build(bs[i]) {
        choose|i: int|
            0 <= i < bs.len() && is_stable_build(bs[i]) && forall|k: int|
                0 <= k < i ==> !is_stable_build(#[trigger] bs[k])
    } else {
        0
    }
}

/// What installing from a list of builds comes to: the jar's name (`server.jar`
/// where none is given) and its URL, or why not.
pub open spec fn paper_choice(builds: Option<Seq<PaperBuild>>) -> Result<(Seq<char>, Seq<char>), Seq<char>> {
    match builds {
        None => Err("Respuesta inválida de builds"@),
        Some(bs) => if bs.len() == 0 {
            Err("No hay compilaciones disponibles"@)
        } else {
            let b = bs[chosen_build(bs)];
            match b.url {
                None => Err("No se encontró la url de descarga"@),
                Some(u) => Ok(
                    (
                        match b.jar_name {
                            Some(n) => n@,
                            None => "server.jar"@,
                        },
                        u@,
                    ),
                ),
            }
        },
    }
}

/// The jar name and download URL of the build to install from the builds the
/// PaperMC API answered (`None` where the answer was not a list).
pub fn pick_paper_build(builds: &Option<Vec<PaperBuild>>) -> (r: Result<(String, String), String>)
    ensures
        match (r, paper_choice(
            match builds {
                Some(b) => Some(b@),
                None => None,
            },
        )) {
            (Ok(p), Ok(q)) => p.0@ == q.0 && p.1@ == q.1,
            (Err(m), Err(n)) => m@ == n,
            _ => false,
        },
{
    let bs = match builds {
        None => {
            return Err(String::from_str("Respuesta inválida de builds"));
        },
        Some(b) => b,
    };
    if bs.len() == 0 {
        return Err(String::from_str("No hay compilaciones disponibles"));
    }
    let ci = chosen_index(bs);
    let b = &bs[ci];
    match &b.url {
        None => Err(String::from_str("No se encontró la url de descarga")),
        Some(u) => {
            let jar = match &b.jar_name {
                Some(n) => n.clone(),
                None => String::from_str("server.jar"),
            };
            Ok((jar, u.clone()))
        },
    }
}

fn chosen_index(bs: &Vec<PaperBuild>) -> (r: usize)
    requires
        bs@.len() > 0,
    ensures
        r == chosen_build(bs@),
        r < bs@.len(),
{
    let mut ci: usize = 0;
    let mut found = false;
    let mut i: usize = 0;
    while i < bs.len()
        invariant
            i <= bs.len(),
            found ==> ci < bs.len() && is_stable_build(bs@[ci as int]) && forall|k: int|
                0 <= k < ci ==> !is_stable_build(#[trigger] bs@[k]),
            !found ==> ci == 0 && forall|k: int| 0 <= k < i ==> !is_stable_build(#[trigger] bs@[k]),
        decreases bs.len() - i,
    {
        if !found {
            let stable = match &bs[i].channel {
                Some(c) => str_is(c.as_str(), "STABLE") || str_is(c.as_str(), "RECOMMENDED"),
                None => false,
            };
            if stable {
                found = true;
                ci = i;
            }
        }
        i = i + 1;
    }
    proof {
        if found {
            let w = chosen_build(bs@);
            assert(0 <= w < bs@.len() && is_stable_build(bs@[w]));
            if w < ci {
                assert(!is_stable_build(bs@[w]));
            }
            if ci < w {
                assert(!is_stable_build(bs@[ci as int]));
            }
            assert(w == ci);
        } else {
            assert(!exists|i: int| 0 <= i < bs@.len() && is_stable_build(bs@[i]));
        }
    }
    ci
}

/// The id of the build to install (none where the builds are not a list, are
/// none, or the build has no id).
pub fn chosen_build_id(builds: &Option<Vec<PaperBuild>>) -> (r: Option<String>)
    ensures
        match builds {
            Some(bs) if bs@.len() > 0 => match bs@[chosen_build(bs@)].id {
                Some(i) => r matches Some(x) && x@ == i@,
                None => r is None,
            },
            _ => r is None,
        },
{
    match builds {
        None => None,
        Some(bs) => {
            if bs.len() == 0 {
                return None;
            }
            let ci = chosen_index(bs);
            match &bs[ci].id {
                Some(i) => Some(i.clone()),
                None => None,
            }
        },
    }
}

/// The PaperMC API's list of builds of a project's version.
pub open spec fn paper_builds_address(project: Seq<char>, mc_version: Seq<char>) -> Seq<char> {
    "https://fill.papermc.io/v3/projects/"@ + project + "/versions/"@ + mc_version + "/builds"@
}

/// The address of the builds of `project` for `mc_version`.
pub fn paper_builds_url(project: &str, mc_version: &str) -> (r: String)
    ensures
        r@ == paper_builds_address(project@, mc_version@),
{
    let mut out: Vec<char> = Vec::new();
    push_str(&mut out, "https://fill.papermc.io/v3/projects/");
    push_str(&mut out, project);
    push_str(&mut out, "/versions/");
    push_str(&mut out, mc_version);
    push_str(&mut out, "/builds");
    string_of(&out)
}

/// The message for a version that the PaperMC API does not know for a project.
pub fn paper_version_error(mc_version: &str, project: &str) -> (r: String)
    ensures
        r@ == "La versión "@ + mc_version@ + " no es válida para "@ + project@,
{
    let mut out: Vec<char> = Vec::new();
    push_str(&mut out, "La versión ");
    push_str(&mut out, mc_version);
    push_str(&mut out, " no es válida para ");
    push_str(&mut out, project);
    string_of(&out)
}

// ---------------------------------------------------------------------------
// Fabric
// ---------------------------------------------------------------------------

/// An installer as Fabric's meta service lists it, as far as it was given.
pub struct FabricInstaller {
    pub stable: Option<bool>,
    pub version: Option<String>,
}

/// A stable installer.
pub open spec fn is_stable_installer(f: FabricInstaller) -> bool {
    f.stable == Some(true)
}

/// The installer version to use: that of the first stable installer where it
/// has one, else `1.0.1`.
pub open spec fn fabric_version_choice(installers: Option<Seq<FabricInstaller>>) -> Seq<char> {
    match installers {
        Some(a) if exists|i: int| 0 <= i < a.len() && is_stable_installer(a[i]) => {
            let j = choose|j: int|
                0 <= j < a.len() && is_stable_installer(a[j]) && forall|k: int|
                    0 <= k < j ==> !is_stable_installer(#[trigger] a[k]);
            match a[j].version {
                Some(v) => v@,
                None => "1.0.1"@,
            }
        },
        _ => "1.0.1"@,
    }
}

/// The Fabric installer version to download, from the meta service's list
/// (`None` where the answer was not a list).
pub fn fabric_installer_version(installers: &Option<Vec<FabricInstaller>>) -> (r: String)
    ensures
        r@ == fabric_version_choice(
            match installers {
                Some(a) => Some(a@),
                None => None,
            },
        ),
{
    match installers {
        None => String::from_str("1.0.1"),
        Some(a) => {
            let mut i: usize = 0;
            while i < a.len()
                invariant
                    i <= a.len(),
                    *installers == Some(*a),
                    forall|k: int| 0 <= k < i ==> !is_stable_installer(#[trigger] a@[k]),
                decreases a.len() - i,
            {
                if a[i].stable == Some(true) {
                    proof {
                        let j = choose|j: int|
                            0 <= j < a@.len() && is_stable_installer(a@[j]) && forall|k: int|
                                0 <= k < j ==> !is_stable_installer(#[trigger] a@[k]);
                        assert(is_stable_installer(a@[i as int]));
                        if j < i {
                            assert(!is_stable_installer(a@[j]));
                        }
                        if i < j {
                            assert(!is_stable_installer(a@[i as int]));
                        }
                        assert(j == i);
                    }
                    return match &a[i].version {
                        Some(v) => v.clone(),
                        None => String::from_str("1.0.1"),
                    };
                }
                i = i + 1;
            }
            String::from_str("1.0.1")
        },
    }
}

/// Where an installer version of Fabric is downloaded from.
pub open spec fn fabric_installer_address(version: Seq<char>) -> Seq<char> {
    "https://maven.fabricmc.net/net/fabricmc/fabric-installer/"@ + version
        + "/fabric-installer-"@ + version + ".jar"@
}

/// The download address of a Fabric installer version.
pub fn fabric_installer_url(version: &str) -> (r: String)
    ensures
        r@ == fabric_installer_address(version@),
{
    let mut out: Vec<char> = Vec::new();
    push_str(&mut out, "https://maven.fabricmc.net/net/fabricmc/fabric-installer/");
    push_str(&mut out, version);
    push_str(&mut out, "/fabric-installer-");
    push_str(&mut out, version);
    push_str(&mut out, ".jar");
    string_of(&out)
}

// ---------------------------------------------------------------------------
// The jar a mod loader is launched with
// ---------------------------------------------------------------------------

/// A jar that is not an installer (its lowercase name lacks `installer`).
pub open spec fn is_launch_jar(name: Seq<char>) -> bool {
    ends_with(name, ".jar"@) && !contains_seq(lowercase(name), "installer"@)
}

/// The last launch jar among `names`.
pub open spec fn last_launch_jar(names: Seq<Seq<char>>) -> Option<Seq<char>>
    decreases names.len(),
{
    if names.len() == 0 {
        None
    } else if is_launch_jar(names.last()) {
        Some(names.last())
    } else {
        last_launch_jar(names.drop_last())
    }
}

/// The jar to launch a server with, out of the file names that its folder lists
/// after a mod loader was installed: the last jar that is not an installer.
pub fn find_launch_jar(names: &Vec<String>) -> (r: Result<String, String>)
    ensures
        match last_launch_jar(str_views(names@)) {
            Some(n) => r matches Ok(s) && s@ == n,
            None => r matches Err(m) && m@ == "No encontré un jar ejecutable tras la instalación"@,
        },
{
    let jar = chars_of(".jar");
    let inst = chars_of("installer");
    let ghost ns = str_views(names@);
    let mut i: usize = names.len();
    assert(ns.take(names.len() as int) =~= ns);
    while i > 0
        invariant
            i <= names.len(),
            ns == str_views(names@),
            jar@ == ".jar"@,
            inst@ == "installer"@,
            last_launch_jar(ns) == last_launch_jar(ns.take(i as int)),
        decreases i,
    {
        let ghost t = ns.take(i as int);
        assert(t.last() == names@[i - 1]@);
        assert(t.drop_last() =~= ns.take(i - 1));
        let c = chars_of(names[i - 1].as_str());
        let low = to_lowercase(names[i - 1].as_str());
        let lc = chars_of(low.as_str());
        if ends_with_vec(&c, &jar) && !contains_vec(&lc, &inst) {
            return Ok(names[i - 1].clone());
        }
        i = i - 1;
    }
    assert(ns.take(0) =~= Seq::<Seq<char>>::empty());
    Err(String::from_str("No encontré un jar ejecutable tras la instalación"))
}

// ---------------------------------------------------------------------------
// Installer commands (run in a throwaway container)
// ---------------------------------------------------------------------------

/// The arguments of `podman run` that every installer container starts with:
/// removed afterwards, on the host network, as the user, with the server's folder
/// mounted at `/data`.
pub open spec fn container_prefix(volume: Seq<char>) -> Seq<Seq<char>> {
    seq![
        "run"@, "--rm"@, "--network"@, "host"@, "--userns=keep-id"@, "-v"@, volume, "-w"@,
        "/data"@,
    ]
}

/// The volume of a server folder: mounted at `/data`, relabelled for the container.
pub open spec fn data_volume(dir: Seq<char>) -> Seq<char> {
    dir + ":/data:Z"@
}

/// The Java image installers run in.
pub open spec fn installer_image() -> Seq<char> {
    "docker.io/library/eclipse-temurin:21-jre"@
}

fn push_owned(v: &mut Vec<String>, s: &str)
    ensures
        final(v)@.len() == old(v)@.len() + 1,
        forall|k: int| 0 <= k < old(v)@.len() ==> final(v)@[k] == old(v)@[k],
        final(v)@.last()@ == s@,
{
    v.push(String::from_str(s));
}

fn prefix_args(dir: &str) -> (r: Vec<String>)
    ensures
        str_views(r@) == container_prefix(data_volume(dir@)).push(installer_image()),
{
    let mut vol: Vec<char> = Vec::new();
    push_str(&mut vol, dir);
    push_str(&mut vol, ":/data:Z");
    let mut v: Vec<String> = Vec::new();
    push_owned(&mut v, "run");
    push_owned(&mut v, "--rm");
    push_owned(&mut v, "--network");
    push_owned(&mut v, "host");
    push_owned(&mut v, "--userns=keep-id");
    push_owned(&mut v, "-v");
    v.push(string_of(&vol));
    push_owned(&mut v, "-w");
    push_owned(&mut v, "/data");
    push_owned(&mut v, "docker.io/library/eclipse-temurin:21-jre");
    assert(str_views(v@) =~= container_prefix(data_volume(dir@)).push(installer_image()));
    v
}

/// `podman` arguments that run the Fabric installer for a Minecraft version and
/// loader in the server folder `dir`, downloading Minecraft too.
pub fn fabric_install_args(dir: &str, mc_version: &str, loader: &str) -> (r: Vec<String>)
    ensures
        str_views(r@) == container_prefix(data_volume(dir@)).push(installer_image()) + seq![
            "java"@,
            "-jar"@,
            "fabric-installer.jar"@,
            "server"@,
            "-mcVersion"@,
            mc_version@,
            "-loader"@,
            loader@,
            "-downloadMinecraft"@,
        ],
{
    let mut v = prefix_args(dir);
    let ghost p = str_views(v@);
    push_owned(&mut v, "java");
    push_owned(&mut v, "-jar");
    push_owned(&mut v, "fabric-installer.jar");
    push_owned(&mut v, "server");
    push_owned(&mut v, "-mcVersion");
    push_owned(&mut v, mc_version);
    push_owned(&mut v, "-loader");
    push_owned(&mut v, loader);
    push_owned(&mut v, "-downloadMinecraft");
    assert(str_views(v@) =~= p + seq![
        "java"@,
        "-jar"@,
        "fabric-installer.jar"@,
        "server"@,
        "-mcVersion"@,
        mc_version@,
        "-loader"@,
        loader@,
        "-downloadMinecraft"@,
    ]);
    v
}

/// `podman` arguments that run a Forge or NeoForge installer jar in the server
/// folder `dir` to install a server.
pub fn mod_installer_args(dir: &str, installer_name: &str) -> (r: Vec<String>)
    ensures
        str_views(r@) == container_prefix(data_volume(dir@)).push(installer_image()) + seq![
            "java"@,
            "-jar"@,
            installer_name@,
            "--installServer"@,
        ],
{
    let mut v = prefix_args(dir);
    let ghost p = str_views(v@);
    push_owned(&mut v, "java");
    push_owned(&mut v, "-jar");
    push_owned(&mut v, installer_name);
    push_owned(&mut v, "--installServer");
    assert(str_views(v@) =~= p + seq!["java"@, "-jar"@, installer_name@, "--installServer"@]);
    v
}

/// `podman` arguments that run packwiz's installer bootstrap (the jar at
/// `bootstrap`, mounted read-only) to bring the server side of the pack at
/// `pack_url` into the server folder `dir`.
pub fn bootstrap_args(dir: &str, bootstrap: &str, pack_url: &str) -> (r: Vec<String>)
    ensures
        str_views(r@) == container_prefix(data_volume(dir@)).insert(
            7,
            bootstrap@ + ":/tmp/bootstrap.jar:z,ro"@,
        ).insert(7, "-v"@).push(installer_image()) + seq![
            "java"@,
            "-jar"@,
            "/tmp/bootstrap.jar"@,
            "-g"@,
            "-s"@,
            "server"@,
            pack_url@,
        ],
{
    let mut vol: Vec<char> = Vec::new();
    push_str(&mut vol, dir);
    push_str(&mut vol, ":/data:Z");
    let mut jar: Vec<char> = Vec::new();
    push_str(&mut jar, bootstrap);
    push_str(&mut jar, ":/tmp/bootstrap.jar:z,ro");
    let mut v: Vec<String> = Vec::new();
    push_owned(&mut v, "run");
    push_owned(&mut v, "--rm");
    push_owned(&mut v, "--network");
    push_owned(&mut v, "host");
    push_owned(&mut v, "--userns=keep-id");
    push_owned(&mut v, "-v");
    v.push(string_of(&vol));
    push_owned(&mut v, "-v");
    v.push(string_of(&jar));
    push_owned(&mut v, "-w");
    push_owned(&mut v, "/data");
    push_owned(&mut v, "docker.io/library/eclipse-temurin:21-jre");
    push_owned(&mut v, "java");
    push_owned(&mut v, "-jar");
    push_owned(&mut v, "/tmp/bootstrap.jar");
    push_owned(&mut v, "-g");
    push_owned(&mut v, "-s");
    push_owned(&mut v, "server");
    push_owned(&mut v, pack_url);
    assert(str_views(v@) =~= container_prefix(data_volume(dir@)).insert(
        7,
        bootstrap@ + ":/tmp/bootstrap.jar:z,ro"@,
    ).insert(7, "-v"@).push(installer_image()) + seq![
        "java"@,
        "-jar"@,
        "/tmp/bootstrap.jar"@,
        "-g"@,
        "-s"@,
        "server"@,
        pack_url@,
    ]);
    v
}

// ---------------------------------------------------------------------------
// What an installer printed
// ---------------------------------------------------------------------------

/// Lines joined by newlines.
pub open spec fn join_text(ls: Seq<Seq<char>>) -> Seq<char> {
    join(ls, seq!['\n'])
}

/// The lines that are not blank, trimmed.
pub open spec fn trimmed_nonblank(ls: Seq<Seq<char>>) -> Seq<Seq<char>>
    decreases ls.len(),
{
    if ls.len() == 0 {
        seq![]
    } else if trim(ls.last()).len() > 0 {
        trimmed_nonblank(ls.drop_last()).push(trim(ls.last()))
    } else {
        trimmed_nonblank(ls.drop_last())
    }
}

/// The lines that are not blank, as they are.
pub open spec fn nonblank(ls: Seq<Seq<char>>) -> Seq<Seq<char>>
    decreases ls.len(),
{
    if ls.len() == 0 {
        seq![]
    } else if trim(ls.last()).len() > 0 {
        nonblank(ls.drop_last()).push(ls.last())
    } else {
        nonblank(ls.drop_last())
    }
}

fn output_lines(stdout: &str, stderr: &str) -> (r: Vec<Vec<char>>)
    ensures
        views(r@) == lines(stdout@) + lines(stderr@),
{
    let a = chars_of(stdout);
    let b = chars_of(stderr);
    let mut la = split_lines(&a);
    let lb = split_lines(&b);
    let ghost va = views(la@);
    let mut i: usize = 0;
    while i < lb.len()
        invariant
            i <= lb.len(),
            views(lb@) == lines(stderr@),
            va == lines(stdout@),
            views(la@) == va + views(lb@).take(i as int),
        decreases lb.len() - i,
    {
        let ghost before = views(la@);
        la.push(lb[i].clone());
        assert(views(la@) =~= before.push(views(lb@)[i as int]));
        assert(views(lb@).take(i + 1) =~= views(lb@).take(i as int).push(views(lb@)[i as int]));
        assert(va + views(lb@).take(i + 1) =~= (va + views(lb@).take(i as int)).push(
            views(lb@)[i as int],
        ));
        i = i + 1;
    }
    assert(views(lb@).take(lb.len() as int) =~= views(lb@));
    la
}

/// The log lines of what the pack installer printed (its output, then its
/// errors): each line trimmed, blank ones left out.
pub fn install_log_lines(stdout: &str, stderr: &str) -> (r: Vec<String>)
    ensures
        str_views(r@) == trimmed_nonblank(lines(stdout@) + lines(stderr@)),
{
    let ls = output_lines(stdout, stderr);
    let ghost v = views(ls@);
    let mut out: Vec<String> = Vec::new();
    let mut i: usize = 0;
    assert(str_views(out@) =~= trimmed_nonblank(v.take(0)));
    while i < ls.len()
        invariant
            i <= ls.len(),
            v == views(ls@),
            str_views(out@) == trimmed_nonblank(v.take(i as int)),
        decreases ls.len() - i,
    {
        assert(v.take(i + 1).drop_last() =~= v.take(i as int));
        assert(v.take(i + 1).last() == ls@[i as int]@);
        let t = trim_vec(&ls[i]);
        if t.len() > 0 {
            let ghost before = str_views(out@);
            out.push(string_of(&t));
            assert(str_views(out@) =~= before.push(t@));
        }
        i = i + 1;
    }
    assert(v.take(ls.len() as int) =~= v);
    out
}

/// What `packwiz update` printed (its output, then its errors), as one log
/// message: the lines that are not blank, joined by newlines.
pub fn update_output_text(stdout: &str, stderr: &str) -> (r: String)
    ensures
        r@ == join_text(nonblank(lines(stdout@) + lines(stderr@))),
{
    let ls = output_lines(stdout, stderr);
    let ghost v = views(ls@);
    let mut kept: Vec<Vec<char>> = Vec::new();
    let mut i: usize = 0;
    assert(views(kept@) =~= nonblank(v.take(0)));
    while i < ls.len()
        invariant
            i <= ls.len(),
            v == views(ls@),
            views(kept@) == nonblank(v.take(i as int)),
        decreases ls.len() - i,
    {
        assert(v.take(i + 1).drop_last() =~= v.take(i as int));
        assert(v.take(i + 1).last() == ls@[i as int]@);
        let t = trim_vec(&ls[i]);
        if t.len() > 0 {
            let ghost before = views(kept@);
            kept.push(ls[i].clone());
            assert(views(kept@) =~= before.push(ls@[i as int]@));
        }
        i = i + 1;
    }
    assert(v.take(ls.len() as int) =~= v);
    let mut out: Vec<char> = Vec::new();
    let mut j: usize = 0;
    let ghost kv = views(kept@);
    while j < kept.len()
        invariant
            j <= kept.len(),
            kv == views(kept@),
            out@ == join(kv.take(j as int), seq!['\n']),
        decreases kept.len() - j,
    {
        assert(kv.take(j + 1).drop_last() =~= kv.take(j as int));
        assert(kv.take(j + 1).last() == kept@[j as int]@);
        if j > 0 {
            out.push('\n');
        }
        let ghost before = out@;
        crate::text::extend(&mut out, &kept[j]);
        proof {
            if j == 0 {
                assert(kv.take(1) =~= seq![kept@[0]@]);
                assert(out@ =~= kept@[0]@);
            }
        }
        j = j + 1;
    }
    assert(kv.take(kept.len() as int) =~= kv);
    string_of(&out)
}

proof fn lemma_first_stable_exists(bs: Seq<PaperBuild>, w: int)
    requires
        0 <= w < bs.len(),
        is_stable_build(bs[w]),
    ensures
        exists|i: int|
            0 <= i < bs.len() && is_stable_build(bs[i]) && forall|k: int|
                0 <= k < i ==> !is_stable_build(#[trigger] bs[k]),
    decreases w,
{
    if exists|k: int| 0 <= k < w && is_stable_build(bs[k]) {
        let k = choose|k: int| 0 <= k < w && is_stable_build(bs[k]);
        lemma_first_stable_exists(bs, k);
    } else {
        assert(forall|k: int| 0 <= k < w ==> !is_stable_build(#[trigger] bs[k]));
    }
}

/// Whether a build is on the channel of that name.
pub open spec fn on_channel(b: PaperBuild, name: Seq<char>) -> bool {
    b.channel matches Some(c) && c@ == name
}

/// The build installed is the first one on the `STABLE` or `RECOMMENDED`
/// channel; only where no build is on either is it the first build. Its URL is
/// that build's.
pub proof fn law_paper_build_is_first_stable(bs: Seq<PaperBuild>)
    requires
        bs.len() > 0,
    ensures
        ({
            let c = chosen_build(bs);
            &&& 0 <= c < bs.len()
            &&& (exists|i: int|
                0 <= i < bs.len() && (on_channel(#[trigger] bs[i], "STABLE"@) || on_channel(
                    bs[i],
                    "RECOMMENDED"@,
                ))) ==> ((on_channel(bs[c], "STABLE"@) || on_channel(bs[c], "RECOMMENDED"@))
                && forall|k: int|
                0 <= k < c ==> !(on_channel(#[trigger] bs[k], "STABLE"@) || on_channel(
                    bs[k],
                    "RECOMMENDED"@,
                )))
            &&& (forall|i: int|
                0 <= i < bs.len() ==> !(on_channel(#[trigger] bs[i], "STABLE"@) || on_channel(
                    bs[i],
                    "RECOMMENDED"@,
                ))) ==> c == 0
            &&& (paper_choice(Some(bs)) matches Ok(p) ==> (bs[c].url matches Some(u) && p.1 == u@))
            &&& (bs[c].url is None ==> paper_choice(Some(bs)) is Err)
        }),
{
    if exists|i: int| 0 <= i < bs.len() && is_stable_build(bs[i]) {
        let w = choose|i: int| 0 <= i < bs.len() && is_stable_build(bs[i]);
        lemma_first_stable_exists(bs, w);
        let c = chosen_build(bs);
        assert(is_stable_build(bs[c]));
        assert forall|k: int| 0 <= k < c implies !(on_channel(#[trigger] bs[k], "STABLE"@)
            || on_channel(bs[k], "RECOMMENDED"@)) by {
            assert(!is_stable_build(bs[k]));
        }
    } else {
        assert forall|i: int| 0 <= i < bs.len() implies !(on_channel(#[trigger] bs[i], "STABLE"@)
            || on_channel(bs[i], "RECOMMENDED"@)) by {
            assert(!is_stable_build(bs[i]));
        }
    }
}

} // verus!
