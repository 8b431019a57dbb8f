//! The system packages the agent needs, and how they are installed.
use vstd::prelude::*;
use crate::text::{
    chars_of, eq_ignore_ascii_case, join, push_str, str_views, string_of,
    trim, trim_vec,
};

verus! {

/// The commands the agent runs, each with the package that provides it.
pub open spec fn required_commands_spec() -> Seq<(Seq<char>, Seq<char>)> {
    seq![
        ("podman"@, "podman"@),
        ("jq"@, "jq"@),
        ("curl"@, "curl"@),
        ("python3"@, "python3"@),
        ("unzip"@, "unzip"@),
        ("rsync"@, "rsync"@),
        ("ssh"@, "openssh-client"@),
        ("go"@, "golang"@),
    ]
}

/// The views of pairs of strings.
pub open spec fn pair_views(v: Seq<(String, String)>) -> Seq<(Seq<char>, Seq<char>)> {
    Seq::new(v.len(), |i: int| (v[i].0@, v[i].1@))
}

fn pair(a: &str, b: &str) -> (r: (String, String))
    ensures
        r.0@ == a@,
        r.1@ == b@,
{
    (String::from_str(a), String::from_str(b))
}

/// The commands the agent runs, each with the package that provides it.
pub fn required_commands() -> (r: Vec<(String, String)>)
    ensures
        pair_views(r@) == required_commands_spec(),
{
    let mut v: Vec<(String, String)> = Vec::new();
    v.push(pair("podman", "podman"));
    v.push(pair("jq", "jq"));
    v.push(pair("curl", "curl"));
    v.push(pair("python3", "python3"));
    v.push(pair("unzip", "unzip"));
    v.push(pair("rsync", "rsync"));
    v.push(pair("ssh", "openssh-client"));
    v.push(pair("go", "golang"));
    assert(pair_views(v@) =~= required_commands_spec());
    v
}

/// The packages of the commands that were not found, in order.
pub open spec fn missing_of(checks: Seq<(Seq<char>, bool)>) -> Seq<Seq<char>>
    decreases checks.len(),
{
    if checks.len() == 0 {
        seq![]
    } else if checks.last().1 {
        missing_of(checks.drop_last())
    } else {
        missing_of(checks.drop_last()).push(checks.last().0)
    }
}

/// The packages to install, from each package and whether its command was
/// found.
pub fn missing_packages(checks: &Vec<(String, bool)>) -> (r: Vec<String>)
    ensures
        str_views(r@) == missing_of(Seq::new(checks@.len(), |i: int| (checks@[i].0@, checks@[i].1))),
{
    let ghost cs = Seq::new(checks@.len(), |i: int| (checks@[i].0@, checks@[i].1));
    let mut out: Vec<String> = Vec::new();
    let mut i: usize = 0;
    while i < checks.len()
        invariant
            i <= checks.len(),
            cs == Seq::new(checks@.len(), |i: int| (checks@[i].0@, checks@[i].1)),
            str_views(out@) == missing_of(cs.take(i as int)),
        decreases checks.len() - i,
    {
        assert(cs.take(i + 1).drop_last() =~= cs.take(i as int));
        if !checks[i].1 {
            let ghost before = str_views(out@);
            out.push(checks[i].0.clone());
            assert(str_views(out@) =~= before.push(cs[i as int].0));
        }
        i = i + 1;
    }
    assert(cs.take(checks.len() as int) =~= cs);
    out
}

/// The packages joined by `", "`.
pub fn package_list(packages: &Vec<String>) -> (r: String)
    ensures
        r@ == join(str_views(packages@), ", "@),
{
    let ghost ps = str_views(packages@);
    let mut out: Vec<char> = Vec::new();
    let mut i: usize = 0;
    while i < packages.len()
        invariant
            i <= packages.len(),
            ps == str_views(packages@),
            out@ == join(ps.take(i as int), ", "@),
        decreases packages.len() - i,
    {
        assert(ps.take(i + 1).drop_last() =~= ps.take(i as int));
        assert(ps.take(i + 1).last() == packages@[i as int]@);
        if i > 0 {
            push_str(&mut out, ", ");
        }
        push_str(&mut out, packages[i].as_str());
        proof {
            if i == 0 {
                assert(ps.take(1) =~= seq![packages@[0]@]);
                assert(out@ =~= packages@[0]@);
            }
        }
        i = i + 1;
    }
    assert(ps.take(packages.len() as int) =~= ps);
    string_of(&out)
}

/// The command that gains the rights to install: `sudo` at a terminal, else
/// `pkexec`.
pub fn elevation_command(is_terminal: bool) -> (r: &'static str)
    ensures
        r@ == if is_terminal {
            "sudo"@
        } else {
            "pkexec"@
        },
{
    if is_terminal {
        "sudo"
    } else {
        "pkexec"
    }
}

/// Whether the answer to "install?" is yes: `y` in either case, white space
/// ignored.
pub fn answered_yes(answer: &str) -> (r: bool)
    ensures
        r == eq_ignore_ascii_case(trim(answer@), "y"@),
{
    let a = chars_of(answer);
    let t = trim_vec(&a);
    let y = chars_of("y");
    crate::text::eq_ignore_ascii_case_vec(&t, &y)
}

/// A package manager the agent knows.
#[derive(Clone, Copy, Debug, PartialEq, Eq, Structural)]
pub enum PackageManager {
    Apt,
    Dnf,
}

/// The package manager: `apt-get` where found, else `dnf`; none else.
pub fn detect_package_manager(has_apt: bool, has_dnf: bool) -> (r: Option<PackageManager>)
    ensures
        has_apt ==> r == Some(PackageManager::Apt),
        !has_apt && has_dnf ==> r == Some(PackageManager::Dnf),
        !has_apt && !has_dnf ==> r is None,
{
    if has_apt {
        Some(PackageManager::Apt)
    } else if has_dnf {
        Some(PackageManager::Dnf)
    } else {
        None
    }
}

/// The message where no package manager is known, quoting the first line of
/// `/etc/os-release` (nothing where it has none).
pub fn unknown_package_manager_message(os_release: &str) -> (r: String)
    ensures
        r@ == "No reconozco un gestor de paquetes soportado (apt/dnf) en esta distro.\n"@ + (
        if crate::text::lines(os_release@).len() > 0 {
            crate::text::lines(os_release@)[0]
        } else {
            seq![]
        }),
{
    let mut out: Vec<char> = Vec::new();
    push_str(&mut out, "No reconozco un gestor de paquetes soportado (apt/dnf) en esta distro.\n");
    let c = chars_of(os_release);
    let ls = crate::text::split_lines(&c);
    if ls.len() > 0 {
        crate::text::extend(&mut out, &ls[0]);
    } else {
        assert(out@ =~= "No reconozco un gestor de paquetes soportado (apt/dnf) en esta distro.\n"@
            + Seq::<char>::empty());
    }
    string_of(&out)
}

/// The arguments (after the elevation command) that install packages.
pub open spec fn install_arguments(pm: PackageManager, packages: Seq<Seq<char>>) -> Seq<Seq<char>> {
    (match pm {
        PackageManager::Apt => seq!["apt-get"@, "install"@, "-y"@],
        PackageManager::Dnf => seq!["dnf"@, "install"@, "-y"@],
    }) + packages
}

/// The arguments that install packages with a package manager; `apt-get`
/// needs `apt-get update -qq` first.
pub fn install_args(pm: PackageManager, packages: &Vec<String>) -> (r: Vec<String>)
    ensures
        str_views(r@) == install_arguments(pm, str_views(packages@)),
{
    let mut v: Vec<String> = Vec::new();
    match pm {
        PackageManager::Apt => v.push(String::from_str("apt-get")),
        PackageManager::Dnf => v.push(String::from_str("dnf")),
    }
    v.push(String::from_str("install"));
    v.push(String::from_str("-y"));
    let ghost head = str_views(v@);
    let mut i: usize = 0;
    while i < packages.len()
        invariant
            i <= packages.len(),
            head == (match pm {
                PackageManager::Apt => seq!["apt-get"@, "install"@, "-y"@],
                PackageManager::Dnf => seq!["dnf"@, "install"@, "-y"@],
            }),
            str_views(v@) == head + str_views(packages@).take(i as int),
        decreases packages.len() - i,
    {
        let ghost before = str_views(v@);
        v.push(packages[i].clone());
        assert(str_views(v@) =~= before.push(packages@[i as int]@));
        assert(str_views(packages@).take(i + 1) =~= str_views(packages@).take(i as int).push(
            packages@[i as int]@,
        ));
        i = i + 1;
    }
    assert(str_views(packages@).take(packages.len() as int) =~= str_views(packages@));
    v
}

/// Whether the package index is refreshed before installing.
pub fn needs_index_update(pm: PackageManager) -> (r: bool)
    ensures
        r == (pm == PackageManager::Apt),
{
    match pm {
        PackageManager::Apt => true,
        PackageManager::Dnf => false,
    }
}

/// The web server already running (`apache2` first), where one is.
pub fn active_web_server(apache_active: bool, nginx_active: bool) -> (r: Option<&'static str>)
    ensures
        apache_active ==> (r matches Some(s) && s@ == "apache2"@),
        !apache_active && nginx_active ==> (r matches Some(s) && s@ == "nginx"@),
        !apache_active && !nginx_active ==> r is None,
{
    if apache_active {
        Some("apache2")
    } else if nginx_active {
        Some("nginx")
    } else {
        None
    }
}

/// The arguments (after the elevation command) that give the user the web
/// root.
pub fn web_root_owner_args(user: &str) -> (r: Vec<String>)
    ensures
        str_views(r@) == seq!["chown"@, "-R"@, user@ + ":"@ + user@, "/var/www/html"@],
{
    let mut owner: Vec<char> = Vec::new();
    push_str(&mut owner, user);
    push_str(&mut owner, ":");
    push_str(&mut owner, user);
    let mut v: Vec<String> = Vec::new();
    v.push(String::from_str("chown"));
    v.push(String::from_str("-R"));
    v.push(string_of(&owner));
    v.push(String::from_str("/var/www/html"));
    assert(str_views(v@) =~= seq!["chown"@, "-R"@, user@ + ":"@ + user@, "/var/www/html"@]);
    v
}

} // verus!
