//! Publishing a pack: the file operations and commands that put a pack and the
//! modpack catalogue on the web server (over SSH, or on this machine), or take
//! a pack off it. The caller runs the steps in order and stops at the first
//! one that fails, unless the step says its failure is ignored.
use vstd::prelude::*;
use crate::paths::{path_join, path_push};
use crate::settings::PublishTarget;
use crate::text::{chars_of, push_str, str_views, string_of, strip_end_char};

verus! {

/// One operation of a publication.
pub enum PublishStep {
    /// Run `rsync` with these arguments; on failure, that message.
    Rsync { args: Vec<String>, failure: String },
    /// Run a shell command on `host` over SSH; on failure, that message.
    Remote { host: String, command: String, failure: String },
    /// Remove `to` where it exists, then copy the folder `from` to it.
    Mirror { from: String, to: String },
    /// Create the folder and its parents; on failure, that context.
    CreateDir { path: String, context: String },
    /// Copy the file `from` to `to` where `from` exists; on failure, that context.
    CopyFileIfExists { from: String, to: String, context: String },
    /// Copy the folder `from` into `to` where `from` is a folder.
    CopyDirIfDir { from: String, to: String },
    /// Remove the folder where it exists; a failure is ignored where there is no
    /// context.
    RemoveDirIfExists { path: String, context: Option<String> },
    /// Copy the folder `from` to `to`.
    CopyDir { from: String, to: String },
    /// Give everything under the folder that mode; failures are ignored.
    SetPermissions { path: String, mode: u32 },
}

/// A step, its texts as sequences.
pub enum StepView {
    Rsync { args: Seq<Seq<char>>, failure: Seq<char> },
    Remote { host: Seq<char>, command: Seq<char>, failure: Seq<char> },
    Mirror { from: Seq<char>, to: Seq<char> },
    CreateDir { path: Seq<char>, context: Seq<char> },
    CopyFileIfExists { from: Seq<char>, to: Seq<char>, context: Seq<char> },
    CopyDirIfDir { from: Seq<char>, to: Seq<char> },
    RemoveDirIfExists { path: Seq<char>, context: Option<Seq<char>> },
    CopyDir { from: Seq<char>, to: Seq<char> },
    SetPermissions { path: Seq<char>, mode: u32 },
}

impl View for PublishStep {
    type V = StepView;

    open spec fn view(&self) -> StepView {
        match self {
            PublishStep::Rsync { args, failure } => StepView::Rsync {
                args: str_views(args@),
                failure: failure@,
            },
            PublishStep::Remote { host, command, failure } => StepView::Remote {
                host: host@,
                command: command@,
                failure: failure@,
            },
            PublishStep::Mirror { from, to } => StepView::Mirror { from: from@, to: to@ },
            PublishStep::CreateDir { path, context } => StepView::CreateDir {
                path: path@,
                context: context@,
            },
            PublishStep::CopyFileIfExists { from, to, context } => StepView::CopyFileIfExists {
                from: from@,
                to: to@,
                context: context@,
            },
            PublishStep::CopyDirIfDir { from, to } => StepView::CopyDirIfDir {
                from: from@,
                to: to@,
            },
            PublishStep::RemoveDirIfExists { path, context } => StepView::RemoveDirIfExists {
                path: path@,
                context: match context {
                    Some(c) => Some(c@),
                    None => None,
                },
            },
            PublishStep::CopyDir { from, to } => StepView::CopyDir { from: from@, to: to@ },
            PublishStep::SetPermissions { path, mode } => StepView::SetPermissions {
                path: path@,
                mode: *mode,
            },
        }
    }
}

/// The views of steps.
pub open spec fn step_views(s: Seq<PublishStep>) -> Seq<StepView> {
    Seq::new(s.len(), |i: int| s[i]@)
}

// ---------------------------------------------------------------------------
// Commands
// ---------------------------------------------------------------------------

/// Where `rsync` copies to: `host:path` over SSH, else the path.
pub open spec fn rsync_destination(remote_path: Seq<char>, ssh_host: Option<Seq<char>>) -> Seq<char> {
    match ssh_host {
        Some(h) => h + ":"@ + remote_path,
        None => remote_path,
    }
}

/// The arguments of `rsync` that mirror the folder `local` to `remote_path`:
/// archive, compressed, deleting what the source lacks, making the path; the
/// source with exactly one trailing `/`.
pub open spec fn rsync_arguments(local: Seq<char>, remote_path: Seq<char>, ssh_host: Option<Seq<char>>) -> Seq<Seq<char>> {
    seq![
        "-avz"@,
        "--delete"@,
        "--mkpath"@,
        strip_end_char(local, '/') + "/"@,
        rsync_destination(remote_path, ssh_host),
    ]
}

fn strip_trailing_slashes(s: &str) -> (r: Vec<char>)
    ensures
        r@ == strip_end_char(s@, '/'),
{
    let mut v = chars_of(s);
    while v.len() > 0 && v[v.len() - 1] == '/'
        invariant
            strip_end_char(v@, '/') == strip_end_char(s@, '/'),
        decreases v.len(),
    {
        let ghost before = v@;
        v.pop();
        assert(v@ =~= before.drop_last());
    }
    v
}

fn own(s: &str) -> (r: String)
    ensures
        r@ == s@,
{
    String::from_str(s)
}

fn text2(a: &str, b: &str) -> (r: String)
    ensures
        r@ == a@ + b@,
{
    let mut out: Vec<char> = Vec::new();
    push_str(&mut out, a);
    push_str(&mut out, b);
    string_of(&out)
}

fn rsync_step(local: &str, remote_path: &str, ssh_host: &str) -> (r: PublishStep)
    ensures
        r@ == (StepView::Rsync {
            args: rsync_arguments(local@, remote_path@, Some(ssh_host@)),
            failure: "rsync falló hacia "@ + rsync_destination(remote_path@, Some(ssh_host@)),
        }),
{
    let mut src = strip_trailing_slashes(local);
    push_str(&mut src, "/");
    let mut d: Vec<char> = Vec::new();
    push_str(&mut d, ssh_host);
    push_str(&mut d, ":");
    push_str(&mut d, remote_path);
    let dest = string_of(&d);
    let mut args: Vec<String> = Vec::new();
    args.push(own("-avz"));
    args.push(own("--delete"));
    args.push(own("--mkpath"));
    args.push(string_of(&src));
    args.push(dest.clone());
    let failure = text2("rsync falló hacia ", dest.as_str());
    assert(str_views(args@) =~= rsync_arguments(local@, remote_path@, Some(ssh_host@)));
    PublishStep::Rsync { args, failure }
}

/// The shell command that publishes a pack on the web server from the copies
/// under the remote base.
pub open spec fn publish_command(remote_base: Seq<char>, web_root: Seq<char>, pack_key: Seq<char>) -> Seq<char> {
    "mkdir -p '"@ + web_root + "' '"@ + web_root + "/images' '"@ + web_root + "/"@ + pack_key
        + "' && cp '"@ + remote_base + "/lumineria_database/modpacks.json' '"@ + web_root
        + "/' && (cp -r '"@ + remote_base + "/lumineria_database/images/.' '"@ + web_root
        + "/images/' 2>/dev/null || true) && rm -rf '"@ + web_root + "/"@ + pack_key
        + "' && cp -r '"@ + remote_base + "/lumineria_packwiz/"@ + pack_key + "' '"@ + web_root
        + "/"@ + pack_key + "' && chmod -R 755 '"@ + web_root + "'"@
}

/// The shell command that takes a pack off the web server.
pub open spec fn unpublish_command(remote_base: Seq<char>, web_root: Seq<char>, pack_key: Seq<char>) -> Seq<char> {
    "cp '"@ + remote_base + "/lumineria_database/modpacks.json' '"@ + web_root + "/' && rm -rf '"@
        + remote_base + "/lumineria_packwiz/"@ + pack_key + "' '"@ + web_root + "/"@ + pack_key
        + "'"@
}

fn publish_command_text(remote_base: &str, web_root: &str, pack_key: &str) -> (r: String)
    ensures
        r@ == publish_command(remote_base@, web_root@, pack_key@),
{
    let mut o: Vec<char> = Vec::new();
    push_str(&mut o, "mkdir -p '");
    push_str(&mut o, web_root);
    push_str(&mut o, "' '");
    push_str(&mut o, web_root);
    push_str(&mut o, "/images' '");
    push_str(&mut o, web_root);
    push_str(&mut o, "/");
    push_str(&mut o, pack_key);
    push_str(&mut o, "' && cp '");
    push_str(&mut o, remote_base);
    push_str(&mut o, "/lumineria_database/modpacks.json' '");
    push_str(&mut o, web_root);
    push_str(&mut o, "/' && (cp -r '");
    push_str(&mut o, remote_base);
    push_str(&mut o, "/lumineria_database/images/.' '");
    push_str(&mut o, web_root);
    push_str(&mut o, "/images/' 2>/dev/null || true) && rm -rf '");
    push_str(&mut o, web_root);
    push_str(&mut o, "/");
    push_str(&mut o, pack_key);
    push_str(&mut o, "' && cp -r '");
    push_str(&mut o, remote_base);
    push_str(&mut o, "/lumineria_packwiz/");
    push_str(&mut o, pack_key);
    push_str(&mut o, "' '");
    push_str(&mut o, web_root);
    push_str(&mut o, "/");
    push_str(&mut o, pack_key);
    push_str(&mut o, "' && chmod -R 755 '");
    push_str(&mut o, web_root);
    push_str(&mut o, "'");
    string_of(&o)
}

fn unpublish_command_text(remote_base: &str, web_root: &str, pack_key: &str) -> (r: String)
    ensures
        r@ == unpublish_command(remote_base@, web_root@, pack_key@),
{
    let mut o: Vec<char> = Vec::new();
    push_str(&mut o, "cp '");
    push_str(&mut o, remote_base);
    push_str(&mut o, "/lumineria_database/modpacks.json' '");
    push_str(&mut o, web_root);
    push_str(&mut o, "/' && rm -rf '");
    push_str(&mut o, remote_base);
    push_str(&mut o, "/lumineria_packwiz/");
    push_str(&mut o, pack_key);
    push_str(&mut o, "' '");
    push_str(&mut o, web_root);
    push_str(&mut o, "/");
    push_str(&mut o, pack_key);
    push_str(&mut o, "'");
    string_of(&o)
}

fn remote_step(host: &str, command: String) -> (r: PublishStep)
    ensures
        r@ == (StepView::Remote {
            host: host@,
            command: command@,
            failure: "comando remoto falló: "@ + command@,
        }),
{
    let failure = text2("comando remoto falló: ", command.as_str());
    PublishStep::Remote { host: own(host), command, failure }
}

// ---------------------------------------------------------------------------
// The plans
// ---------------------------------------------------------------------------

/// The steps that publish the pack `pack_key` (its folder `pack_dir`) and the
/// catalogue (the folder `database_dir`) to a target.
pub open spec fn publish_plan(t: PublishTarget, pack_dir: Seq<char>, database_dir: Seq<char>, pack_key: Seq<char>) -> Seq<StepView> {
    match t {
        PublishTarget::Ssh { ssh_host, remote_base, web_root } => {
            let pack_remote = remote_base@ + "/lumineria_packwiz/"@ + pack_key + "/"@;
            let db_remote = remote_base@ + "/lumineria_database/"@;
            seq![
                StepView::Rsync {
                    args: rsync_arguments(pack_dir, pack_remote, Some(ssh_host@)),
                    failure: "rsync falló hacia "@ + rsync_destination(pack_remote, Some(ssh_host@)),
                },
                StepView::Rsync {
                    args: rsync_arguments(database_dir, db_remote, Some(ssh_host@)),
                    failure: "rsync falló hacia "@ + rsync_destination(db_remote, Some(ssh_host@)),
                },
                StepView::Remote {
                    host: ssh_host@,
                    command: publish_command(remote_base@, web_root@, pack_key),
                    failure: "comando remoto falló: "@ + publish_command(
                        remote_base@,
                        web_root@,
                        pack_key,
                    ),
                },
            ]
        },
        PublishTarget::LocalFs { base_path, web_root } => {
            let pack_dest = path_push(path_push(base_path@, "lumineria_packwiz"@), pack_key);
            let db_dest = path_push(base_path@, "lumineria_database"@);
            seq![
                StepView::Mirror { from: pack_dir, to: pack_dest },
                StepView::Mirror { from: database_dir, to: db_dest },
                StepView::CreateDir { path: web_root@, context: "no pude crear "@ + web_root@ },
                StepView::CopyFileIfExists {
                    from: path_push(db_dest, "modpacks.json"@),
                    to: path_push(web_root@, "modpacks.json"@),
                    context: "no pude copiar modpacks.json al web root"@,
                },
                StepView::CopyDirIfDir {
                    from: path_push(db_dest, "images"@),
                    to: path_push(web_root@, "images"@),
                },
                StepView::RemoveDirIfExists { path: path_push(web_root@, pack_key), context: None },
                StepView::CopyDir { from: pack_dest, to: path_push(web_root@, pack_key) },
                StepView::SetPermissions { path: web_root@, mode: 0o755 },
            ]
        },
    }
}

/// The steps that publish a pack and the catalogue.
pub fn publish_steps(target: &PublishTarget, pack_dir: &str, database_dir: &str, pack_key: &str) -> (r: Vec<PublishStep>)
    ensures
        step_views(r@) == publish_plan(*target, pack_dir@, database_dir@, pack_key@),
{
    let mut steps: Vec<PublishStep> = Vec::new();
    match target {
        PublishTarget::Ssh { ssh_host, remote_base, web_root } => {
            let mut pr: Vec<char> = Vec::new();
            push_str(&mut pr, remote_base.as_str());
            push_str(&mut pr, "/lumineria_packwiz/");
            push_str(&mut pr, pack_key);
            push_str(&mut pr, "/");
            let pack_remote = string_of(&pr);
            let db_remote = text2(remote_base.as_str(), "/lumineria_database/");
            let command = publish_command_text(remote_base.as_str(), web_root.as_str(), pack_key);
            steps.push(rsync_step(pack_dir, pack_remote.as_str(), ssh_host.as_str()));
            steps.push(rsync_step(database_dir, db_remote.as_str(), ssh_host.as_str()));
            steps.push(remote_step(ssh_host.as_str(), command));
        },
        PublishTarget::LocalFs { base_path, web_root } => {
            let packs = path_join(base_path.as_str(), "lumineria_packwiz");
            let pack_dest = path_join(packs.as_str(), pack_key);
            let db_dest = path_join(base_path.as_str(), "lumineria_database");
            steps.push(PublishStep::Mirror { from: own(pack_dir), to: pack_dest.clone() });
            steps.push(PublishStep::Mirror { from: own(database_dir), to: db_dest.clone() });
            let context = text2("no pude crear ", web_root.as_str());
            steps.push(PublishStep::CreateDir { path: web_root.clone(), context });
            steps.push(
                PublishStep::CopyFileIfExists {
                    from: path_join(db_dest.as_str(), "modpacks.json"),
                    to: path_join(web_root.as_str(), "modpacks.json"),
                    context: own("no pude copiar modpacks.json al web root"),
                },
            );
            steps.push(
                PublishStep::CopyDirIfDir {
                    from: path_join(db_dest.as_str(), "images"),
                    to: path_join(web_root.as_str(), "images"),
                },
            );
            steps.push(
                PublishStep::RemoveDirIfExists {
                    path: path_join(web_root.as_str(), pack_key),
                    context: None,
                },
            );
            steps.push(
                PublishStep::CopyDir { from: pack_dest, to: path_join(web_root.as_str(), pack_key) },
            );
            steps.push(PublishStep::SetPermissions { path: web_root.clone(), mode: 0o755 });
        },
    }
    assert(step_views(steps@) =~= publish_plan(*target, pack_dir@, database_dir@, pack_key@));
    steps
}

/// The steps that take the pack `pack_key` off a target, the catalogue (the
/// folder `database_dir`) having been updated already.
pub open spec fn unpublish_plan(t: PublishTarget, database_dir: Seq<char>, pack_key: Seq<char>) -> Seq<StepView> {
    match t {
        PublishTarget::Ssh { ssh_host, remote_base, web_root } => {
            let db_remote = remote_base@ + "/lumineria_database/"@;
            seq![
                StepView::Rsync {
                    args: rsync_arguments(database_dir, db_remote, Some(ssh_host@)),
                    failure: "rsync falló hacia "@ + rsync_destination(db_remote, Some(ssh_host@)),
                },
                StepView::Remote {
                    host: ssh_host@,
                    command: unpublish_command(remote_base@, web_root@, pack_key),
                    failure: "comando remoto falló: "@ + unpublish_command(
                        remote_base@,
                        web_root@,
                        pack_key,
                    ),
                },
            ]
        },
        PublishTarget::LocalFs { base_path, web_root } => {
            let db_dest = path_push(base_path@, "lumineria_database"@);
            seq![
                StepView::Mirror { from: database_dir, to: db_dest },
                StepView::CopyFileIfExists {
                    from: path_push(db_dest, "modpacks.json"@),
                    to: path_push(web_root@, "modpacks.json"@),
                    context: "no pude actualizar modpacks.json en el web root"@,
                },
                StepView::RemoveDirIfExists {
                    path: path_push(path_push(base_path@, "lumineria_packwiz"@), pack_key),
                    context: Some("no pude borrar el pack de lumineria_packwiz"@),
                },
                StepView::RemoveDirIfExists {
                    path: path_push(web_root@, pack_key),
                    context: Some("no pude borrar el pack del web root"@),
                },
            ]
        },
    }
}

/// The steps that take a pack off a target.
pub fn unpublish_steps(target: &PublishTarget, database_dir: &str, pack_key: &str) -> (r: Vec<
    PublishStep,
>)
    ensures
        step_views(r@) == unpublish_plan(*target, database_dir@, pack_key@),
{
    let mut steps: Vec<PublishStep> = Vec::new();
    match target {
        PublishTarget::Ssh { ssh_host, remote_base, web_root } => {
            let db_remote = text2(remote_base.as_str(), "/lumineria_database/");
            let command = unpublish_command_text(remote_base.as_str(), web_root.as_str(), pack_key);
            steps.push(rsync_step(database_dir, db_remote.as_str(), ssh_host.as_str()));
            steps.push(remote_step(ssh_host.as_str(), command));
        },
        PublishTarget::LocalFs { base_path, web_root } => {
            let db_dest = path_join(base_path.as_str(), "lumineria_database");
            let packs = path_join(base_path.as_str(), "lumineria_packwiz");
            steps.push(PublishStep::Mirror { from: own(database_dir), to: db_dest.clone() });
            steps.push(
                PublishStep::CopyFileIfExists {
                    from: path_join(db_dest.as_str(), "modpacks.json"),
                    to: path_join(web_root.as_str(), "modpacks.json"),
                    context: own("no pude actualizar modpacks.json en el web root"),
                },
            );
            steps.push(
                PublishStep::RemoveDirIfExists {
                    path: path_join(packs.as_str(), pack_key),
                    context: Some(own("no pude borrar el pack de lumineria_packwiz")),
                },
            );
            steps.push(
                PublishStep::RemoveDirIfExists {
                    path: path_join(web_root.as_str(), pack_key),
                    context: Some(own("no pude borrar el pack del web root")),
                },
            );
        },
    }
    assert(step_views(steps@) =~= unpublish_plan(*target, database_dir@, pack_key@));
    steps
}

// ---------------------------------------------------------------------------
// What taking a pack off undoes
// ---------------------------------------------------------------------------

/// Where a published pack lives on a target: its copy under the base, and its
/// folder under the web root.
pub open spec fn pack_places(t: PublishTarget, pack_key: Seq<char>) -> (Seq<char>, Seq<char>) {
    match t {
        PublishTarget::Ssh { remote_base, web_root, .. } => (
            remote_base@ + "/lumineria_packwiz/"@ + pack_key,
            web_root@ + "/"@ + pack_key,
        ),
        PublishTarget::LocalFs { base_path, web_root } => (
            path_push(path_push(base_path@, "lumineria_packwiz"@), pack_key),
            path_push(web_root@, pack_key),
        ),
    }
}

/// Taking a pack off removes both places where publishing put it: publishing
/// copies the pack's folder to the copy under the base and from there to the
/// web root, and taking it off removes those two folders.
pub proof fn law_unpublish_removes_what_publish_placed(
    t: PublishTarget,
    pack_dir: Seq<char>,
    database_dir: Seq<char>,
    pack_key: Seq<char>,
)
    ensures
        ({
            let (copy, served) = pack_places(t, pack_key);
            let p = publish_plan(t, pack_dir, database_dir, pack_key);
            let u = unpublish_plan(t, database_dir, pack_key);
            match t {
                PublishTarget::Ssh { ssh_host, remote_base, web_root } => {
                    &&& p[0] matches StepView::Rsync { args, .. } && args[3] == strip_end_char(
                        pack_dir,
                        '/',
                    ) + "/"@ && args[4] == ssh_host@ + ":"@ + copy + "/"@
                    &&& exists|a: Seq<char>, b: Seq<char>|
                        publish_command(remote_base@, web_root@, pack_key) == a + ("cp -r '"@ + copy
                            + "' '"@ + served + "'"@) + b
                    &&& exists|a: Seq<char>|
                        unpublish_command(remote_base@, web_root@, pack_key) == a + ("rm -rf '"@
                            + copy + "' '"@ + served + "'"@)
                    &&& u[1] matches StepView::Remote { command, .. } && command
                        == unpublish_command(remote_base@, web_root@, pack_key)
                    &&& p[2] matches StepView::Remote { command, .. } && command == publish_command(
                        remote_base@,
                        web_root@,
                        pack_key,
                    )
                },
                PublishTarget::LocalFs { .. } => {
                    &&& p[0] == StepView::Mirror { from: pack_dir, to: copy }
                    &&& p[6] == StepView::CopyDir { from: copy, to: served }
                    &&& u[2] matches StepView::RemoveDirIfExists { path, .. } && path == copy
                    &&& u[3] matches StepView::RemoveDirIfExists { path, .. } && path == served
                },
            }
        }),
{
    match t {
        PublishTarget::Ssh { ssh_host, remote_base, web_root } => {
            let rb = remote_base@;
            let wr = web_root@;
            let (copy, served) = pack_places(t, pack_key);
            let a = "mkdir -p '"@ + wr + "' '"@ + wr + "/images' '"@ + wr + "/"@ + pack_key
                + "' && cp '"@ + rb + "/lumineria_database/modpacks.json' '"@ + wr
                + "/' && (cp -r '"@ + rb + "/lumineria_database/images/.' '"@ + wr
                + "/images/' 2>/dev/null || true) && rm -rf '"@ + wr + "/"@ + pack_key + "' && "@;
            let b = " && chmod -R 755 '"@ + wr + "'"@;
            reveal_strlit("' && cp -r '");
            reveal_strlit("' && ");
            reveal_strlit("cp -r '");
            reveal_strlit("' && chmod -R 755 '");
            reveal_strlit("'");
            reveal_strlit(" && chmod -R 755 '");
            reveal_strlit("/' && rm -rf '");
            reveal_strlit("/' && ");
            reveal_strlit("rm -rf '");
            assert("' && cp -r '"@ =~= "' && "@ + "cp -r '"@);
            assert("' && chmod -R 755 '"@ =~= "'"@ + " && chmod -R 755 '"@);
            assert("/' && rm -rf '"@ =~= "/' && "@ + "rm -rf '"@);
            assert(publish_command(rb, wr, pack_key) =~= a + ("cp -r '"@ + copy + "' '"@ + served
                + "'"@) + b);
            let c = "cp '"@ + rb + "/lumineria_database/modpacks.json' '"@ + wr + "/' && "@;
            assert(unpublish_command(rb, wr, pack_key) =~= c + ("rm -rf '"@ + copy + "' '"@ + served
                + "'"@));
            assert(rb + "/lumineria_packwiz/"@ + pack_key + "/"@ == copy + "/"@);
        },
        PublishTarget::LocalFs { .. } => {},
    }
}

/// Taking a pack off refreshes the web root's catalogue from the catalogue
/// just updated: the file copied to the web root is the `modpacks.json` of the
/// folder the catalogue was first mirrored (or sent) to, and it goes to the web
/// root, as publishing copies it.
pub proof fn law_unpublish_refreshes_web_catalogue(
    t: PublishTarget,
    pack_dir: Seq<char>,
    database_dir: Seq<char>,
    pack_key: Seq<char>,
)
    ensures
        ({
            let u = unpublish_plan(t, database_dir, pack_key);
            let p = publish_plan(t, pack_dir, database_dir, pack_key);
            match t {
                PublishTarget::LocalFs { base_path, web_root } => {
                    let db = path_push(base_path@, "lumineria_database"@);
                    &&& u[0] == StepView::Mirror { from: database_dir, to: db }
                    &&& u[1] matches StepView::CopyFileIfExists { from, to, .. } && from
                        == path_push(db, "modpacks.json"@) && to == path_push(
                        web_root@,
                        "modpacks.json"@,
                    )
                    &&& p[3] matches StepView::CopyFileIfExists { from: pf, to: pt, .. } && (
                    u[1] matches StepView::CopyFileIfExists { from, to, .. } && from == pf && to
                        == pt)
                },
                PublishTarget::Ssh { ssh_host, remote_base, web_root } => {
                    &&& u[0] matches StepView::Rsync { args, .. } && args[3] == strip_end_char(
                        database_dir,
                        '/',
                    ) + "/"@ && args[4] == ssh_host@ + ":"@ + remote_base@ + "/lumineria_database/"@
                    &&& u[1] matches StepView::Remote { command, .. } && exists|rest: Seq<char>|
                        command == "cp '"@ + remote_base@ + "/lumineria_database/modpacks.json' '"@
                            + web_root@ + "/'"@ + rest
                },
            }
        }),
{
    match t {
        PublishTarget::Ssh { ssh_host, remote_base, web_root } => {
            let rb = remote_base@;
            let wr = web_root@;
            reveal_strlit("/' && rm -rf '");
            reveal_strlit("/'");
            reveal_strlit(" && rm -rf '");
            assert("/' && rm -rf '"@ =~= "/'"@ + " && rm -rf '"@);
            let rest = " && rm -rf '"@ + rb + "/lumineria_packwiz/"@ + pack_key + "' '"@ + wr + "/"@
                + pack_key + "'"@;
            assert(unpublish_command(rb, wr, pack_key) =~= "cp '"@ + rb
                + "/lumineria_database/modpacks.json' '"@ + wr + "/'"@ + rest);
        },
        PublishTarget::LocalFs { .. } => {},
    }
}

} // verus!
