//! The `podman` command lines that run a server's container.
use vstd::prelude::*;
use crate::text::{push_str, str_is, str_views, string_of};

verus! {

fn push_owned(v: &mut Vec<String>, s: &str)
    ensures
        str_views(final(v)@) == str_views(old(v)@).push(s@),
{
    let ghost before = str_views(v@);
    v.push(String::from_str(s));
    assert(str_views(v@) =~= before.push(s@));
}

/// `podman <action> [-t 60] <id>`: stopping and restarting wait up to a minute.
pub open spec fn action_arguments(action: Seq<char>, id: Seq<char>) -> Seq<Seq<char>> {
    if action == "stop"@ || action == "restart"@ {
        seq![action, "-t"@, "60"@, id]
    } else {
        seq![action, id]
    }
}

/// The arguments of `podman` for an action on a container.
pub fn action_args(action: &str, id: &str) -> (r: Vec<String>)
    ensures
        str_views(r@) == action_arguments(action@, id@),
{
    let mut v: Vec<String> = Vec::new();
    push_owned(&mut v, action);
    if str_is(action, "stop") || str_is(action, "restart") {
        push_owned(&mut v, "-t");
        push_owned(&mut v, "60");
    }
    push_owned(&mut v, id);
    assert(str_views(v@) =~= action_arguments(action@, id@));
    v
}

/// `podman create` for a server: named by its id, on the host network, as the
/// user, with stdin open, its folder at `/data`, restarted unless stopped,
/// running `start.sh`.
pub open spec fn create_arguments(id: Seq<char>, dir: Seq<char>, image: Seq<char>) -> Seq<Seq<char>> {
    seq![
        "create"@,
        "--name"@,
        id,
        "--network"@,
        "host"@,
        "--userns=keep-id"@,
        "-i"@,
        "-v"@,
        dir + ":/data:Z"@,
        "--restart"@,
        "unless-stopped"@,
        image,
        "sh"@,
        "/data/start.sh"@,
    ]
}

/// The arguments of `podman` that create a server's container.
pub fn create_args(id: &str, dir: &str, image: &str) -> (r: Vec<String>)
    ensures
        str_views(r@) == create_arguments(id@, dir@, image@),
{
    let mut vol: Vec<char> = Vec::new();
    push_str(&mut vol, dir);
    push_str(&mut vol, ":/data:Z");
    let mut v: Vec<String> = Vec::new();
    push_owned(&mut v, "create");
    push_owned(&mut v, "--name");
    push_owned(&mut v, id);
    push_owned(&mut v, "--network");
    push_owned(&mut v, "host");
    push_owned(&mut v, "--userns=keep-id");
    push_owned(&mut v, "-i");
    push_owned(&mut v, "-v");
    let ghost before = str_views(v@);
    let volume = string_of(&vol);
    let ghost vv = volume@;
    v.push(volume);
    assert(str_views(v@) =~= before.push(vv));
    push_owned(&mut v, "--restart");
    push_owned(&mut v, "unless-stopped");
    push_owned(&mut v, image);
    push_owned(&mut v, "sh");
    push_owned(&mut v, "/data/start.sh");
    assert(str_views(v@) =~= create_arguments(id@, dir@, image@));
    v
}

/// How many lines of the log to show when following it: the last hundred the
/// first time, none when following it again.
pub fn log_tail(first: bool) -> (r: &'static str)
    ensures
        r@ == if first {
            "100"@
        } else {
            "0"@
        },
{
    if first {
        "100"
    } else {
        "0"
    }
}

/// The arguments of `podman` that follow a container's log.
pub fn logs_args(id: &str, tail: &str) -> (r: Vec<String>)
    ensures
        str_views(r@) == seq!["logs"@, "-f"@, "--tail"@, tail@, id@],
{
    let mut v: Vec<String> = Vec::new();
    push_owned(&mut v, "logs");
    push_owned(&mut v, "-f");
    push_owned(&mut v, "--tail");
    push_owned(&mut v, tail);
    push_owned(&mut v, id);
    assert(str_views(v@) =~= seq!["logs"@, "-f"@, "--tail"@, tail@, id@]);
    v
}

/// The arguments of `podman` that feed the server's console (the standard
/// input of the container's first process).
pub fn console_args(id: &str) -> (r: Vec<String>)
    ensures
        str_views(r@) == seq!["exec"@, "-i"@, id@, "sh"@, "-c"@, "cat > /proc/1/fd/0"@],
{
    let mut v: Vec<String> = Vec::new();
    push_owned(&mut v, "exec");
    push_owned(&mut v, "-i");
    push_owned(&mut v, id);
    push_owned(&mut v, "sh");
    push_owned(&mut v, "-c");
    push_owned(&mut v, "cat > /proc/1/fd/0");
    assert(str_views(v@) =~= seq!["exec"@, "-i"@, id@, "sh"@, "-c"@, "cat > /proc/1/fd/0"@]);
    v
}

/// The line written to a server's console for a command.
pub fn console_line(command: &str) -> (r: String)
    ensures
        r@ == command@.push('\n'),
{
    let mut out: Vec<char> = Vec::new();
    push_str(&mut out, command);
    out.push('\n');
    string_of(&out)
}

/// The arguments of `podman` that ask whether a container runs.
pub fn inspect_running_args(id: &str) -> (r: Vec<String>)
    ensures
        str_views(r@) == seq!["inspect"@, "-f"@, "{{.State.Running}}"@, id@],
{
    let mut v: Vec<String> = Vec::new();
    push_owned(&mut v, "inspect");
    push_owned(&mut v, "-f");
    push_owned(&mut v, "{{.State.Running}}");
    push_owned(&mut v, id);
    assert(str_views(v@) =~= seq!["inspect"@, "-f"@, "{{.State.Running}}"@, id@]);
    v
}

/// Whether a command may be sent to a server's console: only while it runs;
/// else the message the client is sent.
pub fn console_refusal(running: bool) -> (r: Option<String>)
    ensures
        running ==> r is None,
        !running ==> (r matches Some(m) && m@
            == "El servidor está detenido, iniciálo antes de mandar comandos."@),
{
    if running {
        None
    } else {
        Some(String::from_str("El servidor está detenido, iniciálo antes de mandar comandos."))
    }
}

} // verus!
