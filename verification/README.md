# lumineria

The agent of Lumineria Manager, which runs on the machine that hosts a stack of
Minecraft servers in podman containers and serves a WebSocket to the desktop
client.

- `src/` is the verified library (Verus): the protocol's messages, the files of
  each server, discovery and naming of servers, packwiz packs, plugin lists, the
  catalogue of published packs, publication plans, and the step functions of
  creating and updating a server. Laws that span several functions are the
  public `law_*` proof functions.
- `app/` is the program around it: the command line (`check-deps`, `serve`),
  the WebSocket server, processes, files and HTTP downloads. It performs what
  the library decides and hands back what came of it.
- `tests/` runs the library on concrete values.

Verify with `verus` on `src/lib.rs` (the crate's outside dependencies, `base64`,
`image` and `rand`, are called from the library through a few trusted
wrappers, each documented where it stands).
