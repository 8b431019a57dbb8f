//! The life of a server's engine: what creating a server installs, and the
//! update of a server as a machine of stages that the caller drives: each step
//! takes what the last outside operation gave back and says what to log and
//! what to do next.
use vstd::prelude::*;
use crate::engine::{join_text, nonblank, update_output_text};
use crate::env::{env_value, read_env_value};
use crate::config::{server_env_text, server_properties_text};
use crate::naming::{
    direct_plugins, forge_installer_url, forge_url, java_image, java_image_for,
    neoforge_installer_url, neoforge_url, uses_direct_plugins,
};
use crate::protocol::ServerConfigParams;
use crate::packwiz::{
    engine_settings, engine_settings_match, is_papermc_engine, last_second_piece, papermc_engine,
    EngineSettings,
};
use crate::text::{lines, push_str, str_is, str_views, string_of};

verus! {

// ---------------------------------------------------------------------------
// Text
// ---------------------------------------------------------------------------

fn text2(a: &str, b: &str) -> (r: String)
    ensures
        r@ == a@ + b@,
{
    let mut out: Vec<char> = Vec::new();
    push_str(&mut out, a);
    push_str(&mut out, b);
    string_of(&out)
}

fn text3(a: &str, b: &str, c: &str) -> (r: String)
    ensures
        r@ == a@ + b@ + c@,
{
    let mut out: Vec<char> = Vec::new();
    push_str(&mut out, a);
    push_str(&mut out, b);
    push_str(&mut out, c);
    string_of(&out)
}

fn text4(a: &str, b: &str, c: &str, d: &str) -> (r: String)
    ensures
        r@ == a@ + b@ + c@ + d@,
{
    let mut out: Vec<char> = Vec::new();
    push_str(&mut out, a);
    push_str(&mut out, b);
    push_str(&mut out, c);
    push_str(&mut out, d);
    string_of(&out)
}

fn text5(a: &str, b: &str, c: &str, d: &str, e: &str) -> (r: String)
    ensures
        r@ == a@ + b@ + c@ + d@ + e@,
{
    let mut out: Vec<char> = Vec::new();
    push_str(&mut out, a);
    push_str(&mut out, b);
    push_str(&mut out, c);
    push_str(&mut out, d);
    push_str(&mut out, e);
    string_of(&out)
}

/// The view of an optional string.
pub open spec fn opt_view(o: Option<String>) -> Option<Seq<char>> {
    match o {
        Some(s) => Some(s@),
        None => None,
    }
}

fn clone_opt(o: &Option<String>) -> (r: Option<String>)
    ensures
        opt_view(r) == opt_view(*o),
{
    match o {
        Some(s) => Some(s.clone()),
        None => None,
    }
}

// ---------------------------------------------------------------------------
// Installing an engine
// ---------------------------------------------------------------------------

/// How an engine is installed.
pub enum EngineInstall {
    /// From PaperMC's builds (Paper, Velocity, Folia).
    Paper,
    /// With the Fabric installer, for a loader version.
    Fabric { loader: String },
    /// With a Forge or NeoForge installer jar downloaded from `url`.
    ModLoader { url: String, installer_name: String },
    /// Nothing to install.
    Nothing,
}

/// The name of a loader's installer jar: `<prefix><build>-installer.jar`.
pub open spec fn installer_jar_name(prefix: Seq<char>, build: Seq<char>) -> Seq<char> {
    prefix + build + "-installer.jar"@
}

/// What installing a new server of `server_type` comes to, the loader version
/// being empty where none was given.
pub open spec fn creation_install_matches(server_type: Seq<char>, loader: Option<Seq<char>>, r: EngineInstall) -> bool {
    let l = match loader {
        Some(v) => v,
        None => seq![],
    };
    if papermc_engine(server_type) {
        r is Paper
    } else if server_type == "fabric"@ {
        r matches EngineInstall::Fabric { loader } && loader@ == l
    } else if server_type == "neoforge"@ {
        r matches EngineInstall::ModLoader { url, installer_name } && url@ == neoforge_installer_url(
            l,
        ) && installer_name@ == installer_jar_name("neoforge-"@, l)
    } else if server_type == "forge"@ {
        r matches EngineInstall::ModLoader { url, installer_name } && url@ == forge_installer_url(l)
            && installer_name@ == installer_jar_name("forge-"@, l)
    } else {
        r is Nothing
    }
}

/// How the engine of a new server is installed.
pub fn creation_install(server_type: &str, loader_version: &Option<String>) -> (r: EngineInstall)
    ensures
        creation_install_matches(server_type@, opt_view(*loader_version), r),
{
    let l = match loader_version {
        Some(v) => v.clone(),
        None => String::new(),
    };
    if is_papermc_engine(server_type) {
        EngineInstall::Paper
    } else if str_is(server_type, "fabric") {
        EngineInstall::Fabric { loader: l }
    } else if str_is(server_type, "neoforge") {
        EngineInstall::ModLoader {
            url: neoforge_url(l.as_str()),
            installer_name: text3("neoforge-", l.as_str(), "-installer.jar"),
        }
    } else if str_is(server_type, "forge") {
        EngineInstall::ModLoader {
            url: forge_url(l.as_str()),
            installer_name: text3("forge-", l.as_str(), "-installer.jar"),
        }
    } else {
        EngineInstall::Nothing
    }
}

/// Why a server cannot be created: its id is taken, or its port is.
pub open spec fn creation_refusal_text(id: Seq<char>, port: u16, id_exists: bool, port_taken: bool) -> Option<Seq<char>> {
    if id_exists {
        Some("❌ Ya existe un servidor con el id '"@ + id + "'. Elige otro nombre."@)
    } else if port_taken {
        Some(
            "❌ El puerto "@ + crate::numbers::decimal(port as nat)
                + " ya está en uso por otro servidor (esté corriendo o no). Elige otro."@,
        )
    } else {
        None
    }
}

/// The message refusing a new server whose id or port is taken.
pub fn creation_refusal(id: &str, port: u16, id_exists: bool, port_taken: bool) -> (r: Option<
    String,
>)
    ensures
        opt_view(r) == creation_refusal_text(id@, port, id_exists, port_taken),
{
    if id_exists {
        return Some(text3("❌ Ya existe un servidor con el id '", id, "'. Elige otro nombre."));
    }
    if port_taken {
        let digits = crate::numbers::decimal_chars(port as u64);
        let p = string_of(&digits);
        return Some(
            text3(
                "❌ El puerto ",
                p.as_str(),
                " ya está en uso por otro servidor (esté corriendo o no). Elige otro.",
            ),
        );
    }
    None
}

// ---------------------------------------------------------------------------
// Updating a server: the stages
// ---------------------------------------------------------------------------

/// What an update is waiting for.
#[derive(Clone, Copy, Debug, PartialEq, Eq, Structural)]
pub enum UpdateStage {
    /// The latest Velocity version.
    CheckingVelocity,
    /// Whether the container runs.
    CheckingRunning,
    /// The container to stop.
    Stopping,
    /// The pack to be ready.
    PreparingPack,
    /// `packwiz update` to end.
    UpdatingMods,
    /// `packwiz refresh` to end.
    Refreshing,
    /// The server's mods to be synchronised.
    SyncingMods,
    /// The latest PaperMC build.
    CheckingBuild,
    /// The old engine's files to be removed.
    Cleaning,
    /// The new engine to be installed.
    Installing,
    /// The installed build to be saved.
    SavingBuild,
    /// The new Velocity version to be saved.
    SavingVersion,
    /// The container to be recreated.
    Recreating,
    /// The container to start again.
    Restarting,
    /// Nothing: the update is over.
    Done,
}

/// An update under way.
pub struct UpdateJob {
    pub stage: UpdateStage,
    pub server_type: String,
    pub mc_version: String,
    pub min_ram: String,
    pub max_ram: String,
    pub loader_version: Option<String>,
    pub update_mods: bool,
    pub update_engine: bool,
    pub force: bool,
    pub current_build: Option<String>,
    pub was_running: bool,
    pub engine_detail: Option<String>,
    pub new_build: Option<String>,
}

/// An update under way, its texts as sequences.
#[verifier::ext_equal]
pub struct JobView {
    pub stage: UpdateStage,
    pub server_type: Seq<char>,
    pub mc_version: Seq<char>,
    pub min_ram: Seq<char>,
    pub max_ram: Seq<char>,
    pub loader_version: Option<Seq<char>>,
    pub update_mods: bool,
    pub update_engine: bool,
    pub force: bool,
    pub current_build: Option<Seq<char>>,
    pub was_running: bool,
    pub engine_detail: Option<Seq<char>>,
    pub new_build: Option<Seq<char>>,
}

impl View for UpdateJob {
    type V = JobView;

    open spec fn view(&self) -> JobView {
        JobView {
            stage: self.stage,
            server_type: self.server_type@,
            mc_version: self.mc_version@,
            min_ram: self.min_ram@,
            max_ram: self.max_ram@,
            loader_version: opt_view(self.loader_version),
            update_mods: self.update_mods,
            update_engine: self.update_engine,
            force: self.force,
            current_build: opt_view(self.current_build),
            was_running: self.was_running,
            engine_detail: opt_view(self.engine_detail),
            new_build: opt_view(self.new_build),
        }
    }
}

/// What the last outside operation gave back.
pub enum UpdateEvent {
    /// The latest Velocity version, or why it is not known.
    LatestVelocity(Result<String, String>),
    /// Whether the container runs.
    Running(bool),
    /// An operation ended, well or with a message.
    Finished(Result<(), String>),
    /// What `packwiz update` printed (output, errors), where it could be run.
    PackwizOutput(Option<(String, String)>),
    /// The latest PaperMC build, where it is known.
    LatestBuild(Option<String>),
    /// The engine was installed (PaperMC gives the jar's name and the build), or
    /// why not.
    Installed(Result<Option<(String, String)>, String>),
}

/// An event, its texts as sequences.
pub enum EventView {
    LatestVelocity(Result<Seq<char>, Seq<char>>),
    Running(bool),
    Finished(Result<(), Seq<char>>),
    PackwizOutput(Option<(Seq<char>, Seq<char>)>),
    LatestBuild(Option<Seq<char>>),
    Installed(Result<Option<(Seq<char>, Seq<char>)>, Seq<char>>),
}

impl View for UpdateEvent {
    type V = EventView;

    open spec fn view(&self) -> EventView {
        match self {
            UpdateEvent::LatestVelocity(r) => EventView::LatestVelocity(
                match r {
                    Ok(v) => Ok(v@),
                    Err(e) => Err(e@),
                },
            ),
            UpdateEvent::Running(b) => EventView::Running(*b),
            UpdateEvent::Finished(r) => EventView::Finished(
                match r {
                    Ok(()) => Ok(()),
                    Err(e) => Err(e@),
                },
            ),
            UpdateEvent::PackwizOutput(o) => EventView::PackwizOutput(
                match o {
                    Some((a, b)) => Some((a@, b@)),
                    None => None,
                },
            ),
            UpdateEvent::LatestBuild(o) => EventView::LatestBuild(opt_view(*o)),
            UpdateEvent::Installed(r) => EventView::Installed(
                match r {
                    Ok(Some((a, b))) => Ok(Some((a@, b@))),
                    Ok(None) => Ok(None),
                    Err(e) => Err(e@),
                },
            ),
        }
    }
}

/// The next outside operation of an update.
pub enum UpdateOp {
    /// Ask for the latest Velocity version.
    CheckLatestVelocity,
    /// Ask whether the container runs.
    CheckRunning,
    /// Stop the container.
    StopContainer,
    /// Make sure the server's pack is set up.
    PreparePack,
    /// Run `packwiz update --all -y` in the pack.
    UpdateMods,
    /// Run `packwiz refresh` in the pack.
    RefreshPack,
    /// Bring the pack's server side into the server.
    SyncMods,
    /// Ask for the latest PaperMC build of the job's type and version.
    CheckLatestBuild,
    /// Remove the old engine's jars and libraries.
    CleanEngine,
    /// Install from PaperMC (the job's type, version and memory).
    InstallPaper,
    /// Install with the Fabric installer.
    InstallFabric { loader: String },
    /// Install with a Forge or NeoForge installer.
    InstallModLoader { url: String, installer_name: String },
    /// Set a key of `server.env`.
    SaveSetting { key: String, value: String },
    /// Recreate the container with an image.
    RecreateContainer { image: String },
    /// Start the container.
    StartContainer,
    /// Report an error, start the container again where `restart`, and stop.
    Fail { message: String, restart: bool },
    /// Start the container again where `restart`, and stop (the logs said why).
    Abort { restart: bool },
    /// Report success with a message, and stop.
    Finish { message: String },
    /// Nothing.
    Nothing,
}

/// An operation, its texts as sequences.
pub enum OpView {
    CheckLatestVelocity,
    CheckRunning,
    StopContainer,
    PreparePack,
    UpdateMods,
    RefreshPack,
    SyncMods,
    CheckLatestBuild,
    CleanEngine,
    InstallPaper,
    InstallFabric { loader: Seq<char> },
    InstallModLoader { url: Seq<char>, installer_name: Seq<char> },
    SaveSetting { key: Seq<char>, value: Seq<char> },
    RecreateContainer { image: Seq<char> },
    StartContainer,
    Fail { message: Seq<char>, restart: bool },
    Abort { restart: bool },
    Finish { message: Seq<char> },
    Nothing,
}

impl View for UpdateOp {
    type V = OpView;

    open spec fn view(&self) -> OpView {
        match self {
            UpdateOp::CheckLatestVelocity => OpView::CheckLatestVelocity,
            UpdateOp::CheckRunning => OpView::CheckRunning,
            UpdateOp::StopContainer => OpView::StopContainer,
            UpdateOp::PreparePack => OpView::PreparePack,
            UpdateOp::UpdateMods => OpView::UpdateMods,
            UpdateOp::RefreshPack => OpView::RefreshPack,
            UpdateOp::SyncMods => OpView::SyncMods,
            UpdateOp::CheckLatestBuild => OpView::CheckLatestBuild,
            UpdateOp::CleanEngine => OpView::CleanEngine,
            UpdateOp::InstallPaper => OpView::InstallPaper,
            UpdateOp::InstallFabric { loader } => OpView::InstallFabric { loader: loader@ },
            UpdateOp::InstallModLoader { url, installer_name } => OpView::InstallModLoader {
                url: url@,
                installer_name: installer_name@,
            },
            UpdateOp::SaveSetting { key, value } => OpView::SaveSetting {
                key: key@,
                value: value@,
            },
            UpdateOp::RecreateContainer { image } => OpView::RecreateContainer { image: image@ },
            UpdateOp::StartContainer => OpView::StartContainer,
            UpdateOp::Fail { message, restart } => OpView::Fail {
                message: message@,
                restart: *restart,
            },
            UpdateOp::Abort { restart } => OpView::Abort { restart: *restart },
            UpdateOp::Finish { message } => OpView::Finish { message: message@ },
            UpdateOp::Nothing => OpView::Nothing,
        }
    }
}

/// What to do next: the lines to log first, then the operation.
pub struct UpdateAction {
    pub logs: Vec<String>,
    pub op: UpdateOp,
}

/// An action, its texts as sequences.
#[verifier::ext_equal]
pub struct ActionView {
    pub logs: Seq<Seq<char>>,
    pub op: OpView,
}

impl View for UpdateAction {
    type V = ActionView;

    open spec fn view(&self) -> ActionView {
        ActionView { logs: str_views(self.logs@), op: self.op@ }
    }
}

// ---------------------------------------------------------------------------
// Updating a server: the transitions
// ---------------------------------------------------------------------------

/// The message an update ends with.
pub open spec fn update_summary(j: JobView) -> Seq<char> {
    let detail = match j.engine_detail {
        Some(d) => ": "@ + d,
        None => seq![],
    };
    if j.update_mods && j.update_engine {
        "Servidor actualizado (mods/plugins + motor"@ + detail + ")"@
    } else if j.update_mods {
        "Mods/plugins actualizados y sincronizados"@
    } else {
        "Motor actualizado"@ + detail
    }
}

/// `j` at another stage.
pub open spec fn at(j: JobView, stage: UpdateStage) -> JobView {
    JobView { stage, ..j }
}

/// An action.
pub open spec fn act(logs: Seq<Seq<char>>, op: OpView) -> ActionView {
    ActionView { logs, op }
}

/// Start the container again where it ran, else end well.
pub open spec fn restart_or_finish(j: JobView, logs: Seq<Seq<char>>) -> (JobView, ActionView) {
    if j.was_running {
        (
            at(j, UpdateStage::Restarting),
            act(logs.push("▶️ Reiniciando el servidor..."@), OpView::StartContainer),
        )
    } else {
        (at(j, UpdateStage::Done), act(logs, OpView::Finish { message: update_summary(j) }))
    }
}

/// Whether an engine whose latest build is `latest` is installed already.
pub open spec fn up_to_date(latest: Option<Seq<char>>, current: Option<Seq<char>>) -> bool {
    latest is Some && current is Some && latest->0 == current->0
}

/// Skip the reinstall where the engine is up to date, else clean the old one.
pub open spec fn decide_reinstall(j: JobView, latest: Option<Seq<char>>, logs: Seq<Seq<char>>) -> (
    JobView,
    ActionView,
) {
    if up_to_date(latest, j.current_build) {
        restart_or_finish(
            JobView { engine_detail: Some(j.mc_version + " (ya estaba al día)"@), ..j },
            logs.push(
                "✅ El motor ya está en la última compilación ("@ + j.current_build->0
                    + "). No hace falta reinstalar."@,
            ),
        )
    } else {
        (
            at(j, UpdateStage::Cleaning),
            act(logs.push("🧹 Limpiando binarios del motor anterior..."@), OpView::CleanEngine),
        )
    }
}

/// A type whose latest build is its loader version.
pub open spec fn loader_engine(server_type: Seq<char>) -> bool {
    server_type == "fabric"@ || server_type == "neoforge"@ || server_type == "forge"@
}

/// The engine part of an update: nothing where it was not asked for; else
/// the latest build (PaperMC's, or the loader version given) against the
/// installed one, unless forced.
pub open spec fn engine_phase(j: JobView, logs: Seq<Seq<char>>) -> (JobView, ActionView) {
    if !j.update_engine {
        restart_or_finish(j, logs)
    } else if !j.force && papermc_engine(j.server_type) {
        (at(j, UpdateStage::CheckingBuild), act(logs, OpView::CheckLatestBuild))
    } else {
        decide_reinstall(
            j,
            if !j.force && loader_engine(j.server_type) {
                j.loader_version
            } else {
                None
            },
            logs,
        )
    }
}

/// After the container was stopped (or did not run): the mods first where asked.
pub open spec fn after_stop(j: JobView) -> (JobView, ActionView) {
    if j.update_mods {
        (at(j, UpdateStage::PreparingPack), act(seq![], OpView::PreparePack))
    } else {
        engine_phase(j, seq![])
    }
}

/// Give up where the loader version is missing.
pub open spec fn missing_loader(j: JobView, logs: Seq<Seq<char>>, name: Seq<char>) -> (
    JobView,
    ActionView,
) {
    (
        at(j, UpdateStage::Done),
        act(
            logs,
            OpView::Fail {
                message: "Falta 'loader_version' para actualizar "@ + name + "."@,
                restart: j.was_running,
            },
        ),
    )
}

/// The installation of the new engine, by type.
pub open spec fn install_phase(j: JobView, logs: Seq<Seq<char>>) -> (JobView, ActionView) {
    let st = j.server_type;
    let mc = j.mc_version;
    if papermc_engine(st) {
        (at(j, UpdateStage::Installing), act(logs, OpView::InstallPaper))
    } else if st == "fabric"@ {
        match j.loader_version {
            None => missing_loader(j, logs, "Fabric"@),
            Some(l) => (
                JobView {
                    stage: UpdateStage::Installing,
                    engine_detail: Some("Fabric "@ + l + " (MC "@ + mc + ")"@),
                    new_build: Some(l),
                    ..j
                },
                act(logs, OpView::InstallFabric { loader: l }),
            ),
        }
    } else if st == "neoforge"@ {
        match j.loader_version {
            None => missing_loader(j, logs, "NeoForge"@),
            Some(l) => (
                JobView {
                    stage: UpdateStage::Installing,
                    engine_detail: Some("NeoForge "@ + l + " (MC "@ + mc + ")"@),
                    new_build: Some(l),
                    ..j
                },
                act(
                    logs,
                    OpView::InstallModLoader {
                        url: neoforge_installer_url(l),
                        installer_name: installer_jar_name("neoforge-"@, l),
                    },
                ),
            ),
        }
    } else if st == "forge"@ {
        match j.loader_version {
            None => missing_loader(j, logs, "Forge"@),
            Some(l) => (
                JobView {
                    stage: UpdateStage::Installing,
                    engine_detail: Some("Forge "@ + l + " (MC "@ + mc + ")"@),
                    new_build: Some(l),
                    ..j
                },
                act(
                    logs,
                    OpView::InstallModLoader {
                        url: forge_installer_url(l),
                        installer_name: installer_jar_name("forge-"@, l),
                    },
                ),
            ),
        }
    } else {
        (
            at(j, UpdateStage::Done),
            act(
                logs,
                OpView::Fail {
                    message: "Motor '"@ + st + "' no soporta actualización automática."@,
                    restart: j.was_running,
                },
            ),
        )
    }
}

/// Recreate the container with the image for the (new) version.
pub open spec fn recreate(j: JobView, logs: Seq<Seq<char>>) -> (JobView, ActionView) {
    (
        at(j, UpdateStage::Recreating),
        act(logs, OpView::RecreateContainer { image: java_image(j.server_type, j.mc_version) }),
    )
}

/// After the build was saved: a proxy's new version is saved too.
pub open spec fn after_build_saved(j: JobView, logs: Seq<Seq<char>>) -> (JobView, ActionView) {
    if j.server_type == "velocity"@ {
        (
            at(j, UpdateStage::SavingVersion),
            act(logs, OpView::SaveSetting { key: "MC_VERSION"@, value: j.mc_version }),
        )
    } else {
        recreate(j, logs)
    }
}

/// After the engine was installed: log it, save the build where there is one.
pub open spec fn after_install(j: JobView, logs: Seq<Seq<char>>) -> (JobView, ActionView) {
    let logs2 = match j.engine_detail {
        Some(d) => logs.push("✔ Motor instalado: "@ + d),
        None => logs,
    };
    match j.new_build {
        Some(b) => (
            at(j, UpdateStage::SavingBuild),
            act(logs2, OpView::SaveSetting { key: "ENGINE_BUILD"@, value: b }),
        ),
        None => after_build_saved(j, logs2),
    }
}

/// A warning where an operation whose failure is not fatal failed.
pub open spec fn warn_on(r: Result<(), Seq<char>>, prefix: Seq<char>) -> Seq<Seq<char>> {
    match r {
        Ok(()) => seq![],
        Err(e) => seq![prefix + e],
    }
}

/// End with an error.
pub open spec fn fail(j: JobView, message: Seq<char>, restart: bool) -> (JobView, ActionView) {
    (at(j, UpdateStage::Done), act(seq![], OpView::Fail { message, restart }))
}

/// The step of an update: from the job and what its last operation gave back,
/// the job and what to do next. An event that the stage does not wait for
/// changes nothing.
pub open spec fn update_next(j: JobView, e: EventView) -> (JobView, ActionView) {
    match (j.stage, e) {
        (UpdateStage::CheckingVelocity, EventView::LatestVelocity(Ok(l))) => (
            JobView { stage: UpdateStage::CheckingRunning, mc_version: l, ..j },
            act(
                if l != j.mc_version {
                    seq![
                        "🔎 Velocity: hay una versión más nueva disponible ("@ + l
                            + "), actualizando desde "@ + j.mc_version + "."@,
                    ]
                } else {
                    seq![]
                },
                OpView::CheckRunning,
            ),
        ),
        (UpdateStage::CheckingVelocity, EventView::LatestVelocity(Err(m))) => (
            at(j, UpdateStage::CheckingRunning),
            act(
                seq![
                    "⚠️ No pude chequear la última versión de Velocity ("@ + m
                        + "), sigo con la configurada ("@ + j.mc_version + ")."@,
                ],
                OpView::CheckRunning,
            ),
        ),
        (UpdateStage::CheckingRunning, EventView::Running(b)) => if b {
            (
                JobView { stage: UpdateStage::Stopping, was_running: true, ..j },
                act(
                    seq!["⏸️ Deteniendo el servidor para actualizar..."@],
                    OpView::StopContainer,
                ),
            )
        } else {
            after_stop(JobView { was_running: false, ..j })
        },
        (UpdateStage::Stopping, EventView::Finished(Ok(()))) => after_stop(j),
        (UpdateStage::Stopping, EventView::Finished(Err(m))) => fail(
            j,
            "No pude detener el contenedor, aborto la actualización: "@ + m,
            false,
        ),
        (UpdateStage::PreparingPack, EventView::Finished(Ok(()))) => (
            at(j, UpdateStage::UpdatingMods),
            act(seq!["> Buscando actualizaciones de mods/plugins..."@], OpView::UpdateMods),
        ),
        (UpdateStage::PreparingPack, EventView::Finished(Err(m))) => (
            at(j, UpdateStage::Done),
            act(seq!["❌ "@ + m], OpView::Abort { restart: j.was_running }),
        ),
        (UpdateStage::UpdatingMods, EventView::PackwizOutput(o)) => (
            at(j, UpdateStage::Refreshing),
            act(
                match o {
                    Some((out, err)) => {
                        let t = join_text(nonblank(lines(out) + lines(err)));
                        if t.len() > 0 {
                            seq![t]
                        } else {
                            seq![]
                        }
                    },
                    None => seq![],
                },
                OpView::RefreshPack,
            ),
        ),
        (UpdateStage::Refreshing, EventView::Finished(_)) => (
            at(j, UpdateStage::SyncingMods),
            act(
                seq!["> Sincronizando mods/plugins actualizados al servidor..."@],
                OpView::SyncMods,
            ),
        ),
        (UpdateStage::SyncingMods, EventView::Finished(r)) => engine_phase(
            j,
            warn_on(r, "❌ Error al sincronizar mods/plugins: "@),
        ),
        (UpdateStage::CheckingBuild, EventView::LatestBuild(b)) => decide_reinstall(j, b, seq![]),
        (UpdateStage::Cleaning, EventView::Finished(r)) => install_phase(
            j,
            warn_on(r, "⚠️ No pude limpiar del todo los archivos viejos: "@),
        ),
        (UpdateStage::Installing, EventView::Installed(Err(m))) => fail(
            j,
            "Error al reinstalar el motor: "@ + m,
            j.was_running,
        ),
        (UpdateStage::Installing, EventView::Installed(Ok(x))) => after_install(
            match x {
                Some((jar, build)) if papermc_engine(j.server_type) => JobView {
                    engine_detail: Some(j.mc_version + " ("@ + jar + ")"@),
                    new_build: Some(build),
                    ..j
                },
                _ => j,
            },
            seq![],
        ),
        (UpdateStage::SavingBuild, EventView::Finished(r)) => after_build_saved(
            j,
            warn_on(r, "⚠️ No pude guardar el build instalado: "@),
        ),
        (UpdateStage::SavingVersion, EventView::Finished(r)) => recreate(
            j,
            warn_on(r, "⚠️ No pude guardar la nueva versión de Velocity: "@),
        ),
        (UpdateStage::Recreating, EventView::Finished(Err(m))) => fail(
            j,
            "No pude recrear el contenedor: "@ + m,
            j.was_running,
        ),
        (UpdateStage::Recreating, EventView::Finished(Ok(()))) => restart_or_finish(j, seq![]),
        (UpdateStage::Restarting, EventView::Finished(Err(m))) => fail(
            j,
            "No pude reiniciar el contenedor: "@ + m,
            false,
        ),
        (UpdateStage::Restarting, EventView::Finished(Ok(()))) => (
            at(j, UpdateStage::Done),
            act(seq![], OpView::Finish { message: update_summary(j) }),
        ),
        _ => (j, act(seq![], OpView::Nothing)),
    }
}

/// The job an update starts with, from the server's `server.env` (the
/// settings' defaults: `paper`, `latest`, `1G`, `4G`).
pub open spec fn job_from(env: Seq<char>, loader: Option<Seq<char>>, update_mods: bool, update_engine: bool, force: bool, stage: UpdateStage) -> JobView {
    JobView {
        stage,
        server_type: match env_value(env, "SERVER_TYPE"@) {
            Some(v) => v,
            None => "paper"@,
        },
        mc_version: match env_value(env, "MC_VERSION"@) {
            Some(v) => v,
            None => "latest"@,
        },
        min_ram: match env_value(env, "MIN_RAM"@) {
            Some(v) => v,
            None => "1G"@,
        },
        max_ram: match env_value(env, "MAX_RAM"@) {
            Some(v) => v,
            None => "4G"@,
        },
        loader_version: loader,
        update_mods,
        update_engine,
        force,
        current_build: env_value(env, "ENGINE_BUILD"@),
        was_running: false,
        engine_detail: None,
        new_build: None,
    }
}

/// How an update starts: refused where nothing was selected or the server's
/// settings could not be read; a proxy's engine update first asks for the
/// latest Velocity; then whether the container runs.
pub open spec fn update_start(env: Option<Seq<char>>, loader: Option<Seq<char>>, update_mods: bool, update_engine: bool, force: bool) -> (
    Option<JobView>,
    ActionView,
) {
    if !update_mods && !update_engine {
        (
            None,
            act(
                seq![],
                OpView::Fail { message: "No se seleccionó nada para actualizar."@, restart: false },
            ),
        )
    } else {
        match env {
            None => (
                None,
                act(
                    seq![],
                    OpView::Fail {
                        message: "No encontré la configuración del servidor."@,
                        restart: false,
                    },
                ),
            ),
            Some(e) => {
                let j = job_from(
                    e,
                    loader,
                    update_mods,
                    update_engine,
                    force,
                    UpdateStage::CheckingRunning,
                );
                if j.server_type == "velocity"@ && update_engine {
                    (
                        Some(at(j, UpdateStage::CheckingVelocity)),
                        act(seq![], OpView::CheckLatestVelocity),
                    )
                } else {
                    (Some(j), act(seq![], OpView::CheckRunning))
                }
            },
        }
    }
}

// ---------------------------------------------------------------------------
// Updating a server: running the transitions
// ---------------------------------------------------------------------------

fn push_log(logs: &mut Vec<String>, line: String)
    ensures
        str_views(final(logs)@) == str_views(old(logs)@).push(line@),
{
    let ghost before = str_views(logs@);
    let ghost lv = line@;
    logs.push(line);
    assert(str_views(logs@) =~= before.push(lv));
}

fn one_log(line: String) -> (r: Vec<String>)
    ensures
        str_views(r@) == seq![line@],
{
    let mut v: Vec<String> = Vec::new();
    push_log(&mut v, line);
    assert(str_views(v@) =~= seq![line@]);
    v
}

fn no_logs() -> (r: Vec<String>)
    ensures
        str_views(r@) == Seq::<Seq<char>>::empty(),
{
    let v: Vec<String> = Vec::new();
    assert(str_views(v@) =~= Seq::<Seq<char>>::empty());
    v
}

fn summary_of(j: &UpdateJob) -> (r: String)
    ensures
        r@ == update_summary(j@),
{
    let detail: String = match &j.engine_detail {
        Some(d) => text2(": ", d.as_str()),
        None => String::new(),
    };
    if j.update_mods && j.update_engine {
        text3("Servidor actualizado (mods/plugins + motor", detail.as_str(), ")")
    } else if j.update_mods {
        String::from_str("Mods/plugins actualizados y sincronizados")
    } else {
        let r = text2("Motor actualizado", detail.as_str());
        proof {
            if j.engine_detail is None {
                assert(r@ =~= "Motor actualizado"@ + Seq::<char>::empty());
            }
        }
        r
    }
}

fn restart_or_finish_exec(j: UpdateJob, logs: Vec<String>) -> (r: (UpdateJob, UpdateAction))
    ensures
        r.0@ == restart_or_finish(j@, str_views(logs@)).0,
        r.1@ == restart_or_finish(j@, str_views(logs@)).1,
{
    let mut j = j;
    let mut logs = logs;
    if j.was_running {
        push_log(&mut logs, String::from_str("▶️ Reiniciando el servidor..."));
        j.stage = UpdateStage::Restarting;
        (j, UpdateAction { logs, op: UpdateOp::StartContainer })
    } else {
        let message = summary_of(&j);
        j.stage = UpdateStage::Done;
        (j, UpdateAction { logs, op: UpdateOp::Finish { message } })
    }
}

fn decide_reinstall_exec(j: UpdateJob, latest: Option<String>, logs: Vec<String>) -> (r: (
    UpdateJob,
    UpdateAction,
))
    ensures
        r.0@ == decide_reinstall(j@, opt_view(latest), str_views(logs@)).0,
        r.1@ == decide_reinstall(j@, opt_view(latest), str_views(logs@)).1,
{
    let mut j = j;
    let mut logs = logs;
    let current: Option<String> = match &latest {
        Some(l) => match &j.current_build {
            Some(c) => if str_is(l.as_str(), c.as_str()) {
                Some(c.clone())
            } else {
                None
            },
            None => None,
        },
        None => None,
    };
    match current {
        Some(c) => {
            push_log(
                &mut logs,
                text3(
                    "✅ El motor ya está en la última compilación (",
                    c.as_str(),
                    "). No hace falta reinstalar.",
                ),
            );
            j.engine_detail = Some(text2(j.mc_version.as_str(), " (ya estaba al día)"));
            restart_or_finish_exec(j, logs)
        },
        None => {
            push_log(&mut logs, String::from_str("🧹 Limpiando binarios del motor anterior..."));
            j.stage = UpdateStage::Cleaning;
            (j, UpdateAction { logs, op: UpdateOp::CleanEngine })
        },
    }
}

fn is_loader_engine(server_type: &str) -> (r: bool)
    ensures
        r == loader_engine(server_type@),
{
    str_is(server_type, "fabric") || str_is(server_type, "neoforge") || str_is(server_type, "forge")
}

fn engine_phase_exec(j: UpdateJob, logs: Vec<String>) -> (r: (UpdateJob, UpdateAction))
    ensures
        r.0@ == engine_phase(j@, str_views(logs@)).0,
        r.1@ == engine_phase(j@, str_views(logs@)).1,
{
    let mut j = j;
    if !j.update_engine {
        restart_or_finish_exec(j, logs)
    } else if !j.force && is_papermc_engine(j.server_type.as_str()) {
        j.stage = UpdateStage::CheckingBuild;
        (j, UpdateAction { logs, op: UpdateOp::CheckLatestBuild })
    } else {
        let latest = if !j.force && is_loader_engine(j.server_type.as_str()) {
            clone_opt(&j.loader_version)
        } else {
            None
        };
        decide_reinstall_exec(j, latest, logs)
    }
}

fn after_stop_exec(j: UpdateJob) -> (r: (UpdateJob, UpdateAction))
    ensures
        r.0@ == after_stop(j@).0,
        r.1@ == after_stop(j@).1,
{
    let mut j = j;
    if j.update_mods {
        j.stage = UpdateStage::PreparingPack;
        (j, UpdateAction { logs: no_logs(), op: UpdateOp::PreparePack })
    } else {
        engine_phase_exec(j, no_logs())
    }
}

fn fail_exec(j: UpdateJob, message: String, restart: bool) -> (r: (UpdateJob, UpdateAction))
    ensures
        r.0@ == fail(j@, message@, restart).0,
        r.1@ == fail(j@, message@, restart).1,
{
    let mut j = j;
    j.stage = UpdateStage::Done;
    (j, UpdateAction { logs: no_logs(), op: UpdateOp::Fail { message, restart } })
}

fn missing_loader_exec(j: UpdateJob, logs: Vec<String>, name: &str) -> (r: (UpdateJob, UpdateAction))
    ensures
        r.0@ == missing_loader(j@, str_views(logs@), name@).0,
        r.1@ == missing_loader(j@, str_views(logs@), name@).1,
{
    let mut j = j;
    let restart = j.was_running;
    j.stage = UpdateStage::Done;
    let message = text3("Falta 'loader_version' para actualizar ", name, ".");
    (j, UpdateAction { logs, op: UpdateOp::Fail { message, restart } })
}

fn install_phase_exec(j: UpdateJob, logs: Vec<String>) -> (r: (UpdateJob, UpdateAction))
    ensures
        r.0@ == install_phase(j@, str_views(logs@)).0,
        r.1@ == install_phase(j@, str_views(logs@)).1,
{
    let mut j = j;
    if is_papermc_engine(j.server_type.as_str()) {
        j.stage = UpdateStage::Installing;
        return (j, UpdateAction { logs, op: UpdateOp::InstallPaper });
    }
    if str_is(j.server_type.as_str(), "fabric") {
        let l = match &j.loader_version {
            None => {
                return missing_loader_exec(j, logs, "Fabric");
            },
            Some(l) => l.clone(),
        };
        j.engine_detail = Some(text5("Fabric ", l.as_str(), " (MC ", j.mc_version.as_str(), ")"));
        j.new_build = Some(l.clone());
        j.stage = UpdateStage::Installing;
        return (j, UpdateAction { logs, op: UpdateOp::InstallFabric { loader: l } });
    }
    if str_is(j.server_type.as_str(), "neoforge") {
        let l = match &j.loader_version {
            None => {
                return missing_loader_exec(j, logs, "NeoForge");
            },
            Some(l) => l.clone(),
        };
        j.engine_detail = Some(
            text5("NeoForge ", l.as_str(), " (MC ", j.mc_version.as_str(), ")"),
        );
        j.new_build = Some(l.clone());
        j.stage = UpdateStage::Installing;
        let url = neoforge_url(l.as_str());
        let installer_name = text3("neoforge-", l.as_str(), "-installer.jar");
        return (j, UpdateAction { logs, op: UpdateOp::InstallModLoader { url, installer_name } });
    }
    if str_is(j.server_type.as_str(), "forge") {
        let l = match &j.loader_version {
            None => {
                return missing_loader_exec(j, logs, "Forge");
            },
            Some(l) => l.clone(),
        };
        j.engine_detail = Some(text5("Forge ", l.as_str(), " (MC ", j.mc_version.as_str(), ")"));
        j.new_build = Some(l.clone());
        j.stage = UpdateStage::Installing;
        let url = forge_url(l.as_str());
        let installer_name = text3("forge-", l.as_str(), "-installer.jar");
        return (j, UpdateAction { logs, op: UpdateOp::InstallModLoader { url, installer_name } });
    }
    let restart = j.was_running;
    let message = text3("Motor '", j.server_type.as_str(), "' no soporta actualización automática.");
    j.stage = UpdateStage::Done;
    (j, UpdateAction { logs, op: UpdateOp::Fail { message, restart } })
}

fn recreate_exec(j: UpdateJob, logs: Vec<String>) -> (r: (UpdateJob, UpdateAction))
    ensures
        r.0@ == recreate(j@, str_views(logs@)).0,
        r.1@ == recreate(j@, str_views(logs@)).1,
{
    let mut j = j;
    let image = String::from_str(java_image_for(j.server_type.as_str(), j.mc_version.as_str()));
    j.stage = UpdateStage::Recreating;
    (j, UpdateAction { logs, op: UpdateOp::RecreateContainer { image } })
}

fn after_build_saved_exec(j: UpdateJob, logs: Vec<String>) -> (r: (UpdateJob, UpdateAction))
    ensures
        r.0@ == after_build_saved(j@, str_views(logs@)).0,
        r.1@ == after_build_saved(j@, str_views(logs@)).1,
{
    let mut j = j;
    if str_is(j.server_type.as_str(), "velocity") {
        let value = j.mc_version.clone();
        j.stage = UpdateStage::SavingVersion;
        (
            j,
            UpdateAction {
                logs,
                op: UpdateOp::SaveSetting { key: String::from_str("MC_VERSION"), value },
            },
        )
    } else {
        recreate_exec(j, logs)
    }
}

fn after_install_exec(j: UpdateJob, logs: Vec<String>) -> (r: (UpdateJob, UpdateAction))
    ensures
        r.0@ == after_install(j@, str_views(logs@)).0,
        r.1@ == after_install(j@, str_views(logs@)).1,
{
    let mut j = j;
    let mut logs = logs;
    match &j.engine_detail {
        Some(d) => {
            let line = text2("✔ Motor instalado: ", d.as_str());
            push_log(&mut logs, line);
        },
        None => {},
    }
    match clone_opt(&j.new_build) {
        Some(b) => {
            j.stage = UpdateStage::SavingBuild;
            (
                j,
                UpdateAction {
                    logs,
                    op: UpdateOp::SaveSetting { key: String::from_str("ENGINE_BUILD"), value: b },
                },
            )
        },
        None => after_build_saved_exec(j, logs),
    }
}

fn warn_on_exec(r: &Result<(), String>, prefix: &str) -> (v: Vec<String>)
    ensures
        str_views(v@) == warn_on(
            match r {
                Ok(()) => Ok(()),
                Err(e) => Err(e@),
            },
            prefix@,
        ),
{
    match r {
        Ok(()) => no_logs(),
        Err(e) => one_log(text2(prefix, e.as_str())),
    }
}

fn step_checking_velocity(job: UpdateJob, event: UpdateEvent) -> (r: (UpdateJob, UpdateAction))
    requires
        job.stage == UpdateStage::CheckingVelocity,
    ensures
        r.0@ == update_next(job@, event@).0,
        r.1@ == update_next(job@, event@).1,
{
    let mut j = job;
    match event {
        UpdateEvent::LatestVelocity(Ok(l)) => {
            let logs = if !str_is(l.as_str(), j.mc_version.as_str()) {
                one_log(
                    text5(
                        "🔎 Velocity: hay una versión más nueva disponible (",
                        l.as_str(),
                        "), actualizando desde ",
                        j.mc_version.as_str(),
                        ".",
                    ),
                )
            } else {
                no_logs()
            };
            j.mc_version = l;
            j.stage = UpdateStage::CheckingRunning;
            (j, UpdateAction { logs, op: UpdateOp::CheckRunning })
        },
        UpdateEvent::LatestVelocity(Err(m)) => {
            let logs = one_log(
                text5(
                    "⚠️ No pude chequear la última versión de Velocity (",
                    m.as_str(),
                    "), sigo con la configurada (",
                    j.mc_version.as_str(),
                    ").",
                ),
            );
            j.stage = UpdateStage::CheckingRunning;
            (j, UpdateAction { logs, op: UpdateOp::CheckRunning })
        },
        _ => (j, UpdateAction { logs: no_logs(), op: UpdateOp::Nothing }),
    }
}

fn step_checking_running(job: UpdateJob, event: UpdateEvent) -> (r: (UpdateJob, UpdateAction))
    requires
        job.stage == UpdateStage::CheckingRunning,
    ensures
        r.0@ == update_next(job@, event@).0,
        r.1@ == update_next(job@, event@).1,
{
    let mut j = job;
    match event {
        UpdateEvent::Running(b) => {
            if b {
                j.stage = UpdateStage::Stopping;
                j.was_running = true;
                let logs = one_log(
                    String::from_str("⏸️ Deteniendo el servidor para actualizar..."),
                );
                (j, UpdateAction { logs, op: UpdateOp::StopContainer })
            } else {
                j.was_running = false;
                after_stop_exec(j)
            }
        },
        _ => (j, UpdateAction { logs: no_logs(), op: UpdateOp::Nothing }),
    }
}

fn step_stopping(job: UpdateJob, event: UpdateEvent) -> (r: (UpdateJob, UpdateAction))
    requires
        job.stage == UpdateStage::Stopping,
    ensures
        r.0@ == update_next(job@, event@).0,
        r.1@ == update_next(job@, event@).1,
{
    let mut j = job;
    match event {
        UpdateEvent::Finished(Ok(())) => after_stop_exec(j),
        UpdateEvent::Finished(Err(m)) => {
            let message = text2(
                "No pude detener el contenedor, aborto la actualización: ",
                m.as_str(),
            );
            fail_exec(j, message, false)
        },
        _ => (j, UpdateAction { logs: no_logs(), op: UpdateOp::Nothing }),
    }
}

fn step_preparing_pack(job: UpdateJob, event: UpdateEvent) -> (r: (UpdateJob, UpdateAction))
    requires
        job.stage == UpdateStage::PreparingPack,
    ensures
        r.0@ == update_next(job@, event@).0,
        r.1@ == update_next(job@, event@).1,
{
    let mut j = job;
    match event {
        UpdateEvent::Finished(Ok(())) => {
            j.stage = UpdateStage::UpdatingMods;
            let logs = one_log(
                String::from_str("> Buscando actualizaciones de mods/plugins..."),
            );
            (j, UpdateAction { logs, op: UpdateOp::UpdateMods })
        },
        UpdateEvent::Finished(Err(m)) => {
            let restart = j.was_running;
            j.stage = UpdateStage::Done;
            let logs = one_log(text2("❌ ", m.as_str()));
            (j, UpdateAction { logs, op: UpdateOp::Abort { restart } })
        },
        _ => (j, UpdateAction { logs: no_logs(), op: UpdateOp::Nothing }),
    }
}

fn step_updating_mods(job: UpdateJob, event: UpdateEvent) -> (r: (UpdateJob, UpdateAction))
    requires
        job.stage == UpdateStage::UpdatingMods,
    ensures
        r.0@ == update_next(job@, event@).0,
        r.1@ == update_next(job@, event@).1,
{
    let mut j = job;
    match event {
        UpdateEvent::PackwizOutput(o) => {
            let logs = match o {
                Some((out, err)) => {
                    let t = update_output_text(out.as_str(), err.as_str());
                    let tc = crate::text::chars_of(t.as_str());
                    if tc.len() > 0 {
                        one_log(t)
                    } else {
                        no_logs()
                    }
                },
                None => no_logs(),
            };
            j.stage = UpdateStage::Refreshing;
            (j, UpdateAction { logs, op: UpdateOp::RefreshPack })
        },
        _ => (j, UpdateAction { logs: no_logs(), op: UpdateOp::Nothing }),
    }
}

fn step_refreshing(job: UpdateJob, event: UpdateEvent) -> (r: (UpdateJob, UpdateAction))
    requires
        job.stage == UpdateStage::Refreshing,
    ensures
        r.0@ == update_next(job@, event@).0,
        r.1@ == update_next(job@, event@).1,
{
    let mut j = job;
    match event {
        UpdateEvent::Finished(_) => {
            j.stage = UpdateStage::SyncingMods;
            let logs = one_log(
                String::from_str("> Sincronizando mods/plugins actualizados al servidor..."),
            );
            (j, UpdateAction { logs, op: UpdateOp::SyncMods })
        },
        _ => (j, UpdateAction { logs: no_logs(), op: UpdateOp::Nothing }),
    }
}

fn step_syncing_mods(job: UpdateJob, event: UpdateEvent) -> (r: (UpdateJob, UpdateAction))
    requires
        job.stage == UpdateStage::SyncingMods,
    ensures
        r.0@ == update_next(job@, event@).0,
        r.1@ == update_next(job@, event@).1,
{
    let mut j = job;
    match event {
        UpdateEvent::Finished(r) => {
            let logs = warn_on_exec(&r, "❌ Error al sincronizar mods/plugins: ");
            engine_phase_exec(j, logs)
        },
        _ => (j, UpdateAction { logs: no_logs(), op: UpdateOp::Nothing }),
    }
}

fn step_checking_build(job: UpdateJob, event: UpdateEvent) -> (r: (UpdateJob, UpdateAction))
    requires
        job.stage == UpdateStage::CheckingBuild,
    ensures
        r.0@ == update_next(job@, event@).0,
        r.1@ == update_next(job@, event@).1,
{
    let mut j = job;
    match event {
        UpdateEvent::LatestBuild(b) => decide_reinstall_exec(j, b, no_logs()),
        _ => (j, UpdateAction { logs: no_logs(), op: UpdateOp::Nothing }),
    }
}

fn step_cleaning(job: UpdateJob, event: UpdateEvent) -> (r: (UpdateJob, UpdateAction))
    requires
        job.stage == UpdateStage::Cleaning,
    ensures
        r.0@ == update_next(job@, event@).0,
        r.1@ == update_next(job@, event@).1,
{
    let mut j = job;
    match event {
        UpdateEvent::Finished(r) => {
            let logs = warn_on_exec(&r, "⚠️ No pude limpiar del todo los archivos viejos: ");
            install_phase_exec(j, logs)
        },
        _ => (j, UpdateAction { logs: no_logs(), op: UpdateOp::Nothing }),
    }
}

fn step_installing(job: UpdateJob, event: UpdateEvent) -> (r: (UpdateJob, UpdateAction))
    requires
        job.stage == UpdateStage::Installing,
    ensures
        r.0@ == update_next(job@, event@).0,
        r.1@ == update_next(job@, event@).1,
{
    let mut j = job;
    match event {
        UpdateEvent::Installed(Err(m)) => {
            let restart = j.was_running;
            let message = text2("Error al reinstalar el motor: ", m.as_str());
            fail_exec(j, message, restart)
        },
        UpdateEvent::Installed(Ok(x)) => {
            match x {
                Some((jar, build)) => {
                    if is_papermc_engine(j.server_type.as_str()) {
                        j.engine_detail = Some(
                            text4(j.mc_version.as_str(), " (", jar.as_str(), ")"),
                        );
                        j.new_build = Some(build);
                    }
                },
                None => {},
            }
            after_install_exec(j, no_logs())
        },
        _ => (j, UpdateAction { logs: no_logs(), op: UpdateOp::Nothing }),
    }
}

fn step_saving_build(job: UpdateJob, event: UpdateEvent) -> (r: (UpdateJob, UpdateAction))
    requires
        job.stage == UpdateStage::SavingBuild,
    ensures
        r.0@ == update_next(job@, event@).0,
        r.1@ == update_next(job@, event@).1,
{
    let mut j = job;
    match event {
        UpdateEvent::Finished(r) => {
            let logs = warn_on_exec(&r, "⚠️ No pude guardar el build instalado: ");
            after_build_saved_exec(j, logs)
        },
        _ => (j, UpdateAction { logs: no_logs(), op: UpdateOp::Nothing }),
    }
}

fn step_saving_version(job: UpdateJob, event: UpdateEvent) -> (r: (UpdateJob, UpdateAction))
    requires
        job.stage == UpdateStage::SavingVersion,
    ensures
        r.0@ == update_next(job@, event@).0,
        r.1@ == update_next(job@, event@).1,
{
    let mut j = job;
    match event {
        UpdateEvent::Finished(r) => {
            let logs = warn_on_exec(&r, "⚠️ No pude guardar la nueva versión de Velocity: ");
            recreate_exec(j, logs)
        },
        _ => (j, UpdateAction { logs: no_logs(), op: UpdateOp::Nothing }),
    }
}

fn step_recreating(job: UpdateJob, event: UpdateEvent) -> (r: (UpdateJob, UpdateAction))
    requires
        job.stage == UpdateStage::Recreating,
    ensures
        r.0@ == update_next(job@, event@).0,
        r.1@ == update_next(job@, event@).1,
{
    let mut j = job;
    match event {
        UpdateEvent::Finished(Ok(())) => restart_or_finish_exec(j, no_logs()),
        UpdateEvent::Finished(Err(m)) => {
            let restart = j.was_running;
            let message = text2("No pude recrear el contenedor: ", m.as_str());
            fail_exec(j, message, restart)
        },
        _ => (j, UpdateAction { logs: no_logs(), op: UpdateOp::Nothing }),
    }
}

fn step_restarting(job: UpdateJob, event: UpdateEvent) -> (r: (UpdateJob, UpdateAction))
    requires
        job.stage == UpdateStage::Restarting,
    ensures
        r.0@ == update_next(job@, event@).0,
        r.1@ == update_next(job@, event@).1,
{
    let mut j = job;
    match event {
        UpdateEvent::Finished(Ok(())) => {
            let message = summary_of(&j);
            j.stage = UpdateStage::Done;
            (j, UpdateAction { logs: no_logs(), op: UpdateOp::Finish { message } })
        },
        UpdateEvent::Finished(Err(m)) => {
            let message = text2("No pude reiniciar el contenedor: ", m.as_str());
            fail_exec(j, message, false)
        },
        _ => (j, UpdateAction { logs: no_logs(), op: UpdateOp::Nothing }),
    }
}

/// Takes one step of an update: from the job and what its last operation gave
/// back, the job and what to log and do next.
pub fn update_step(job: UpdateJob, event: UpdateEvent) -> (r: (UpdateJob, UpdateAction))
    ensures
        r.0@ == update_next(job@, event@).0,
        r.1@ == update_next(job@, event@).1,
{
    let j = job;
    match j.stage {
        UpdateStage::CheckingVelocity => step_checking_velocity(j, event),
        UpdateStage::CheckingRunning => step_checking_running(j, event),
        UpdateStage::Stopping => step_stopping(j, event),
        UpdateStage::PreparingPack => step_preparing_pack(j, event),
        UpdateStage::UpdatingMods => step_updating_mods(j, event),
        UpdateStage::Refreshing => step_refreshing(j, event),
        UpdateStage::SyncingMods => step_syncing_mods(j, event),
        UpdateStage::CheckingBuild => step_checking_build(j, event),
        UpdateStage::Cleaning => step_cleaning(j, event),
        UpdateStage::Installing => step_installing(j, event),
        UpdateStage::SavingBuild => step_saving_build(j, event),
        UpdateStage::SavingVersion => step_saving_version(j, event),
        UpdateStage::Recreating => step_recreating(j, event),
        UpdateStage::Restarting => step_restarting(j, event),
        UpdateStage::Done => (j, UpdateAction { logs: no_logs(), op: UpdateOp::Nothing }),
    }
}

fn setting_or(env: &str, key: &str, default: &str) -> (r: String)
    ensures
        r@ == match env_value(env@, key@) {
            Some(v) => v,
            None => default@,
        },
{
    match read_env_value(env, key) {
        Some(v) => v,
        None => String::from_str(default),
    }
}

/// Starts an update of a server, from its `server.env` (`None` where it could
/// not be read) and what was asked: the job (none where the update is refused)
/// and the first action.
pub fn begin_update(
    env: &Option<String>,
    loader_version: Option<String>,
    update_mods: bool,
    update_engine: bool,
    force: bool,
) -> (r: (Option<UpdateJob>, UpdateAction))
    ensures
        ({
            let s = update_start(opt_view(*env), opt_view(loader_version), update_mods, update_engine, force);
            &&& r.1@ == s.1
            &&& match r.0 {
                Some(j) => s.0 == Some(j@),
                None => s.0 is None,
            }
        }),
{
    if !update_mods && !update_engine {
        let message = String::from_str("No se seleccionó nada para actualizar.");
        return (None, UpdateAction { logs: no_logs(), op: UpdateOp::Fail { message, restart: false } });
    }
    let e = match env {
        None => {
            let message = String::from_str("No encontré la configuración del servidor.");
            return (
                None,
                UpdateAction { logs: no_logs(), op: UpdateOp::Fail { message, restart: false } },
            );
        },
        Some(e) => e.as_str(),
    };
    let mut j = UpdateJob {
        stage: UpdateStage::CheckingRunning,
        server_type: setting_or(e, "SERVER_TYPE", "paper"),
        mc_version: setting_or(e, "MC_VERSION", "latest"),
        min_ram: setting_or(e, "MIN_RAM", "1G"),
        max_ram: setting_or(e, "MAX_RAM", "4G"),
        loader_version,
        update_mods,
        update_engine,
        force,
        current_build: read_env_value(e, "ENGINE_BUILD"),
        was_running: false,
        engine_detail: None,
        new_build: None,
    };
    if str_is(j.server_type.as_str(), "velocity") && update_engine {
        j.stage = UpdateStage::CheckingVelocity;
        (Some(j), UpdateAction { logs: no_logs(), op: UpdateOp::CheckLatestVelocity })
    } else {
        (Some(j), UpdateAction { logs: no_logs(), op: UpdateOp::CheckRunning })
    }
}

// ---------------------------------------------------------------------------
// Updating a server: what every step keeps
// ---------------------------------------------------------------------------

/// The stages at which the container may have been stopped by the update and
/// not yet started again.
pub open spec fn container_held(stage: UpdateStage) -> bool {
    !(stage is CheckingVelocity || stage is CheckingRunning || stage is Stopping
        || stage is Restarting || stage is Done)
}

/// An operation that ends the update.
pub open spec fn ends_update(op: OpView) -> bool {
    op is Fail || op is Abort || op is Finish
}

/// Once the update knows whether the container ran, no step forgets it.
pub proof fn law_update_keeps_was_running(j: JobView, e: EventView)
    requires
        !(j.stage is CheckingRunning),
    ensures
        update_next(j, e).0.was_running == j.was_running,
{
}

/// Where the update stopped a running container, every failure after that
/// starts it again.
pub proof fn law_update_failure_restarts(j: JobView, e: EventView)
    requires
        j.was_running,
        container_held(j.stage),
    ensures
        match update_next(j, e).1.op {
            OpView::Fail { restart, .. } => restart,
            OpView::Abort { restart } => restart,
            _ => true,
        },
{
}

/// Where the container ran, the update reports success only once it has
/// started it again.
pub proof fn law_update_success_after_restart(j: JobView, e: EventView)
    requires
        j.was_running,
        !(j.stage is CheckingRunning),
    ensures
        update_next(j, e).1.op is Finish ==> j.stage is Restarting && (e matches EventView::Finished(
            r,
        ) && r is Ok),
{
}

/// A step ends the update exactly when it moves it to `Done`; an update that
/// is over stays over and does nothing.
pub proof fn law_update_ends_at_done(j: JobView, e: EventView)
    ensures
        !(j.stage is Done) ==> (ends_update(update_next(j, e).1.op) <==> update_next(
            j,
            e,
        ).0.stage is Done),
        j.stage is Done ==> update_next(j, e).0 == j && update_next(j, e).1.op is Nothing,
{
}

/// Once PaperMC's latest build is known, the engine is reinstalled unless that
/// build is known and is the installed one; where it is, the engine is kept and
/// the update goes on to restart the server or to finish.
pub proof fn law_update_reinstalls_unless_current(j: JobView, latest: Option<Seq<char>>)
    requires
        j.stage is CheckingBuild,
    ensures
        ({
            let r = update_next(j, EventView::LatestBuild(latest));
            &&& (r.1.op is CleanEngine) <==> !(latest is Some && j.current_build == latest)
            &&& (r.1.op is CleanEngine) ==> r.0.stage is Cleaning
            &&& !(r.1.op is CleanEngine) ==> (r.1.op is StartContainer || r.1.op is Finish)
        }),
{
}

// ---------------------------------------------------------------------------
// Updating a PaperMC engine to its latest stable build
// ---------------------------------------------------------------------------

/// What an automatic engine update is waiting for.
#[derive(Clone, Copy, Debug, PartialEq, Eq, Structural)]
pub enum AutoStage {
    CheckingRunning,
    Stopping,
    Installing,
    Recreating,
    Restarting,
    Done,
}

/// An automatic engine update under way.
pub struct AutoUpdate {
    pub stage: AutoStage,
    pub settings: EngineSettings,
    pub was_running: bool,
}

/// An automatic engine update, its texts as sequences.
#[verifier::ext_equal]
pub struct AutoView {
    pub stage: AutoStage,
    pub server_type: Seq<char>,
    pub mc_version: Seq<char>,
    pub min_ram: Seq<char>,
    pub max_ram: Seq<char>,
    pub was_running: bool,
}

impl View for AutoUpdate {
    type V = AutoView;

    open spec fn view(&self) -> AutoView {
        AutoView {
            stage: self.stage,
            server_type: self.settings.server_type@,
            mc_version: self.settings.mc_version@,
            min_ram: self.settings.min_ram@,
            max_ram: self.settings.max_ram@,
            was_running: self.was_running,
        }
    }
}

/// The next outside operation of an automatic engine update.
pub enum AutoOp {
    /// Ask whether the container runs.
    CheckRunning,
    /// Stop the container.
    StopContainer,
    /// Report progress, then install the latest PaperMC build (the job's type,
    /// version and memory).
    InstallPaper { step: String, percentage: u8 },
    /// Recreate the container with an image.
    RecreateContainer { image: String },
    /// Start the container.
    StartContainer,
    /// Report an error and stop.
    Fail { message: String },
    /// Report success and stop.
    Finish { message: String },
    /// Nothing.
    Nothing,
}

/// An operation of an automatic update, its texts as sequences.
pub enum AutoOpView {
    CheckRunning,
    StopContainer,
    InstallPaper { step: Seq<char>, percentage: u8 },
    RecreateContainer { image: Seq<char> },
    StartContainer,
    Fail { message: Seq<char> },
    Finish { message: Seq<char> },
    Nothing,
}

/// What to do next: a line to log first, then the operation.
pub struct AutoAction {
    pub log: Option<String>,
    pub op: AutoOp,
}

/// An action of an automatic update, its texts as sequences.
#[verifier::ext_equal]
pub struct AutoActionView {
    pub log: Option<Seq<char>>,
    pub op: AutoOpView,
}

impl View for AutoAction {
    type V = AutoActionView;

    open spec fn view(&self) -> AutoActionView {
        AutoActionView {
            log: opt_view(self.log),
            op: match &self.op {
                AutoOp::CheckRunning => AutoOpView::CheckRunning,
                AutoOp::StopContainer => AutoOpView::StopContainer,
                AutoOp::InstallPaper { step, percentage } => AutoOpView::InstallPaper {
                    step: step@,
                    percentage: *percentage,
                },
                AutoOp::RecreateContainer { image } => AutoOpView::RecreateContainer {
                    image: image@,
                },
                AutoOp::StartContainer => AutoOpView::StartContainer,
                AutoOp::Fail { message } => AutoOpView::Fail { message: message@ },
                AutoOp::Finish { message } => AutoOpView::Finish { message: message@ },
                AutoOp::Nothing => AutoOpView::Nothing,
            },
        }
    }
}

/// An action of an automatic update.
pub open spec fn auto_act(log: Option<Seq<char>>, op: AutoOpView) -> AutoActionView {
    AutoActionView { log, op }
}

/// The installation step, with its progress report.
pub open spec fn auto_install(a: AutoView) -> (AutoView, AutoActionView) {
    (
        AutoView { stage: AutoStage::Installing, ..a },
        auto_act(
            None,
            AutoOpView::InstallPaper { step: "Buscando actualizaciones estables..."@, percentage: 20 },
        ),
    )
}

/// End with an error.
pub open spec fn auto_fail(a: AutoView, message: Seq<char>) -> (AutoView, AutoActionView) {
    (AutoView { stage: AutoStage::Done, ..a }, auto_act(None, AutoOpView::Fail { message }))
}

/// The step of an automatic engine update. An event that the stage does not
/// wait for changes nothing.
pub open spec fn auto_next(a: AutoView, e: EventView) -> (AutoView, AutoActionView) {
    match (a.stage, e) {
        (AutoStage::CheckingRunning, EventView::Running(b)) => if b {
            (
                AutoView { stage: AutoStage::Stopping, was_running: true, ..a },
                auto_act(
                    Some("⏸️ Deteniendo el servidor para actualizar el motor..."@),
                    AutoOpView::StopContainer,
                ),
            )
        } else {
            auto_install(AutoView { was_running: false, ..a })
        },
        (AutoStage::Stopping, EventView::Finished(Ok(()))) => auto_install(a),
        (AutoStage::Stopping, EventView::Finished(Err(m))) => auto_fail(
            a,
            "No pude detener el contenedor, aborto la actualización: "@ + m,
        ),
        (AutoStage::Installing, EventView::Installed(Ok(_))) => (
            AutoView { stage: AutoStage::Recreating, ..a },
            auto_act(
                None,
                AutoOpView::RecreateContainer { image: java_image(a.server_type, a.mc_version) },
            ),
        ),
        (AutoStage::Installing, EventView::Installed(Err(m))) => auto_fail(
            a,
            "Error al actualizar: "@ + m,
        ),
        (AutoStage::Recreating, EventView::Finished(Ok(()))) => if a.was_running {
            (
                AutoView { stage: AutoStage::Restarting, ..a },
                auto_act(Some("▶️ Reiniciando el servidor..."@), AutoOpView::StartContainer),
            )
        } else {
            (
                AutoView { stage: AutoStage::Done, ..a },
                auto_act(
                    None,
                    AutoOpView::Finish { message: "Motor actualizado. Se usará al iniciar."@ },
                ),
            )
        },
        (AutoStage::Recreating, EventView::Finished(Err(m))) => auto_fail(
            a,
            "No pude recrear el contenedor: "@ + m,
        ),
        (AutoStage::Restarting, EventView::Finished(Ok(()))) => (
            AutoView { stage: AutoStage::Done, ..a },
            auto_act(
                None,
                AutoOpView::Finish { message: "Motor actualizado y servidor reiniciado."@ },
            ),
        ),
        (AutoStage::Restarting, EventView::Finished(Err(m))) => auto_fail(
            a,
            "No pude reiniciar el contenedor: "@ + m,
        ),
        _ => (a, auto_act(None, AutoOpView::Nothing)),
    }
}

/// How an automatic engine update starts: refused where the settings could not
/// be read or the engine is not PaperMC's; else whether the container runs.
pub open spec fn auto_start_matches(env: Option<Seq<char>>, r: (Option<AutoUpdate>, AutoAction)) -> bool {
    match env {
        None => r.0 is None && r.1@ == auto_act(
            None,
            AutoOpView::Fail { message: "Instancia no válida para auto-actualización"@ },
        ),
        Some(e) => match r.0 {
            Some(a) => engine_settings_match(a.settings, e) && papermc_engine(
                a.settings.server_type@,
            ) && a.stage == AutoStage::CheckingRunning && !a.was_running && r.1@ == auto_act(
                None,
                AutoOpView::CheckRunning,
            ),
            None => !papermc_engine(last_second_piece(lines(e), "SERVER_TYPE="@, "paper"@))
                && r.1@ == auto_act(
                None,
                AutoOpView::Fail {
                    message: "Auto-actualización solo disponible en motores Vanilla/PaperMC"@,
                },
            ),
        },
    }
}

/// Starts an automatic update of a server's engine to its latest stable build,
/// from its `server.env` (`None` where it could not be read).
pub fn begin_auto_update(env: &Option<String>) -> (r: (Option<AutoUpdate>, AutoAction))
    ensures
        auto_start_matches(opt_view(*env), r),
{
    match env {
        None => (
            None,
            AutoAction {
                log: None,
                op: AutoOp::Fail {
                    message: String::from_str("Instancia no válida para auto-actualización"),
                },
            },
        ),
        Some(e) => {
            let settings = engine_settings(e.as_str());
            if !is_papermc_engine(settings.server_type.as_str()) {
                let r = (
                    None,
                    AutoAction {
                        log: None,
                        op: AutoOp::Fail {
                            message: String::from_str(
                                "Auto-actualización solo disponible en motores Vanilla/PaperMC",
                            ),
                        },
                    },
                );
                assert(engine_settings_match(settings, e@));
                return r;
            }
            (
                Some(AutoUpdate { stage: AutoStage::CheckingRunning, settings, was_running: false }),
                AutoAction { log: None, op: AutoOp::CheckRunning },
            )
        },
    }
}

/// Takes one step of an automatic engine update.
pub fn auto_update_step(job: AutoUpdate, event: UpdateEvent) -> (r: (AutoUpdate, AutoAction))
    ensures
        r.0@ == auto_next(job@, event@).0,
        r.1@ == auto_next(job@, event@).1,
{
    let mut a = job;
    let nothing = AutoAction { log: None, op: AutoOp::Nothing };
    match a.stage {
        AutoStage::CheckingRunning => match event {
            UpdateEvent::Running(b) => {
                if b {
                    a.stage = AutoStage::Stopping;
                    a.was_running = true;
                    let log = Some(
                        String::from_str("⏸️ Deteniendo el servidor para actualizar el motor..."),
                    );
                    (a, AutoAction { log, op: AutoOp::StopContainer })
                } else {
                    a.was_running = false;
                    a.stage = AutoStage::Installing;
                    let step = String::from_str("Buscando actualizaciones estables...");
                    (a, AutoAction { log: None, op: AutoOp::InstallPaper { step, percentage: 20 } })
                }
            },
            _ => (a, nothing),
        },
        AutoStage::Stopping => match event {
            UpdateEvent::Finished(Ok(())) => {
                a.stage = AutoStage::Installing;
                let step = String::from_str("Buscando actualizaciones estables...");
                (a, AutoAction { log: None, op: AutoOp::InstallPaper { step, percentage: 20 } })
            },
            UpdateEvent::Finished(Err(m)) => {
                a.stage = AutoStage::Done;
                let message = text2(
                    "No pude detener el contenedor, aborto la actualización: ",
                    m.as_str(),
                );
                (a, AutoAction { log: None, op: AutoOp::Fail { message } })
            },
            _ => (a, nothing),
        },
        AutoStage::Installing => match event {
            UpdateEvent::Installed(Ok(_)) => {
                let image = String::from_str(
                    java_image_for(a.settings.server_type.as_str(), a.settings.mc_version.as_str()),
                );
                a.stage = AutoStage::Recreating;
                (a, AutoAction { log: None, op: AutoOp::RecreateContainer { image } })
            },
            UpdateEvent::Installed(Err(m)) => {
                a.stage = AutoStage::Done;
                let message = text2("Error al actualizar: ", m.as_str());
                (a, AutoAction { log: None, op: AutoOp::Fail { message } })
            },
            _ => (a, nothing),
        },
        AutoStage::Recreating => match event {
            UpdateEvent::Finished(Ok(())) => {
                if a.was_running {
                    a.stage = AutoStage::Restarting;
                    let log = Some(String::from_str("▶️ Reiniciando el servidor..."));
                    (a, AutoAction { log, op: AutoOp::StartContainer })
                } else {
                    a.stage = AutoStage::Done;
                    let message = String::from_str("Motor actualizado. Se usará al iniciar.");
                    (a, AutoAction { log: None, op: AutoOp::Finish { message } })
                }
            },
            UpdateEvent::Finished(Err(m)) => {
                a.stage = AutoStage::Done;
                let message = text2("No pude recrear el contenedor: ", m.as_str());
                (a, AutoAction { log: None, op: AutoOp::Fail { message } })
            },
            _ => (a, nothing),
        },
        AutoStage::Restarting => match event {
            UpdateEvent::Finished(Ok(())) => {
                a.stage = AutoStage::Done;
                let message = String::from_str("Motor actualizado y servidor reiniciado.");
                (a, AutoAction { log: None, op: AutoOp::Finish { message } })
            },
            UpdateEvent::Finished(Err(m)) => {
                a.stage = AutoStage::Done;
                let message = text2("No pude reiniciar el contenedor: ", m.as_str());
                (a, AutoAction { log: None, op: AutoOp::Fail { message } })
            },
            _ => (a, nothing),
        },
        AutoStage::Done => (a, nothing),
    }
}

/// Where the container ran, an automatic update reports success only once it
/// has started it again.
pub proof fn law_auto_update_success_after_restart(a: AutoView, e: EventView)
    requires
        a.was_running,
        !(a.stage is CheckingRunning),
    ensures
        auto_next(a, e).1.op is Finish ==> a.stage is Restarting,
{
}

// ---------------------------------------------------------------------------
// Creating a server
// ---------------------------------------------------------------------------

/// What the creation of a server is waiting for.
#[derive(Clone, Copy, Debug, PartialEq, Eq, Structural)]
pub enum CreateStage {
    MakingDirectory,
    WritingFiles,
    Installing,
    SyncingPlugins,
    CreatingContainer,
    Done,
}

/// The creation of a server under way.
pub struct CreateJob {
    pub stage: CreateStage,
    pub id: String,
    pub config: ServerConfigParams,
}

/// The next outside operation of a creation.
pub enum CreateOp {
    /// Make the server's folder.
    MakeDirectory,
    /// Report progress, then write `server.env` and `server.properties` (a
    /// failure of either counts) and `eula.txt` (whose failure does not).
    WriteFiles { step: String, percentage: u8, env: String, properties: String, eula: String },
    /// Install the engine.
    Install { install: EngineInstall },
    /// Download the plugins that the server lists.
    SyncPlugins,
    /// Report progress, then create the container with an image.
    CreateContainer { step: String, percentage: u8, image: String },
    /// Remove the server's folder where `remove_directory`, report an error,
    /// and stop.
    Fail { message: String, remove_directory: bool },
    /// Report success and stop.
    Finish { message: String },
    /// Nothing.
    Nothing,
}

/// `c` at another stage.
pub open spec fn create_at(c: CreateJob, stage: CreateStage) -> CreateJob {
    CreateJob { stage, ..c }
}

/// The creation of the container, with its progress report.
pub open spec fn create_container_matches(c: CreateJob, r: (CreateJob, CreateOp)) -> bool {
    r.0 == create_at(c, CreateStage::CreatingContainer) && (r.1 matches CreateOp::CreateContainer {
        step,
        percentage,
        image,
    } && step@ == "Creando contenedor"@ && percentage == 90 && image@ == java_image(
        c.config.server_type@,
        c.config.mc_version@,
    ))
}

/// An error, with the folder removed or not.
pub open spec fn create_fail_matches(c: CreateJob, r: (CreateJob, CreateOp), message: Seq<char>, remove: bool) -> bool {
    r.0 == create_at(c, CreateStage::Done) && (r.1 matches CreateOp::Fail {
        message: m,
        remove_directory,
    } && m@ == message && remove_directory == remove)
}

/// The step of a creation: from the job and what its last operation gave back,
/// the job and the next operation. An event that the stage does not wait for
/// changes nothing.
pub open spec fn create_step_matches(c: CreateJob, e: EventView, r: (CreateJob, CreateOp)) -> bool {
    match (c.stage, e) {
        (CreateStage::MakingDirectory, EventView::Finished(Err(m))) => create_fail_matches(
            c,
            r,
            "No se pudo crear directorio: "@ + m,
            false,
        ),
        (CreateStage::MakingDirectory, EventView::Finished(Ok(()))) => r.0 == create_at(
            c,
            CreateStage::WritingFiles,
        ) && (r.1 matches CreateOp::WriteFiles { step, percentage, env, properties, eula } && step@
            == "Iniciando instalación"@ && percentage == 5 && env@ == server_env_text(c.config)
            && properties@ == server_properties_text(c.config) && eula@ == "eula=true\n"@),
        (CreateStage::WritingFiles, EventView::Finished(Err(_))) => create_fail_matches(
            c,
            r,
            "Error al escribir configuraciones locales."@,
            false,
        ),
        (CreateStage::WritingFiles, EventView::Finished(Ok(()))) => r.0 == create_at(
            c,
            CreateStage::Installing,
        ) && (r.1 matches CreateOp::Install { install } && creation_install_matches(
            c.config.server_type@,
            opt_view(c.config.loader_version),
            install,
        )),
        (CreateStage::Installing, EventView::Installed(Err(m))) => create_fail_matches(
            c,
            r,
            "Error de instalación: "@ + m
                + ". Se limpiaron los archivos parciales, podés reintentar con el mismo nombre."@,
            true,
        ),
        (CreateStage::Installing, EventView::Installed(Ok(_))) => if direct_plugins(
            c.config.server_type@,
        ) {
            r.0 == create_at(c, CreateStage::SyncingPlugins) && r.1 is SyncPlugins
        } else {
            create_container_matches(c, r)
        },
        (CreateStage::SyncingPlugins, EventView::Finished(_)) => create_container_matches(c, r),
        (CreateStage::CreatingContainer, EventView::Finished(Ok(()))) => r.0 == create_at(
            c,
            CreateStage::Done,
        ) && (r.1 matches CreateOp::Finish { message } && message@ == "Instalado exitosamente"@),
        (CreateStage::CreatingContainer, EventView::Finished(Err(m))) => create_fail_matches(
            c,
            r,
            "Error: "@ + m,
            false,
        ),
        _ => r.0 == c && r.1 is Nothing,
    }
}

fn create_container_exec(c: CreateJob) -> (r: (CreateJob, CreateOp))
    ensures
        create_container_matches(c, r),
{
    let mut c = c;
    let image = String::from_str(
        java_image_for(c.config.server_type.as_str(), c.config.mc_version.as_str()),
    );
    c.stage = CreateStage::CreatingContainer;
    let step = String::from_str("Creando contenedor");
    (c, CreateOp::CreateContainer { step, percentage: 90, image })
}

fn create_fail_exec(c: CreateJob, message: String, remove_directory: bool) -> (r: (CreateJob, CreateOp))
    ensures
        create_fail_matches(c, r, message@, remove_directory),
{
    let mut c = c;
    c.stage = CreateStage::Done;
    (c, CreateOp::Fail { message, remove_directory })
}

/// Starts the creation of a server: refused where its id or its port is
/// taken (see `creation_refusal`), else its folder is made first.
pub fn begin_create(id: String, config: ServerConfigParams, id_exists: bool, port_taken: bool) -> (r: (
    Option<CreateJob>,
    CreateOp,
))
    ensures
        match creation_refusal_text(id@, config.port, id_exists, port_taken) {
            Some(m) => r.0 is None && (r.1 matches CreateOp::Fail { message, remove_directory }
                && message@ == m && !remove_directory),
            None => r.0 == Some(CreateJob { stage: CreateStage::MakingDirectory, id, config })
                && r.1 is MakeDirectory,
        },
{
    match creation_refusal(id.as_str(), config.port, id_exists, port_taken) {
        Some(message) => (None, CreateOp::Fail { message, remove_directory: false }),
        None => (
            Some(CreateJob { stage: CreateStage::MakingDirectory, id, config }),
            CreateOp::MakeDirectory,
        ),
    }
}

/// Takes one step of the creation of a server.
pub fn create_step(job: CreateJob, event: UpdateEvent) -> (r: (CreateJob, CreateOp))
    ensures
        create_step_matches(job, event@, r),
{
    let mut c = job;
    match c.stage {
        CreateStage::MakingDirectory => match event {
            UpdateEvent::Finished(Ok(())) => {
                let env = crate::config::server_env_content(&c.config);
                let properties = crate::config::server_properties_content(&c.config);
                c.stage = CreateStage::WritingFiles;
                let step = String::from_str("Iniciando instalación");
                let eula = String::from_str("eula=true\n");
                (c, CreateOp::WriteFiles { step, percentage: 5, env, properties, eula })
            },
            UpdateEvent::Finished(Err(m)) => {
                let message = text2("No se pudo crear directorio: ", m.as_str());
                create_fail_exec(c, message, false)
            },
            _ => (c, CreateOp::Nothing),
        },
        CreateStage::WritingFiles => match event {
            UpdateEvent::Finished(Ok(())) => {
                let install = creation_install(
                    c.config.server_type.as_str(),
                    &c.config.loader_version,
                );
                c.stage = CreateStage::Installing;
                (c, CreateOp::Install { install })
            },
            UpdateEvent::Finished(Err(_)) => {
                let message = String::from_str("Error al escribir configuraciones locales.");
                create_fail_exec(c, message, false)
            },
            _ => (c, CreateOp::Nothing),
        },
        CreateStage::Installing => match event {
            UpdateEvent::Installed(Ok(_)) => {
                if uses_direct_plugins(c.config.server_type.as_str()) {
                    c.stage = CreateStage::SyncingPlugins;
                    (c, CreateOp::SyncPlugins)
                } else {
                    create_container_exec(c)
                }
            },
            UpdateEvent::Installed(Err(m)) => {
                let message = text3(
                    "Error de instalación: ",
                    m.as_str(),
                    ". Se limpiaron los archivos parciales, podés reintentar con el mismo nombre.",
                );
                create_fail_exec(c, message, true)
            },
            _ => (c, CreateOp::Nothing),
        },
        CreateStage::SyncingPlugins => match event {
            UpdateEvent::Finished(_) => create_container_exec(c),
            _ => (c, CreateOp::Nothing),
        },
        CreateStage::CreatingContainer => match event {
            UpdateEvent::Finished(Ok(())) => {
                c.stage = CreateStage::Done;
                let message = String::from_str("Instalado exitosamente");
                (c, CreateOp::Finish { message })
            },
            UpdateEvent::Finished(Err(m)) => {
                let message = text2("Error: ", m.as_str());
                create_fail_exec(c, message, false)
            },
            _ => (c, CreateOp::Nothing),
        },
        CreateStage::Done => (c, CreateOp::Nothing),
    }
}

/// A creation that fails once the engine's installation began removes the
/// server's folder; no other failure does.
pub proof fn law_create_removes_only_failed_installs(c: CreateJob, e: EventView, r: (CreateJob, CreateOp))
    requires
        create_step_matches(c, e, r),
    ensures
        (r.1 matches CreateOp::Fail { remove_directory, .. } && remove_directory) ==> c.stage
            is Installing,
{
}

} // verus!
