use lumineria::config::{server_env_content, server_properties_content};
use lumineria::lifecycle::{
    auto_update_step, begin_auto_update, begin_create, begin_update, create_step,
    creation_install, creation_refusal, update_step, AutoOp, CreateOp, EngineInstall,
    UpdateEvent, UpdateJob, UpdateOp, UpdateStage,
};
use lumineria::protocol::ServerConfigParams;

fn step(job: UpdateJob, event: UpdateEvent, logs: &[&str]) -> (UpdateJob, UpdateOp) {
    let (job, action) = update_step(job, event);
    let got: Vec<&str> = action.logs.iter().map(|s| s.as_str()).collect();
    assert_eq!(got, logs);
    (job, action.op)
}

#[test]
fn update_refuses_nothing_selected() {
    let (job, action) = begin_update(&Some(String::new()), None, false, false, false);
    assert!(job.is_none());
    assert!(matches!(action.op, UpdateOp::Fail { ref message, restart: false } if message == "No se seleccionó nada para actualizar."));
}

#[test]
fn update_refuses_unreadable_settings() {
    let (job, action) = begin_update(&None, None, true, false, false);
    assert!(job.is_none());
    assert!(matches!(action.op, UpdateOp::Fail { ref message, restart: false } if message == "No encontré la configuración del servidor."));
}

#[test]
fn update_skips_an_engine_already_up_to_date_and_restarts() {
    let env = "SERVER_TYPE=\"paper\"\nMC_VERSION=\"1.21.1\"\nENGINE_BUILD=\"100\"\n".to_string();
    let (job, action) = begin_update(&Some(env), None, false, true, false);
    let job = job.unwrap();
    assert!(matches!(action.op, UpdateOp::CheckRunning));
    assert_eq!(job.current_build, Some("100".to_string()));
    let (job, op) = step(job, UpdateEvent::Running(true), &["⏸️ Deteniendo el servidor para actualizar..."]);
    assert!(matches!(op, UpdateOp::StopContainer));
    let (job, op) = step(job, UpdateEvent::Finished(Ok(())), &[]);
    assert!(matches!(op, UpdateOp::CheckLatestBuild));
    let (job, op) = step(
        job,
        UpdateEvent::LatestBuild(Some("100".to_string())),
        &[
            "✅ El motor ya está en la última compilación (100). No hace falta reinstalar.",
            "▶️ Reiniciando el servidor...",
        ],
    );
    assert!(matches!(op, UpdateOp::StartContainer));
    let (job, op) = step(job, UpdateEvent::Finished(Ok(())), &[]);
    assert!(matches!(op, UpdateOp::Finish { ref message } if message == "Motor actualizado: 1.21.1 (ya estaba al día)"));
    assert_eq!(job.stage, UpdateStage::Done);
    let (_, op) = step(job, UpdateEvent::Finished(Ok(())), &[]);
    assert!(matches!(op, UpdateOp::Nothing));
}

#[test]
fn update_failure_after_stopping_restarts_the_server() {
    let env = "SERVER_TYPE=\"fabric\"\nMC_VERSION=\"1.21.1\"\n".to_string();
    let (job, _) = begin_update(&Some(env), None, false, true, false);
    let (job, _) = step(job.unwrap(), UpdateEvent::Running(true), &["⏸️ Deteniendo el servidor para actualizar..."]);
    let (job, op) = step(job, UpdateEvent::Finished(Ok(())), &["🧹 Limpiando binarios del motor anterior..."]);
    assert!(matches!(op, UpdateOp::CleanEngine));
    let (job, op) = step(
        job,
        UpdateEvent::Finished(Err("x".to_string())),
        &["⚠️ No pude limpiar del todo los archivos viejos: x"],
    );
    assert!(matches!(op, UpdateOp::Fail { ref message, restart: true } if message == "Falta 'loader_version' para actualizar Fabric."));
    assert_eq!(job.stage, UpdateStage::Done);
}

#[test]
fn update_of_mods_and_neoforge_engine() {
    let env = "SERVER_TYPE=\"neoforge\"\nMC_VERSION=\"1.21.1\"\nENGINE_BUILD=\"21.1.70\"\n".to_string();
    let (job, _) = begin_update(&Some(env), Some("21.1.77".to_string()), true, true, false);
    let (job, op) = step(job.unwrap(), UpdateEvent::Running(false), &[]);
    assert!(matches!(op, UpdateOp::PreparePack));
    let (job, op) = step(job, UpdateEvent::Finished(Ok(())), &["> Buscando actualizaciones de mods/plugins..."]);
    assert!(matches!(op, UpdateOp::UpdateMods));
    let out = Some(("Updated sodium\n\n".to_string(), "  \nwarn: x\n".to_string()));
    let (job, op) = step(job, UpdateEvent::PackwizOutput(out), &["Updated sodium\nwarn: x"]);
    assert!(matches!(op, UpdateOp::RefreshPack));
    let (job, op) = step(job, UpdateEvent::Finished(Err("ignored".to_string())), &["> Sincronizando mods/plugins actualizados al servidor..."]);
    assert!(matches!(op, UpdateOp::SyncMods));
    let (job, op) = step(
        job,
        UpdateEvent::Finished(Ok(())),
        &["🧹 Limpiando binarios del motor anterior..."],
    );
    assert!(matches!(op, UpdateOp::CleanEngine));
    let (job, op) = step(job, UpdateEvent::Finished(Ok(())), &[]);
    match op {
        UpdateOp::InstallModLoader { url, installer_name } => {
            assert_eq!(url, "https://maven.neoforged.net/releases/net/neoforged/neoforge/21.1.77/neoforge-21.1.77-installer.jar");
            assert_eq!(installer_name, "neoforge-21.1.77-installer.jar");
        }
        _ => panic!("expected the installer"),
    }
    let (job, op) = step(job, UpdateEvent::Installed(Ok(None)), &["✔ Motor instalado: NeoForge 21.1.77 (MC 1.21.1)"]);
    assert!(matches!(op, UpdateOp::SaveSetting { ref key, ref value } if key == "ENGINE_BUILD" && value == "21.1.77"));
    let (job, op) = step(job, UpdateEvent::Finished(Ok(())), &[]);
    assert!(matches!(op, UpdateOp::RecreateContainer { ref image } if image == "docker.io/library/eclipse-temurin:21-jre"));
    let (_, op) = step(job, UpdateEvent::Finished(Ok(())), &[]);
    assert!(matches!(op, UpdateOp::Finish { ref message } if message == "Servidor actualizado (mods/plugins + motor: NeoForge 21.1.77 (MC 1.21.1))"));
}

#[test]
fn update_of_velocity_follows_the_latest_version() {
    let env = "SERVER_TYPE=\"velocity\"\nMC_VERSION=\"3.3.0\"\n".to_string();
    let (job, action) = begin_update(&Some(env), None, false, true, true);
    assert!(matches!(action.op, UpdateOp::CheckLatestVelocity));
    let (job, op) = step(
        job.unwrap(),
        UpdateEvent::LatestVelocity(Ok("3.4.0".to_string())),
        &["🔎 Velocity: hay una versión más nueva disponible (3.4.0), actualizando desde 3.3.0."],
    );
    assert!(matches!(op, UpdateOp::CheckRunning));
    assert_eq!(job.mc_version, "3.4.0");
    let (job, op) = step(job, UpdateEvent::Running(false), &["🧹 Limpiando binarios del motor anterior..."]);
    assert!(matches!(op, UpdateOp::CleanEngine));
    let (job, op) = step(job, UpdateEvent::Finished(Ok(())), &[]);
    assert!(matches!(op, UpdateOp::InstallPaper));
    let (job, op) = step(
        job,
        UpdateEvent::Installed(Ok(Some(("velocity-3.4.0-500.jar".to_string(), "500".to_string())))),
        &["✔ Motor instalado: 3.4.0 (velocity-3.4.0-500.jar)"],
    );
    assert!(matches!(op, UpdateOp::SaveSetting { ref value, .. } if value == "500"));
    let (job, op) = step(job, UpdateEvent::Finished(Err("disk".to_string())), &["⚠️ No pude guardar el build instalado: disk"]);
    assert!(matches!(op, UpdateOp::SaveSetting { ref key, ref value } if key == "MC_VERSION" && value == "3.4.0"));
    let (job, op) = step(job, UpdateEvent::Finished(Ok(())), &[]);
    assert!(matches!(op, UpdateOp::RecreateContainer { ref image } if image == "docker.io/library/eclipse-temurin:25-jre"));
    let (_, op) = step(job, UpdateEvent::Finished(Err("busy".to_string())), &[]);
    assert!(matches!(op, UpdateOp::Fail { ref message, restart: false } if message == "No pude recrear el contenedor: busy"));
}

fn config(server_type: &str, loader: Option<&str>) -> ServerConfigParams {
    ServerConfigParams {
        display_name: "Srv".to_string(),
        server_type: server_type.to_string(),
        mc_version: "1.21.1".to_string(),
        loader_version: loader.map(|l| l.to_string()),
        port: 25565,
        min_ram: "1G".to_string(),
        max_ram: "2G".to_string(),
        online_mode: false,
        enforce_secure_profile: true,
    }
}

#[test]
fn creation_refusals() {
    assert_eq!(
        creation_refusal("srv", 25565, true, true),
        Some("❌ Ya existe un servidor con el id 'srv'. Elige otro nombre.".to_string())
    );
    assert_eq!(
        creation_refusal("srv", 25565, false, true),
        Some("❌ El puerto 25565 ya está en uso por otro servidor (esté corriendo o no). Elige otro.".to_string())
    );
    assert_eq!(creation_refusal("srv", 25565, false, false), None);
    let (job, op) = begin_create("srv".to_string(), config("paper", None), true, false);
    assert!(job.is_none());
    assert!(matches!(op, CreateOp::Fail { remove_directory: false, .. }));
}

#[test]
fn creation_installs() {
    assert!(matches!(creation_install("folia", &None), EngineInstall::Paper));
    assert!(matches!(creation_install("fabric", &None), EngineInstall::Fabric { ref loader } if loader.is_empty()));
    match creation_install("forge", &Some("47.2.0".to_string())) {
        EngineInstall::ModLoader { url, installer_name } => {
            assert_eq!(url, "https://maven.minecraftforge.net/net/minecraftforge/forge/47.2.0/forge-47.2.0-installer.jar");
            assert_eq!(installer_name, "forge-47.2.0-installer.jar");
        }
        _ => panic!("expected the installer"),
    }
    assert!(matches!(creation_install("vanilla", &None), EngineInstall::Nothing));
}

#[test]
fn creation_of_a_paper_server() {
    let cfg = config("paper", None);
    let (job, op) = begin_create("srv".to_string(), cfg.clone(), false, false);
    assert!(matches!(op, CreateOp::MakeDirectory));
    let (job, op) = create_step(job.unwrap(), UpdateEvent::Finished(Ok(())));
    match op {
        CreateOp::WriteFiles { step, percentage, env, properties, eula } => {
            assert_eq!(step, "Iniciando instalación");
            assert_eq!(percentage, 5);
            assert_eq!(env, server_env_content(&cfg));
            assert_eq!(properties, server_properties_content(&cfg));
            assert_eq!(eula, "eula=true\n");
        }
        _ => panic!("expected the files"),
    }
    let (job, op) = create_step(job, UpdateEvent::Finished(Ok(())));
    assert!(matches!(op, CreateOp::Install { install: EngineInstall::Paper }));
    let (job, op) = create_step(job, UpdateEvent::Installed(Ok(None)));
    assert!(matches!(op, CreateOp::SyncPlugins));
    let (job, op) = create_step(job, UpdateEvent::Finished(Err("offline".to_string())));
    assert!(matches!(op, CreateOp::CreateContainer { ref step, percentage: 90, ref image } if step == "Creando contenedor" && image == "docker.io/library/eclipse-temurin:21-jre"));
    let (_, op) = create_step(job, UpdateEvent::Finished(Ok(())));
    assert!(matches!(op, CreateOp::Finish { ref message } if message == "Instalado exitosamente"));
}

#[test]
fn creation_removes_the_folder_of_a_failed_install() {
    let (job, _) = begin_create("srv".to_string(), config("fabric", Some("0.16.0")), false, false);
    let (job, _) = create_step(job.unwrap(), UpdateEvent::Finished(Ok(())));
    let (job, op) = create_step(job, UpdateEvent::Finished(Ok(())));
    assert!(matches!(op, CreateOp::Install { install: EngineInstall::Fabric { ref loader } } if loader == "0.16.0"));
    let (_, op) = create_step(job, UpdateEvent::Installed(Err("HTTP 404".to_string())));
    assert!(matches!(op, CreateOp::Fail { ref message, remove_directory: true } if message == "Error de instalación: HTTP 404. Se limpiaron los archivos parciales, podés reintentar con el mismo nombre."));
}

#[test]
fn automatic_update_of_a_stopped_paper_server() {
    let (job, action) = begin_auto_update(&Some("SERVER_TYPE=paper\nMC_VERSION=\"1.20.4\"\n".to_string()));
    assert!(matches!(action.op, AutoOp::CheckRunning));
    let (job, action) = auto_update_step(job.unwrap(), UpdateEvent::Running(false));
    assert!(matches!(action.op, AutoOp::InstallPaper { ref step, percentage: 20 } if step == "Buscando actualizaciones estables..."));
    let (job, action) = auto_update_step(job, UpdateEvent::Installed(Ok(None)));
    assert!(matches!(action.op, AutoOp::RecreateContainer { ref image } if image == "docker.io/library/eclipse-temurin:17-jre"));
    let (_, action) = auto_update_step(job, UpdateEvent::Finished(Ok(())));
    assert!(matches!(action.op, AutoOp::Finish { ref message } if message == "Motor actualizado. Se usará al iniciar."));
}

#[test]
fn automatic_update_refusals() {
    let (job, action) = begin_auto_update(&Some("SERVER_TYPE=fabric\n".to_string()));
    assert!(job.is_none());
    assert!(matches!(action.op, AutoOp::Fail { ref message } if message == "Auto-actualización solo disponible en motores Vanilla/PaperMC"));
    let (job, action) = begin_auto_update(&None);
    assert!(job.is_none());
    assert!(matches!(action.op, AutoOp::Fail { ref message } if message == "Instancia no válida para auto-actualización"));
}

#[test]
fn automatic_update_of_a_running_server_restarts_it() {
    let (job, _) = begin_auto_update(&Some("MC_VERSION=1.21.1\n".to_string()));
    let (job, action) = auto_update_step(job.unwrap(), UpdateEvent::Running(true));
    assert_eq!(action.log, Some("⏸️ Deteniendo el servidor para actualizar el motor...".to_string()));
    let (job, _) = auto_update_step(job, UpdateEvent::Finished(Ok(())));
    let (job, _) = auto_update_step(job, UpdateEvent::Installed(Ok(None)));
    let (job, action) = auto_update_step(job, UpdateEvent::Finished(Ok(())));
    assert_eq!(action.log, Some("▶️ Reiniciando el servidor...".to_string()));
    assert!(matches!(action.op, AutoOp::StartContainer));
    let (_, action) = auto_update_step(job, UpdateEvent::Finished(Ok(())));
    assert!(matches!(action.op, AutoOp::Finish { ref message } if message == "Motor actualizado y servidor reiniciado."));
}
