use lumineria::deps::{
    active_web_server, answered_yes, detect_package_manager, elevation_command, install_args,
    missing_packages, needs_index_update, package_list, required_commands,
    unknown_package_manager_message, web_root_owner_args, PackageManager,
};
use lumineria::engine::{
    bootstrap_args, chosen_build_id, fabric_install_args, fabric_installer_url, fabric_installer_version,
    find_launch_jar, install_log_lines, mod_installer_args, paper_builds_url, paper_version_error,
    pick_paper_build, update_output_text, FabricInstaller, PaperBuild,
};
use lumineria::podman::{
    action_args, console_args, console_line, console_refusal, create_args, inspect_running_args,
    log_tail, logs_args,
};
use lumineria::protocol::FileNode;
use lumineria::rcon::{check_auth_response, decode_payload, encode_packet, packet_length, RconSession};
use lumineria::tree::{child_path, is_hidden_entry, sort_file_nodes, visible_root_entries};

#[test]
fn rcon_packets() {
    let p = encode_packet(1, 3, "pw");
    assert_eq!(p, vec![12, 0, 0, 0, 1, 0, 0, 0, 3, 0, 0, 0, b'p', b'w', 0, 0]);
    assert_eq!(packet_length(&p[0..4]), Ok(12));
    assert_eq!(decode_payload(&p[4..]), (1, 3, "pw".to_string()));
    assert_eq!(
        packet_length(&[9, 0, 0, 0]),
        Err("paquete RCON con tamaño inválido: 9".to_string())
    );
    assert!(packet_length(&[0, 0, 16, 0]).is_ok());
    assert!(packet_length(&[1, 0, 16, 0]).is_err());
    let lossy = decode_payload(&[5, 0, 0, 0, 0, 0, 0, 0, b'a', 0xff, 0, 0]);
    assert_eq!(lossy.2, "a\u{fffd}");
}

#[test]
fn rcon_sessions_number_requests() {
    let mut s = RconSession::new();
    let (id1, bytes) = s.next_packet(2, "list");
    let (id2, _) = s.next_packet(2, "list");
    assert_eq!((id1, id2), (1, 2));
    assert_eq!(decode_payload(&bytes[4..]), (1, 2, "list".to_string()));
    assert!(check_auth_response(1).is_ok());
    assert_eq!(
        check_auth_response(-1),
        Err("autenticación RCON rechazada (¿contraseña incorrecta?)".to_string())
    );
}

#[test]
fn podman_command_lines() {
    assert_eq!(action_args("stop", "lobby"), vec!["stop", "-t", "60", "lobby"]);
    assert_eq!(action_args("start", "lobby"), vec!["start", "lobby"]);
    assert_eq!(
        create_args("lobby", "/srv/lobby", "img"),
        vec!["create", "--name", "lobby", "--network", "host", "--userns=keep-id", "-i", "-v", "/srv/lobby:/data:Z", "--restart", "unless-stopped", "img", "sh", "/data/start.sh"]
    );
    assert_eq!(log_tail(true), "100");
    assert_eq!(log_tail(false), "0");
    assert_eq!(logs_args("lobby", "100"), vec!["logs", "-f", "--tail", "100", "lobby"]);
    assert_eq!(console_args("lobby"), vec!["exec", "-i", "lobby", "sh", "-c", "cat > /proc/1/fd/0"]);
    assert_eq!(console_line("say hi"), "say hi\n");
    assert_eq!(inspect_running_args("lobby"), vec!["inspect", "-f", "{{.State.Running}}", "lobby"]);
    assert_eq!(console_refusal(true), None);
    assert_eq!(
        console_refusal(false),
        Some("El servidor está detenido, iniciálo antes de mandar comandos.".to_string())
    );
}

#[test]
fn system_packages() {
    let req = required_commands();
    assert_eq!(req.len(), 8);
    assert_eq!(req[6], ("ssh".to_string(), "openssh-client".to_string()));
    let checks = vec![("podman".to_string(), true), ("jq".to_string(), false), ("golang".to_string(), false)];
    let missing = missing_packages(&checks);
    assert_eq!(missing, vec!["jq", "golang"]);
    assert_eq!(package_list(&missing), "jq, golang");
    assert_eq!(package_list(&vec![]), "");
    assert_eq!(elevation_command(true), "sudo");
    assert_eq!(elevation_command(false), "pkexec");
    assert!(answered_yes(" Y\n"));
    assert!(!answered_yes("yes"));
    assert_eq!(detect_package_manager(true, true), Some(PackageManager::Apt));
    assert_eq!(detect_package_manager(false, true), Some(PackageManager::Dnf));
    assert_eq!(detect_package_manager(false, false), None);
    assert_eq!(
        unknown_package_manager_message("NAME=\"Arch\"\nID=arch\n"),
        "No reconozco un gestor de paquetes soportado (apt/dnf) en esta distro.\nNAME=\"Arch\""
    );
    assert_eq!(
        install_args(PackageManager::Dnf, &vec!["nginx".to_string()]),
        vec!["dnf", "install", "-y", "nginx"]
    );
    assert!(needs_index_update(PackageManager::Apt));
    assert!(!needs_index_update(PackageManager::Dnf));
    assert_eq!(active_web_server(true, true), Some("apache2"));
    assert_eq!(active_web_server(false, true), Some("nginx"));
    assert_eq!(active_web_server(false, false), None);
    assert_eq!(web_root_owner_args("ana"), vec!["chown", "-R", "ana:ana", "/var/www/html"]);
}

fn node(name: &str, is_dir: bool) -> FileNode {
    FileNode { name: name.to_string(), is_dir, path: name.to_string(), children: None }
}

#[test]
fn file_trees() {
    assert!(is_hidden_entry(".git"));
    assert!(is_hidden_entry("packwiz.exe"));
    assert!(!is_hidden_entry("mods"));
    assert_eq!(child_path("", "mods"), "mods");
    assert_eq!(child_path("mods", "a.toml"), "mods/a.toml");
    let sorted = sort_file_nodes(vec![node("b.txt", false), node("Zeta", true), node("A.txt", false), node("alpha", true)]);
    let names: Vec<&str> = sorted.iter().map(|n| n.name.as_str()).collect();
    assert_eq!(names, vec!["alpha", "Zeta", "A.txt", "b.txt"]);
    let shown = visible_root_entries(vec![node("packwiz", true), node("cache", false), node("world", true), node("libraries", true)]);
    let names: Vec<&str> = shown.iter().map(|n| n.name.as_str()).collect();
    assert_eq!(names, vec!["cache", "world"]);
}

fn pb(channel: Option<&str>, jar: Option<&str>, url: Option<&str>) -> PaperBuild {
    PaperBuild {
        id: jar.map(|j| format!("id-{j}")),
        channel: channel.map(|s| s.to_string()),
        jar_name: jar.map(|s| s.to_string()),
        url: url.map(|s| s.to_string()),
    }
}

#[test]
fn paper_builds() {
    let builds = Some(vec![
        pb(Some("ALPHA"), Some("a.jar"), Some("ua")),
        pb(Some("STABLE"), Some("s.jar"), Some("us")),
        pb(Some("RECOMMENDED"), Some("r.jar"), Some("ur")),
    ]);
    assert_eq!(pick_paper_build(&builds), Ok(("s.jar".to_string(), "us".to_string())));
    assert_eq!(chosen_build_id(&builds), Some("id-s.jar".to_string()));
    assert_eq!(chosen_build_id(&Some(vec![pb(Some("ALPHA"), None, Some("ua"))])), None);
    assert_eq!(chosen_build_id(&None), None);
    let only_alpha = Some(vec![pb(Some("ALPHA"), None, Some("ua"))]);
    assert_eq!(pick_paper_build(&only_alpha), Ok(("server.jar".to_string(), "ua".to_string())));
    let no_url = Some(vec![pb(Some("STABLE"), Some("s.jar"), None)]);
    assert_eq!(pick_paper_build(&no_url), Err("No se encontró la url de descarga".to_string()));
    assert_eq!(pick_paper_build(&Some(vec![])), Err("No hay compilaciones disponibles".to_string()));
    assert_eq!(pick_paper_build(&None), Err("Respuesta inválida de builds".to_string()));
    assert_eq!(
        paper_builds_url("paper", "1.21.1"),
        "https://fill.papermc.io/v3/projects/paper/versions/1.21.1/builds"
    );
    assert_eq!(paper_version_error("9.9", "paper"), "La versión 9.9 no es válida para paper");
}

#[test]
fn fabric_installers() {
    let list = Some(vec![
        FabricInstaller { stable: Some(false), version: Some("1.1.0".to_string()) },
        FabricInstaller { stable: Some(true), version: Some("1.0.3".to_string()) },
        FabricInstaller { stable: Some(true), version: Some("1.0.2".to_string()) },
    ]);
    assert_eq!(fabric_installer_version(&list), "1.0.3");
    let no_version = Some(vec![FabricInstaller { stable: Some(true), version: None }]);
    assert_eq!(fabric_installer_version(&no_version), "1.0.1");
    assert_eq!(fabric_installer_version(&None), "1.0.1");
    assert_eq!(
        fabric_installer_url("1.0.3"),
        "https://maven.fabricmc.net/net/fabricmc/fabric-installer/1.0.3/fabric-installer-1.0.3.jar"
    );
}

#[test]
fn launch_jars() {
    let names = vec![
        "forge-1.20.1-installer.jar".to_string(),
        "server-a.jar".to_string(),
        "run.sh".to_string(),
        "server-b.jar".to_string(),
        "NeoForge-INSTALLER.jar".to_string(),
    ];
    assert_eq!(find_launch_jar(&names), Ok("server-b.jar".to_string()));
    assert_eq!(
        find_launch_jar(&vec!["x-installer.jar".to_string()]),
        Err("No encontré un jar ejecutable tras la instalación".to_string())
    );
}

#[test]
fn installer_command_lines() {
    let prefix = ["run", "--rm", "--network", "host", "--userns=keep-id", "-v", "/srv/a:/data:Z", "-w", "/data", "docker.io/library/eclipse-temurin:21-jre"];
    let f = fabric_install_args("/srv/a", "1.21.1", "0.16.0");
    assert_eq!(&f[..10], &prefix);
    assert_eq!(&f[10..], &["java", "-jar", "fabric-installer.jar", "server", "-mcVersion", "1.21.1", "-loader", "0.16.0", "-downloadMinecraft"]);
    let m = mod_installer_args("/srv/a", "forge-1-installer.jar");
    assert_eq!(&m[..10], &prefix);
    assert_eq!(&m[10..], &["java", "-jar", "forge-1-installer.jar", "--installServer"]);
    let b = bootstrap_args("/srv/a", "/home/u/.cache/lumineria/packwiz-installer-bootstrap.jar", "packwiz/pack.toml");
    assert_eq!(
        b,
        vec!["run", "--rm", "--network", "host", "--userns=keep-id", "-v", "/srv/a:/data:Z", "-v",
            "/home/u/.cache/lumineria/packwiz-installer-bootstrap.jar:/tmp/bootstrap.jar:z,ro", "-w", "/data",
            "docker.io/library/eclipse-temurin:21-jre", "java", "-jar", "/tmp/bootstrap.jar", "-g", "-s", "server",
            "packwiz/pack.toml"]
    );
}

#[test]
fn installer_output() {
    assert_eq!(install_log_lines(" a \n\n", "b\n  \n c"), vec!["a", "b", "c"]);
    assert_eq!(update_output_text(" a \n\n", "b\n"), " a \nb");
    assert_eq!(update_output_text("", " "), "");
}

#[test]
fn nodes_of_the_same_key_keep_their_order() {
    let mut upper = node("Readme", false);
    upper.path = "first".to_string();
    let mut lower = node("readme", false);
    lower.path = "second".to_string();
    let sorted = sort_file_nodes(vec![upper, node("mods", true), lower]);
    assert_eq!(sorted[0].name, "mods");
    assert_eq!(sorted[1].path, "first");
    assert_eq!(sorted[2].path, "second");
}
