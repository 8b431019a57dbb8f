use lumineria::client::{
    latest_listed_version, project_versions,
    after_failed_connect, has_good_build, local_agent_args, local_agent_port, local_agent_url,
    missing_root_message, not_connected_error, offered_versions, paper_project_url,
    stored_pid, LastConnection, PublishConfig,
};
use lumineria::engine::PaperBuild;
use lumineria::protocol::ServerEvent;
use lumineria::settings::{
    action_event, expand_tilde, generate_token, go_bin_dir, hex_encode, normalize_base_url,
    hint_saved_message, packwiz_candidates, plugin_mc_hint, publish_config_ack, publish_config_of,
    publish_target_from, resolve_packwiz_bin, url_host, velocity_settings, PublishTarget,
};

#[test]
fn proxy_settings() {
    assert_eq!(
        velocity_settings("SERVER_PORT=\"25600\"\nSERVER_MOTD=\"Hola\"\n"),
        (25600, Some("Hola".to_string()))
    );
    assert_eq!(velocity_settings("SERVER_PORT=abc\nSERVER_MOTD=\"\"\n"), (25577, None));
    assert_eq!(velocity_settings(""), (25577, None));
}

#[test]
fn plugin_version_hints() {
    assert_eq!(
        plugin_mc_hint("MC_VERSION=\"1.21.1\"\nVELOCITY_PLUGIN_MC_VERSION=\"1.20.4\"\n"),
        Some("1.20.4".to_string())
    );
    assert_eq!(
        plugin_mc_hint("VELOCITY_PLUGIN_MC_VERSION=\"\"\nMC_VERSION=\"1.21.1\"\n"),
        Some("1.21.1".to_string())
    );
    assert_eq!(plugin_mc_hint("MC_VERSION=\n"), None);
}

#[test]
fn base_urls() {
    assert_eq!(url_host(" 192.168.0.10:8080/ "), "192.168.0.10");
    assert_eq!(normalize_base_url(" https://mods.example.org/ ", false), "https://mods.example.org");
    assert_eq!(normalize_base_url("localhost", false), "http://localhost");
    assert_eq!(normalize_base_url("192.168.0.10:8080", true), "http://192.168.0.10:8080");
    assert_eq!(normalize_base_url("mods.example.org//", false), "https://mods.example.org");
}

#[test]
fn paths_with_tilde() {
    assert_eq!(expand_tilde("~/lumineria", Some("/home/u")), "/home/u/lumineria");
    assert_eq!(expand_tilde("~/lumineria", None), "~/lumineria");
    assert_eq!(expand_tilde("/srv/x", Some("/home/u")), "/srv/x");
}

#[test]
fn publish_targets() {
    match publish_target_from(Some(" vps "), "  ", Some("/home/u")) {
        PublishTarget::Ssh { ssh_host, remote_base, web_root } => {
            assert_eq!(ssh_host, "vps");
            assert_eq!(remote_base, "~/lumineria");
            assert_eq!(web_root, "/var/www/html");
        }
        _ => panic!("expected ssh"),
    }
    let local = publish_target_from(Some("  "), "~/lum", Some("/home/u"));
    match &local {
        PublishTarget::LocalFs { base_path, web_root } => {
            assert_eq!(base_path, "/home/u/lum");
            assert_eq!(web_root, "/var/www/html");
        }
        _ => panic!("expected local"),
    }
    assert_eq!(publish_config_of(&local), (None, "/home/u/lum".to_string()));
    match publish_config_ack("https://x.org") {
        ServerEvent::Ack { ok, message } => {
            assert!(ok);
            assert_eq!(message, Some("✅ Configuración de publicación actualizada. Dominio: https://x.org".to_string()));
        }
        _ => panic!("expected an ack"),
    }
}

#[test]
fn action_answers() {
    assert!(matches!(action_event("lobby", Ok(())), ServerEvent::Ack { ok: true, message: None }));
    match action_event("lobby", Err("falló".to_string())) {
        ServerEvent::Error { message } => assert_eq!(message, "lobby: falló"),
        _ => panic!("expected an error"),
    }
}

#[test]
fn tokens() {
    assert_eq!(hex_encode(&[0u8, 15, 16, 255]), "000f10ff");
    let t = generate_token().expect("the system's random source");
    assert_eq!(t.len(), 48);
    assert!(t.chars().all(|c| c.is_ascii_hexdigit() && !c.is_ascii_uppercase()));
    let u = generate_token().unwrap();
    assert_ne!(t, u);
}

#[test]
fn go_and_packwiz_binaries() {
    assert_eq!(go_bin_dir(Some("/gobin"), Some("/gp"), Some("/home/u")), Ok("/gobin".to_string()));
    assert_eq!(go_bin_dir(None, Some("/gp"), Some("/home/u")), Ok("/gp/bin".to_string()));
    assert_eq!(go_bin_dir(None, None, Some("/home/u")), Ok("/home/u/go/bin".to_string()));
    assert_eq!(go_bin_dir(None, None, None), Err("No se pudo obtener la variable HOME".to_string()));
    let c = packwiz_candidates(&vec!["/usr/bin".to_string(), "/bin/".to_string()], &Some("/home/u/go/bin".to_string()));
    assert_eq!(c, vec!["/usr/bin/packwiz", "/bin/packwiz", "/home/u/go/bin/packwiz"]);
    let found: Vec<(String, bool)> = c.iter().cloned().zip([false, true, true]).collect();
    assert_eq!(resolve_packwiz_bin(&found), "/bin/packwiz");
    let none: Vec<(String, bool)> = c.iter().cloned().map(|p| (p, false)).collect();
    assert_eq!(resolve_packwiz_bin(&none), "packwiz");
}

#[test]
fn client_settings_defaults() {
    let c = PublishConfig::default();
    assert_eq!(c.ssh_host, None);
    assert_eq!(c.remote_base, "~/lumineria");
    assert_eq!(c.domain, "http://localhost");
    let l = LastConnection::default();
    assert_eq!(l.mode, "");
    assert_eq!(l.folder, None);
    assert_eq!(l.url, None);
}

#[test]
fn local_agent() {
    let mut cfg = PublishConfig::default();
    assert_eq!(
        local_agent_args("/srv", &local_agent_port(), "tok", &cfg),
        vec!["serve", "--root", "/srv", "--bind", "127.0.0.1:8756", "--token", "tok", "--vps-remote-base", "~/lumineria", "--domain", "http://localhost"]
    );
    cfg.ssh_host = Some("vps".to_string());
    let args = local_agent_args("/srv", "127.0.0.1:8756", "tok", &cfg);
    assert_eq!(&args[11..], &["--vps-ssh-host".to_string(), "vps".to_string()]);
    assert_eq!(local_agent_url("127.0.0.1:8756", "tok"), "ws://127.0.0.1:8756/ws?token=tok");
    assert_eq!(missing_root_message("/x"), "La carpeta registrada ya no existe: /x");
    assert_eq!(stored_pid(" 1234\n"), Some(1234));
    assert_eq!(stored_pid("+7"), Some(7));
    assert_eq!(stored_pid("abc"), None);
    assert_eq!(stored_pid("4294967296"), None);
}

#[test]
fn connecting() {
    assert_eq!(after_failed_connect(1, "refused"), None);
    assert_eq!(after_failed_connect(14, "refused"), None);
    assert_eq!(
        after_failed_connect(15, "refused"),
        Some("No pude conectar tras varios intentos: refused".to_string())
    );
    assert_eq!(not_connected_error(), "No conectado al agente todavía — llamá a connect_agent primero");
}

fn build(channel: &str) -> PaperBuild {
    PaperBuild { id: None, channel: Some(channel.to_string()), jar_name: None, url: None }
}

#[test]
fn offered_paper_versions() {
    assert_eq!(paper_project_url("paper"), "https://fill.papermc.io/v3/projects/paper");
    assert!(has_good_build(&Some(vec![build("ALPHA"), build("RECOMMENDED")])));
    assert!(!has_good_build(&Some(vec![build("ALPHA")])));
    assert!(!has_good_build(&None));
    let offered = offered_versions(
        &vec!["1.21.4".to_string(), "1.21.5".to_string(), "1.21.6".to_string()],
        &vec![Some(vec![build("STABLE")]), None, Some(vec![build("BETA"), build("STABLE")])],
    );
    assert_eq!(offered, vec!["1.21.4", "1.21.6"]);
}

#[test]
fn listed_versions() {
    let groups = vec![vec!["1.21.4".to_string(), "1.21.3".to_string()], vec![], vec!["1.20.6".to_string()]];
    assert_eq!(project_versions(&groups), vec!["1.21.4", "1.21.3", "1.20.6"]);
    assert_eq!(latest_listed_version(&groups), Some("1.21.4".to_string()));
    assert_eq!(latest_listed_version(&vec![vec![]]), None);
}

#[test]
fn plugin_version_set_then_cleared() {
    let env = "MC_VERSION=\"1.21.1\"\nSERVER_TYPE=\"velocity\"\n";
    let set = lumineria::env::update_env_content(env, "VELOCITY_PLUGIN_MC_VERSION", "1.20.4");
    assert_eq!(plugin_mc_hint(&set), Some("1.20.4".to_string()));
    let cleared = lumineria::env::update_env_content(&set, "VELOCITY_PLUGIN_MC_VERSION", "");
    assert_eq!(plugin_mc_hint(&cleared), Some("1.21.1".to_string()));
    assert_eq!(hint_saved_message(""), "Versión de referencia para Modrinth borrada.");
    assert_eq!(hint_saved_message("1.20.4"), "Versión de referencia para Modrinth guardada: 1.20.4");
}

#[test]
fn normalized_base_urls_stay_normalized() {
    for (raw, ip) in [(" lumineria.net/ ", false), ("10.0.0.2:8080//", true), ("http://localhost/", false)] {
        let once = normalize_base_url(raw, ip);
        assert!(once.starts_with("http://") || once.starts_with("https://"));
        assert!(!once.ends_with('/'));
        assert_eq!(normalize_base_url(&once, false), once);
        assert_eq!(normalize_base_url(&once, true), once);
    }
}
