use lumineria::discovery::{
    build_server_list, container_status_from, delete_outcome, is_port_registered,
    is_running_from, parse_env_text, port_taken_by, sanitize_container_name, CommandOutput,
    FoundServer,
};
use lumineria::naming::{
    direct_plugin_name, display_loader_name, is_client_only_category, is_client_only_file,
    is_old_plugin, java_image_for, loader_installer_url, mod_source_for_query,
    modrinth_loaders_param, plugin_prefix, requirements_file_for, uses_direct_plugins,
    version_id_for,
};
use lumineria::protocol::{PluginSource, ServerStatus};

#[test]
fn loader_names() {
    assert_eq!(display_loader_name("NEOFORGE"), "NeoForge");
    assert_eq!(display_loader_name("fabric"), "Fabric");
    assert_eq!(display_loader_name("PuRpUr"), "Purpur");
    assert_eq!(display_loader_name("ßeta"), "SSeta");
    assert_eq!(display_loader_name(""), "");
}

#[test]
fn loader_urls_and_version_ids() {
    assert_eq!(
        loader_installer_url("NeoForge", "21.1.77"),
        "https://maven.neoforged.net/releases/net/neoforged/neoforge/21.1.77/neoforge-21.1.77-installer.jar"
    );
    assert_eq!(
        loader_installer_url("forge", "1.20.1-47.2.0"),
        "https://maven.minecraftforge.net/net/minecraftforge/forge/1.20.1-47.2.0/forge-1.20.1-47.2.0-installer.jar"
    );
    assert_eq!(loader_installer_url("paper", "130"), "");
    assert_eq!(version_id_for("NeoForge", &Some("21.1.77".to_string())), "neoforge-21.1.77");
    assert_eq!(version_id_for("Paper", &None), "paper-desconocida");
    assert_eq!(version_id_for("fabric", &Some(String::new())), "fabric-desconocida");
}

#[test]
fn java_images_by_version() {
    assert_eq!(java_image_for("velocity", "3.3.0"), "docker.io/library/eclipse-temurin:25-jre");
    assert_eq!(java_image_for("paper", "1.16.5"), "docker.io/library/eclipse-temurin:8-jre");
    assert_eq!(java_image_for("paper", "1.18.2"), "docker.io/library/eclipse-temurin:17-jre");
    assert_eq!(java_image_for("paper", "1.20.4"), "docker.io/library/eclipse-temurin:17-jre");
    assert_eq!(java_image_for("paper", "1.20.5"), "docker.io/library/eclipse-temurin:21-jre");
    assert_eq!(java_image_for("fabric", "1.21"), "docker.io/library/eclipse-temurin:21-jre");
    assert_eq!(java_image_for("paper", "latest"), "docker.io/library/eclipse-temurin:21-jre");
}

#[test]
fn plugin_sources_and_lists() {
    assert!(uses_direct_plugins("PAPER"));
    assert!(uses_direct_plugins("velocity"));
    assert!(!uses_direct_plugins("fabric"));
    assert_eq!(modrinth_loaders_param("Velocity"), "%5B%22velocity%22%5D");
    assert_eq!(modrinth_loaders_param("paper"), "%5B%22paper%22%2C%22folia%22%2C%22spigot%22%5D");
    assert_eq!(requirements_file_for(PluginSource::Modrinth), "modrinth.txt");
    assert_eq!(requirements_file_for(PluginSource::Github), "github.txt");
    assert_eq!(requirements_file_for(PluginSource::Direct), "direct_links.txt");
}

#[test]
fn plugin_names() {
    assert_eq!(plugin_prefix("LuckPerms-Velocity-5.4.102.jar"), "LuckPerms-Velocity");
    assert_eq!(plugin_prefix("ab-1.0.jar"), "ab-1.0");
    assert_eq!(plugin_prefix("1.2.jar"), "1.2");
    assert!(is_old_plugin("luckperms-velocity-5.3.0.jar", "LuckPerms-Velocity-5.4.102.jar"));
    assert!(!is_old_plugin("LUCKPERMS-VELOCITY-5.4.102.JAR", "LuckPerms-Velocity-5.4.102.jar"));
    assert!(!is_old_plugin("other-1.0.jar", "LuckPerms-Velocity-5.4.102.jar"));
    assert!(!is_old_plugin("ab-0.9.jar", "ab-1.0.jar"));
    assert_eq!(direct_plugin_name("https://x.org/dl/Plugin.jar?token=1"), "Plugin.jar");
    assert_eq!(direct_plugin_name("https://x.org/get/geyser"), "geyser.jar");
}

#[test]
fn client_only_files() {
    assert!(is_client_only_category("ResourcePacks/sub"));
    assert!(is_client_only_category("shaderpacks"));
    assert!(!is_client_only_category("mods"));
    assert!(is_client_only_file("mods", "Options.txt"));
    assert!(is_client_only_file("resourcepacks", "pack.zip"));
    assert!(!is_client_only_file("mods", "sodium.jar"));
}

#[test]
fn mod_sources() {
    assert_eq!(mod_source_for_query("https://www.curseforge.com/minecraft/mc-mods/jei"), "cf");
    assert_eq!(mod_source_for_query("sodium"), "modrinth");
}

#[test]
fn container_names() {
    assert_eq!(sanitize_container_name("Mi Server!"), "Mi_Server");
    assert_eq!(sanitize_container_name("__a.b-c__"), "a.b-c");
    assert_eq!(sanitize_container_name("!!!"), "server");
    assert_eq!(sanitize_container_name("ñandú"), "and");
}

#[test]
fn container_name_of_a_container_name_is_itself() {
    for folder in ["Mi Server!", "__a.b-c__", "!!!", "ñandú", "x"] {
        let once = sanitize_container_name(folder);
        assert_eq!(sanitize_container_name(&once), once);
    }
}

fn output(success: bool, stdout: &str, stderr: &str) -> CommandOutput {
    CommandOutput { success, stdout: stdout.to_string(), stderr: stderr.to_string() }
}

#[test]
fn container_statuses() {
    assert_eq!(container_status_from(Some(&output(true, "running\n", ""))), ServerStatus::Running);
    assert_eq!(container_status_from(Some(&output(true, " restarting ", ""))), ServerStatus::Restarting);
    assert_eq!(container_status_from(Some(&output(true, "exited", ""))), ServerStatus::Stopped);
    assert_eq!(container_status_from(Some(&output(true, "weird", ""))), ServerStatus::Unknown);
    assert_eq!(
        container_status_from(Some(&output(false, "", "Error: No such container: x"))),
        ServerStatus::Missing
    );
    assert_eq!(container_status_from(Some(&output(false, "", "boom"))), ServerStatus::Unknown);
    assert_eq!(container_status_from(None), ServerStatus::Unknown);
    assert!(is_running_from(Some(&output(true, "true\n", ""))));
    assert!(!is_running_from(Some(&output(true, "false\n", ""))));
    assert!(!is_running_from(Some(&output(false, "true", ""))));
    assert!(!is_running_from(None));
}

#[test]
fn deleting_a_missing_container_is_fine() {
    assert!(delete_outcome(&output(true, "", "")).is_ok());
    assert!(delete_outcome(&output(false, "", "Error: no container with name or ID \"x\" found")).is_ok());
    assert!(delete_outcome(&output(false, "", "permission denied")).is_err());
}

#[test]
fn env_file_values_last_wins() {
    let env = parse_env_text("# c\nSERVER_NAME = \"Uno\"\nSERVER_PORT='25570'\nSERVER_NAME=Dos\nbroken line\n");
    assert_eq!(env.get("SERVER_NAME"), Some("Dos".to_string()));
    assert_eq!(env.get("SERVER_PORT"), Some("25570".to_string()));
    assert_eq!(env.get("MC_VERSION"), None);
}

#[test]
fn server_list_is_sorted_with_defaults() {
    let found = vec![
        FoundServer {
            folder: "zeta server".to_string(),
            env: parse_env_text("SERVER_TYPE=paper\nSERVER_PORT=bad\n"),
            status: ServerStatus::Stopped,
        },
        FoundServer {
            folder: "alpha".to_string(),
            env: parse_env_text("SERVER_NAME=\"Alfa\"\nSERVER_PORT=\"25570\"\nSERVER_MC_VERSION=1.20.1\nMOD_SOURCE=packwiz\n"),
            status: ServerStatus::Running,
        },
    ];
    let list = build_server_list(&found);
    assert_eq!(list.len(), 2);
    assert_eq!(list[0].id, "alpha");
    assert_eq!(list[0].display_name, "Alfa");
    assert_eq!(list[0].port, 25570);
    assert_eq!(list[0].mc_version, "1.20.1");
    assert_eq!(list[0].mod_source, "packwiz");
    assert_eq!(list[0].status, ServerStatus::Running);
    assert_eq!(list[1].id, "zeta_server");
    assert_eq!(list[1].display_name, "zeta server");
    assert_eq!(list[1].server_type, "paper");
    assert_eq!(list[1].port, 25565);
    assert_eq!(list[1].mc_version, "");
    assert_eq!(list[1].mod_source, "requirements");
}

#[test]
fn ports_in_use() {
    let envs = vec![parse_env_text("SERVER_PORT=\"25565\"\n"), parse_env_text("SERVER_PORT=x\n")];
    assert!(is_port_registered(&envs, 25565));
    assert!(!is_port_registered(&envs, 25566));
    let others = vec![
        ("lobby".to_string(), "SERVER_PORT=\"25570\"\n".to_string()),
        ("survival".to_string(), "SERVER_PORT=\"25566\"\n".to_string()),
    ];
    assert_eq!(port_taken_by(&others, "survival", 25566), None);
    assert_eq!(port_taken_by(&others, "lobby", 25566), Some("survival".to_string()));
    assert_eq!(port_taken_by(&others, "x", 25570), Some("lobby".to_string()));
    assert_eq!(port_taken_by(&others, "x", 1), None);
}

#[test]
fn java_never_goes_down_as_minecraft_goes_up() {
    let java = |v: &str| -> u32 {
        let image = java_image_for("paper", v);
        image["docker.io/library/eclipse-temurin:".len()..image.len() - "-jre".len()].parse().unwrap()
    };
    let versions = ["1.12.2", "1.16.5", "1.17", "1.19.4", "1.20.4", "1.20.5", "1.21", "1.21.4"];
    for w in versions.windows(2) {
        assert!(java(w[0]) <= java(w[1]), "{} then {}", w[0], w[1]);
    }
    assert_eq!(java("1.16.5"), 8);
    assert_eq!(java("1.20.4"), 17);
    assert_eq!(java("1.20.5"), 21);
}
