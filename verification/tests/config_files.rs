use lumineria::config::{
    client_side_content, mod_side_content, patch_velocity_content, run_sh_start_script,
    server_env_content, server_properties_content, set_motd_content, set_port_content,
    start_script_content,
};
use lumineria::env::{read_env_value, update_env_content};
use lumineria::protocol::ServerConfigParams;

fn config() -> ServerConfigParams {
    ServerConfigParams {
        display_name: "Mi Server".to_string(),
        server_type: "paper".to_string(),
        mc_version: "1.21.1".to_string(),
        loader_version: None,
        port: 25565,
        min_ram: "1G".to_string(),
        max_ram: "4G".to_string(),
        online_mode: true,
        enforce_secure_profile: false,
    }
}

#[test]
fn env_value_is_first_match_trimmed_and_unquoted() {
    let env = "SERVER_NAME=\"Mi Server\"\nSERVER_TYPE= \"paper\" \nSERVER_TYPE=\"fabric\"\n";
    assert_eq!(read_env_value(env, "SERVER_TYPE"), Some("paper".to_string()));
    assert_eq!(read_env_value(env, "SERVER_NAME"), Some("Mi Server".to_string()));
    assert_eq!(read_env_value(env, "MC_VERSION"), None);
}

#[test]
fn env_update_replaces_or_appends() {
    assert_eq!(
        update_env_content("A=\"1\"\nB=\"2\"\n", "B", "3"),
        "A=\"1\"\nB=\"3\"\n"
    );
    assert_eq!(update_env_content("A=\"1\"\n", "C", "x"), "A=\"1\"\nC=\"x\"\n");
    assert_eq!(update_env_content("", "C", "x"), "C=\"x\"\n");
}

#[test]
fn env_read_after_update_gives_the_value() {
    let before = "SERVER_TYPE=\"paper\"\nENGINE_BUILD=\"12\"\nMC_VERSION=\"1.21\"\n";
    let after = update_env_content(before, "ENGINE_BUILD", "130");
    assert_eq!(read_env_value(&after, "ENGINE_BUILD"), Some("130".to_string()));
    assert_eq!(read_env_value(&after, "SERVER_TYPE"), Some("paper".to_string()));
    assert_eq!(read_env_value(&after, "MC_VERSION"), Some("1.21".to_string()));
}

#[test]
fn server_env_file_text() {
    let c = config();
    let expected = format!(
        "# === IDENTIFICACIÓN ===\nSERVER_NAME=\"{}\"\nSERVER_TYPE=\"{}\"\nSERVER_BUILD_MODE=\"{}\"\nSERVER_MOTD=\"{}\"\n\n# === RED Y RENDIMIENTO ===\nSERVER_PORT=\"{}\"\nMIN_RAM=\"{}\"\nMAX_RAM=\"{}\"\nONLINE_MODE=\"{}\"\nENFORCE_SECURE_PROFILE=\"{}\"\n\n# === MINECRAFT ===\nMC_VERSION=\"{}\"\n",
        "Mi Server", "paper", "paper", "Mi Server", 25565, "1G", "4G", true, false, "1.21.1"
    );
    assert_eq!(server_env_content(&c), expected);
}

#[test]
fn server_properties_file_text() {
    let c = config();
    assert_eq!(
        server_properties_content(&c),
        "server-port=25565\nquery.port=25565\nonline-mode=true\nenforce-secure-profile=false\nmotd=Mi Server\nmax-players=20\nprevent-proxy-connections=false\nenable-rcon=false\n"
    );
}

#[test]
fn start_scripts() {
    assert_eq!(
        start_script_content("paper", "1G", "4G", "paper-1.21.jar"),
        "#!/bin/sh\ncd /data\nexec java -Xms1G -Xmx4G -jar paper-1.21.jar nogui\n"
    );
    assert_eq!(
        start_script_content("velocity", "512M", "1G", "velocity.jar"),
        "#!/bin/sh\ncd /data\nexec java -Xms512M -Xmx1G -jar velocity.jar\n"
    );
    assert_eq!(run_sh_start_script(), "#!/bin/sh\ncd /data\nexec sh run.sh nogui\n");
}

#[test]
fn motd_is_replaced_or_added() {
    assert_eq!(
        set_motd_content("server-port=1\nmotd=old\n", "Nuevo"),
        "server-port=1\nmotd=Nuevo\n"
    );
    assert_eq!(set_motd_content("a=1\n", "X"), "a=1\nmotd=X\n");
}

#[test]
fn motd_set_twice_is_set_once() {
    let once = set_motd_content("a=1\nmotd=old\n", "Hola");
    assert_eq!(set_motd_content(&once, "Hola"), once);
}

#[test]
fn port_lines_are_replaced_or_added() {
    assert_eq!(
        set_port_content("server-port=1\nquery.port=1\nx=2\n", 25566),
        "server-port=25566\nquery.port=25566\nx=2\n"
    );
    assert_eq!(
        set_port_content("x=2\n", 25566),
        "x=2\nserver-port=25566\nquery.port=25566\n"
    );
}

#[test]
fn velocity_settings_are_patched() {
    assert_eq!(
        patch_velocity_content("bind = \"0.0.0.0:25577\"\nmotd = \"a\"\n", 25600, Some("Hola \"x\"")),
        "bind = \"0.0.0.0:25600\"\nmotd = \"Hola \\\"x\\\"\"\n"
    );
    assert_eq!(
        patch_velocity_content("x = 1\n", 25600, None),
        "bind = \"0.0.0.0:25600\"\nx = 1\n"
    );
    assert_eq!(
        patch_velocity_content("x = 1\n", 25600, Some("M")),
        "bind = \"0.0.0.0:25600\"\nx = 1\nmotd = \"M\"\n"
    );
}

#[test]
fn mod_side_lines() {
    assert_eq!(
        mod_side_content("name = \"A\"\n  side = \"both\"\n", "server"),
        "name = \"A\"\nside = \"server\"\n"
    );
    assert_eq!(mod_side_content("name = \"A\"\n", "client"), "name = \"A\"\nside = \"client\"\n");
    assert_eq!(
        client_side_content("name = \"A\"\nside=\"both\"\n"),
        "name = \"A\"\nside = \"client\"\n"
    );
}

#[test]
fn setting_a_key_keeps_the_other_lines_in_place() {
    let before = "# comment\nMC_VERSION=\"1.21.1\"\nSERVER_PORT=25565\r\nMOTD=\"hi\"";
    let after = update_env_content(before, "SERVER_PORT", "25570");
    assert_eq!(after, "# comment\nMC_VERSION=\"1.21.1\"\nSERVER_PORT=\"25570\"\nMOTD=\"hi\"\n");
    assert_eq!(read_env_value(&after, "SERVER_PORT"), Some("25570".to_string()));
}
