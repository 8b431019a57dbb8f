use lumineria::packwiz::{
    check_upload_name, command_log_lines, cover_image_filename, engine_settings,
    init_failure_message, is_papermc_engine, is_toml_file, mod_add_args, mod_categories,
    modpack_entry, packwiz_init_args, packwiz_init_settings, packwiz_mod_from_toml,
    publish_fields, sort_mods, upload_target_dir, uploaded_paths,
};
use lumineria::paths::{
    base_dir_for_scope, existing_image_filename, is_jar_file, path_join, requirements_dir,
    safe_join, split_extension,
};
use lumineria::protocol::{FileScope, PackwizMod};

#[test]
fn paths_join_like_path_buf() {
    assert_eq!(path_join("/srv", "a"), "/srv/a");
    assert_eq!(path_join("/srv/", "a"), "/srv/a");
    assert_eq!(path_join("/srv", "/abs"), "/abs");
    assert_eq!(base_dir_for_scope("/root", "lobby", FileScope::Packwiz), "/root/lobby/packwiz");
    assert_eq!(base_dir_for_scope("/root", "lobby", FileScope::ServerRoot), "/root/lobby");
    assert_eq!(requirements_dir("/root", "lobby"), "/root/lobby/requirements");
}

#[test]
fn safe_join_refuses_leaving_the_tree() {
    assert_eq!(safe_join("/srv/pack", "mods/./a.toml"), Ok("/srv/pack/mods/a.toml".to_string()));
    assert_eq!(
        safe_join("/srv/pack", "../secret"),
        Err("ruta inválida o fuera del modpack: '../secret'".to_string())
    );
    assert_eq!(
        safe_join("/srv/pack", "/etc/passwd"),
        Err("ruta inválida o fuera del modpack: '/etc/passwd'".to_string())
    );
    assert_eq!(safe_join("/srv/pack", ""), Ok("/srv/pack".to_string()));
}

#[test]
fn safe_join_stays_under_the_base() {
    for rel in ["a/b", "./x//y/", "mods/../../z", "c"] {
        if let Ok(p) = safe_join("/srv/pack", rel) {
            assert!(p.starts_with("/srv/pack"));
        }
    }
}

#[test]
fn file_names() {
    assert_eq!(split_extension("sodium.jar"), ("sodium".to_string(), Some("jar".to_string())));
    assert_eq!(split_extension(".hidden"), (".hidden".to_string(), None));
    assert_eq!(split_extension("a.tar.gz"), ("a.tar".to_string(), Some("gz".to_string())));
    assert!(is_jar_file("x.jar"));
    assert!(!is_jar_file("x.jar.disabled"));
    assert!(is_toml_file("sodium.pw.toml"));
    assert!(!is_toml_file("toml"));
    let names = vec!["other.png".to_string(), "smp.jpg".to_string()];
    assert_eq!(existing_image_filename(&names, "smp"), Some("smp.jpg".to_string()));
    assert_eq!(existing_image_filename(&names, "none"), None);
    assert_eq!(cover_image_filename("smp", "Cover.JPEG"), "smp.JPEG");
    assert_eq!(cover_image_filename("smp", "cover"), "smp.png");
}

#[test]
fn packwiz_init_follows_the_server() {
    assert_eq!(
        packwiz_init_settings("SERVER_TYPE=\"paper\"\nMC_VERSION=\"1.20.4\"\n"),
        ("paper".to_string(), "1.20.4".to_string())
    );
    assert_eq!(
        packwiz_init_settings("SERVER_TYPE=velocity\nMC_VERSION=3.3.0\n"),
        ("none".to_string(), "1.21.1".to_string())
    );
    assert_eq!(packwiz_init_settings(""), ("fabric".to_string(), "1.21.1".to_string()));
    let args = packwiz_init_args("lobby", "1.21.1", "fabric");
    assert_eq!(
        args,
        vec!["init", "--name", "lobby", "--author", "Lumineria", "--mc-version", "1.21.1", "--modloader", "fabric", "-y"]
    );
    assert_eq!(
        init_failure_message("lobby", "  \n", " bad version\n"),
        "No pude inicializar packwiz para 'lobby': bad version"
    );
    assert_eq!(
        init_failure_message("lobby", " boom ", "ignored"),
        "No pude inicializar packwiz para 'lobby': boom"
    );
}

#[test]
fn packwiz_commands_and_output() {
    assert_eq!(mod_add_args("sodium"), vec!["modrinth", "add", "sodium", "-y"]);
    assert_eq!(
        mod_add_args("https://www.curseforge.com/minecraft/mc-mods/jei"),
        vec!["cf", "add", "https://www.curseforge.com/minecraft/mc-mods/jei", "-y"]
    );
    assert_eq!(command_log_lines(" added \n", ""), vec!["added"]);
    assert_eq!(command_log_lines("", "err\n"), vec!["err"]);
    assert_eq!(command_log_lines(" ", "x"), vec!["", "x"]);
    assert!(command_log_lines("", "").is_empty());
}

#[test]
fn publication_entry() {
    let env = "SERVER_NAME=\"Mi \"Pack\"\"\nSERVER_TYPE=\"neoforge\"\nMC_VERSION=\"1.21.1\"\nENGINE_BUILD=\"21.1.77\"\n";
    let f = publish_fields(env);
    assert_eq!(f.title, "Mi Pack");
    assert_eq!(f.engine_build, Some("21.1.77".to_string()));
    let e = modpack_entry(&f, "https://mods.example.org", "mipack", "mipack.png");
    assert_eq!(e.title, "Mi Pack");
    assert_eq!(e.mc_version, "1.21.1");
    assert_eq!(e.version_id, "neoforge-21.1.77");
    assert_eq!(e.java_version, 21);
    assert_eq!(e.loader_name, "NeoForge");
    assert_eq!(
        e.loader_url,
        "https://maven.neoforged.net/releases/net/neoforged/neoforge/21.1.77/neoforge-21.1.77-installer.jar"
    );
    assert_eq!(e.packwiz_url, "https://mods.example.org/mipack/pack.toml");
    assert_eq!(e.image, "https://mods.example.org/images/mipack.png");
    let d = publish_fields("");
    assert_eq!(d.title, "Servidor Lumineria");
    assert_eq!(d.mc_version, "1.21.1");
    assert_eq!(d.server_type, "neoforge");
    assert_eq!(d.engine_build, None);
}

#[test]
fn engine_settings_take_the_second_piece() {
    let s = engine_settings("MC_VERSION=\"1.20.4\"=x\nMIN_RAM=2G\n");
    assert_eq!(s.mc_version, "1.20.4");
    assert_eq!(s.server_type, "paper");
    assert_eq!(s.min_ram, "2G");
    assert_eq!(s.max_ram, "4G");
    assert!(is_papermc_engine("folia"));
    assert!(!is_papermc_engine("Paper"));
}

#[test]
fn mods_from_toml_files() {
    let m = packwiz_mod_from_toml(
        "mods",
        "sodium.pw.toml",
        "name = \"Sodium\"\nfilename = \"sodium-0.6.jar\"\nside = \"client\"\n",
    )
    .unwrap();
    assert_eq!(m.name, "Sodium");
    assert_eq!(m.filename, "mods/sodium-0.6.jar");
    assert_eq!(m.toml_path, "mods/sodium.pw.toml");
    assert_eq!(m.side, "client");
    let d = packwiz_mod_from_toml("plugins", "x.toml", "  name = Lithium\n").unwrap();
    assert_eq!(d.side, "both");
    assert_eq!(d.filename, "plugins/");
    assert!(packwiz_mod_from_toml("mods", "x.toml", "filename = \"a.jar\"\n").is_none());
    assert_eq!(mod_categories(), vec!["mods", "resourcepacks", "shaderpacks", "plugins", "config"]);
}

fn pw(name: &str) -> PackwizMod {
    PackwizMod {
        name: name.to_string(),
        filename: String::new(),
        toml_path: String::new(),
        side: "both".to_string(),
    }
}

#[test]
fn mods_are_sorted_ignoring_case() {
    let sorted = sort_mods(vec![pw("sodium"), pw("Iris"), pw("create"), pw("JEI")]);
    let names: Vec<&str> = sorted.iter().map(|m| m.name.as_str()).collect();
    assert_eq!(names, vec!["create", "Iris", "JEI", "sodium"]);
}

#[test]
fn upload_names_and_places() {
    assert!(check_upload_name("sodium.jar").is_ok());
    assert_eq!(
        check_upload_name("../x.jar"),
        Err("❌ Nombre de archivo inválido o reservado: '../x.jar'".to_string())
    );
    assert!(check_upload_name("PACK.TOML").is_err());
    assert!(check_upload_name("a\\b").is_err());
    assert!(check_upload_name("").is_err());
    assert_eq!(upload_target_dir("/p", "root"), Ok("/p".to_string()));
    assert_eq!(upload_target_dir("/p", "mods/extra"), Ok("/p/mods/extra".to_string()));
    assert_eq!(
        upload_target_dir("/p", "../up"),
        Err("❌ ruta inválida o fuera del modpack: '../up'".to_string())
    );
    assert_eq!(
        uploaded_paths("mods", "sodium.jar"),
        ("mods/sodium.jar".to_string(), "mods/sodium.toml".to_string())
    );
    assert_eq!(
        uploaded_paths(".", "options.txt"),
        ("options.txt".to_string(), "options.toml".to_string())
    );
}

#[test]
fn mods_of_the_same_name_keep_their_order() {
    let mut first = pw("Sodium");
    first.filename = "sodium-a.pw.toml".to_string();
    let mut second = pw("sodium");
    second.filename = "sodium-b.pw.toml".to_string();
    let sorted = sort_mods(vec![pw("zoom"), first, pw("apple"), second]);
    let files: Vec<String> = sorted.iter().map(|m| m.filename.clone()).collect();
    assert_eq!(files[1], "sodium-a.pw.toml");
    assert_eq!(files[2], "sodium-b.pw.toml");
    assert_eq!(sorted[0].name, "apple");
    assert_eq!(sorted[3].name, "zoom");
}
