use lumineria::publishing::{publish_steps, unpublish_steps, PublishStep};
use lumineria::settings::PublishTarget;
use lumineria::store::{BusySet, ModpackDb, ModpackEntry};

fn ssh() -> PublishTarget {
    PublishTarget::Ssh {
        ssh_host: "vps".to_string(),
        remote_base: "~/lum".to_string(),
        web_root: "/var/www/html".to_string(),
    }
}

fn local() -> PublishTarget {
    PublishTarget::LocalFs { base_path: "/home/u/lum".to_string(), web_root: "/var/www/html".to_string() }
}

#[test]
fn publishing_over_ssh() {
    let steps = publish_steps(&ssh(), "/srv/lobby/packwiz//", "/srv/lumineria_database", "pack");
    assert_eq!(steps.len(), 3);
    match &steps[0] {
        PublishStep::Rsync { args, failure } => {
            assert_eq!(args, &vec!["-avz", "--delete", "--mkpath", "/srv/lobby/packwiz/", "vps:~/lum/lumineria_packwiz/pack/"]);
            assert_eq!(failure, "rsync falló hacia vps:~/lum/lumineria_packwiz/pack/");
        }
        _ => panic!("expected rsync"),
    }
    match &steps[1] {
        PublishStep::Rsync { args, .. } => {
            assert_eq!(args[3], "/srv/lumineria_database/");
            assert_eq!(args[4], "vps:~/lum/lumineria_database/");
        }
        _ => panic!("expected rsync"),
    }
    match &steps[2] {
        PublishStep::Remote { host, command, failure } => {
            assert_eq!(host, "vps");
            let expected = "mkdir -p '/var/www/html' '/var/www/html/images' '/var/www/html/pack' && cp '~/lum/lumineria_database/modpacks.json' '/var/www/html/' && (cp -r '~/lum/lumineria_database/images/.' '/var/www/html/images/' 2>/dev/null || true) && rm -rf '/var/www/html/pack' && cp -r '~/lum/lumineria_packwiz/pack' '/var/www/html/pack' && chmod -R 755 '/var/www/html'";
            assert_eq!(command, expected);
            assert_eq!(failure, &format!("comando remoto falló: {expected}"));
        }
        _ => panic!("expected the remote command"),
    }
}

#[test]
fn publishing_locally() {
    let steps = publish_steps(&local(), "/srv/lobby/packwiz", "/srv/lumineria_database", "pack");
    assert_eq!(steps.len(), 8);
    assert!(matches!(&steps[0], PublishStep::Mirror { from, to } if from == "/srv/lobby/packwiz" && to == "/home/u/lum/lumineria_packwiz/pack"));
    assert!(matches!(&steps[1], PublishStep::Mirror { to, .. } if to == "/home/u/lum/lumineria_database"));
    assert!(matches!(&steps[2], PublishStep::CreateDir { path, context } if path == "/var/www/html" && context == "no pude crear /var/www/html"));
    assert!(matches!(&steps[3], PublishStep::CopyFileIfExists { from, to, .. } if from == "/home/u/lum/lumineria_database/modpacks.json" && to == "/var/www/html/modpacks.json"));
    assert!(matches!(&steps[4], PublishStep::CopyDirIfDir { to, .. } if to == "/var/www/html/images"));
    assert!(matches!(&steps[5], PublishStep::RemoveDirIfExists { path, context: None } if path == "/var/www/html/pack"));
    assert!(matches!(&steps[6], PublishStep::CopyDir { from, to } if from == "/home/u/lum/lumineria_packwiz/pack" && to == "/var/www/html/pack"));
    assert!(matches!(&steps[7], PublishStep::SetPermissions { mode: 0o755, .. }));
}

#[test]
fn unpublishing() {
    let steps = unpublish_steps(&ssh(), "/srv/lumineria_database", "pack");
    assert_eq!(steps.len(), 2);
    assert!(matches!(&steps[1], PublishStep::Remote { command, .. } if command == "cp '~/lum/lumineria_database/modpacks.json' '/var/www/html/' && rm -rf '~/lum/lumineria_packwiz/pack' '/var/www/html/pack'"));
    let steps = unpublish_steps(&local(), "/srv/lumineria_database", "pack");
    assert_eq!(steps.len(), 4);
    assert!(matches!(&steps[2], PublishStep::RemoveDirIfExists { path, context: Some(c) } if path == "/home/u/lum/lumineria_packwiz/pack" && c == "no pude borrar el pack de lumineria_packwiz"));
}

fn entry(title: &str) -> ModpackEntry {
    ModpackEntry {
        title: title.to_string(),
        mc_version: "1.21.1".to_string(),
        version_id: "neoforge-1".to_string(),
        java_version: 21,
        loader_name: "NeoForge".to_string(),
        loader_url: String::new(),
        packwiz_url: "https://x/p/pack.toml".to_string(),
        image: "https://x/images/p.png".to_string(),
    }
}

#[test]
fn catalogue_reads_back_what_was_stored() {
    let mut db = ModpackDb::new();
    db.upsert("a", entry("A"));
    db.upsert("b", entry("B"));
    db.upsert("a", entry("A2"));
    assert_eq!(db.get("a").map(|e| e.title), Some("A2".to_string()));
    assert_eq!(db.get("b").map(|e| e.title), Some("B".to_string()));
    assert!(db.get("c").is_none());
    assert_eq!(db.to_pairs().len(), 2);
}

#[test]
fn catalogue_remove_undoes_upsert() {
    let mut db = ModpackDb::new();
    db.upsert("a", entry("A"));
    assert!(!db.remove("zzz"));
    assert!(db.get("a").is_some());
    db.upsert("b", entry("B"));
    assert!(db.remove("b"));
    assert!(db.get("b").is_none());
    assert!(db.get("a").is_some());
    assert!(!db.remove("b"));
}

#[test]
fn catalogue_pairs_round_trip() {
    let mut db = ModpackDb::new();
    db.upsert("x", entry("X"));
    db.upsert("y", entry("Y"));
    let again = ModpackDb::from_pairs(db.to_pairs());
    assert_eq!(again.get("x").map(|e| e.title), Some("X".to_string()));
    assert_eq!(again.get("y").map(|e| e.title), Some("Y".to_string()));
    let later_wins = ModpackDb::from_pairs(vec![("k".to_string(), entry("1")), ("k".to_string(), entry("2"))]);
    assert_eq!(later_wins.get("k").map(|e| e.title), Some("2".to_string()));
    assert_eq!(later_wins.to_pairs().len(), 1);
}

#[test]
fn busy_ids() {
    let mut busy = BusySet::new();
    assert!(busy.try_acquire("lobby"));
    assert!(!busy.try_acquire("lobby"));
    assert!(busy.try_acquire("install"));
    assert!(busy.is_busy("lobby"));
    busy.release("lobby");
    assert!(!busy.is_busy("lobby"));
    assert!(busy.is_busy("install"));
    assert!(busy.try_acquire("lobby"));
}

#[test]
fn unpublishing_removes_the_published_folders() {
    let placed = publish_steps(&local(), "/srv/lobby/packwiz", "/srv/lumineria_database", "survival");
    let removed = unpublish_steps(&local(), "/srv/lumineria_database", "survival");
    let copy = match &placed[0] {
        PublishStep::Mirror { to, .. } => to.clone(),
        _ => panic!("the pack is mirrored first"),
    };
    let served = match &placed[6] {
        PublishStep::CopyDir { to, .. } => to.clone(),
        _ => panic!("the pack is copied to the web root"),
    };
    assert!(matches!(&removed[2], PublishStep::RemoveDirIfExists { path, .. } if *path == copy));
    assert!(matches!(&removed[3], PublishStep::RemoveDirIfExists { path, .. } if *path == served));
    assert_eq!(served, "/var/www/html/survival");
}
