use base64::Engine;
use lumineria::media::{cover_image_plan, decode_upload, fallback_cover_image, icon_crop, icon_png, CoverImage};
use lumineria::plugins::{
    add_requirement, github_release_url, modrinth_versions_url, pick_github_asset,
    pick_modrinth_file, plugin_entries, remove_requirement, requirement_lines,
    retry_without_hint, GithubAsset, ModrinthFile, ModrinthVersion, RequirementAdd,
};
use lumineria::protocol::{PackwizImage, PluginSource};

#[test]
fn requirement_lists_skip_blanks_and_comments() {
    let lines = requirement_lines("  luckperms \n\n# comment\n  #x\ngeyser\r\n");
    assert_eq!(lines, vec!["luckperms", "geyser"]);
    assert!(requirement_lines("").is_empty());
}

#[test]
fn adding_a_plugin() {
    let existing = vec!["luckperms".to_string()];
    match add_requirement(&existing, "  Geyser ") {
        RequirementAdd::Write(v, text) => {
            assert_eq!(v, "Geyser");
            assert_eq!(text, "luckperms\nGeyser\n");
        }
        _ => panic!("expected a write"),
    }
    match add_requirement(&existing, "LUCKPERMS") {
        RequirementAdd::AlreadyListed(v) => assert_eq!(v, "LUCKPERMS"),
        _ => panic!("expected already listed"),
    }
    match add_requirement(&existing, "   ") {
        RequirementAdd::Invalid(m) => assert_eq!(m, "El valor no puede estar vacío."),
        _ => panic!("expected invalid"),
    }
    match add_requirement(&existing, "a\nb") {
        RequirementAdd::Invalid(m) => assert_eq!(m, "El valor no puede contener saltos de línea."),
        _ => panic!("expected invalid"),
    }
}

#[test]
fn an_added_plugin_is_listed_when_read_again() {
    let existing = requirement_lines("viaversion\n# note\nluckperms\n");
    if let RequirementAdd::Write(v, text) = add_requirement(&existing, "geyser") {
        let again = requirement_lines(&text);
        let mut expected = existing.clone();
        expected.push(v);
        assert_eq!(again, expected);
    } else {
        panic!("expected a write");
    }
}

#[test]
fn removing_a_plugin() {
    let existing = vec!["luckperms".to_string(), "Geyser".to_string(), "geyser".to_string()];
    let text = remove_requirement(&existing, "GEYSER");
    assert_eq!(text, "luckperms\n");
    assert!(!requirement_lines(&text).iter().any(|l| l.eq_ignore_ascii_case("geyser")));
    assert_eq!(remove_requirement(&vec!["x".to_string()], "X"), "");
}

#[test]
fn plugin_entries_in_source_order() {
    let e = plugin_entries(vec!["a".to_string()], vec!["o/r".to_string()], vec!["https://x/p.jar".to_string()]);
    assert_eq!(e.len(), 3);
    assert_eq!(e[0].source, PluginSource::Modrinth);
    assert_eq!(e[1].source, PluginSource::Github);
    assert_eq!(e[1].value, "o/r");
    assert_eq!(e[2].source, PluginSource::Direct);
}

fn file(primary: Option<bool>, url: Option<&str>, name: Option<&str>) -> ModrinthFile {
    ModrinthFile { primary, url: url.map(|s| s.to_string()), filename: name.map(|s| s.to_string()) }
}

#[test]
fn modrinth_picks_the_first_release_and_its_primary_file() {
    let versions = vec![
        ModrinthVersion { version_type: Some("beta".to_string()), files: Some(vec![file(Some(true), Some("u0"), Some("n0"))]) },
        ModrinthVersion {
            version_type: Some("release".to_string()),
            files: Some(vec![file(None, Some("u1"), Some("n1")), file(Some(true), Some("u2"), Some("n2"))]),
        },
    ];
    assert_eq!(pick_modrinth_file(&versions), Some(("u2".to_string(), "n2".to_string())));
    let betas = vec![ModrinthVersion {
        version_type: Some("beta".to_string()),
        files: Some(vec![file(None, Some("u3"), Some("n3")), file(None, Some("u4"), Some("n4"))]),
    }];
    assert_eq!(pick_modrinth_file(&betas), Some(("u3".to_string(), "n3".to_string())));
    let no_name = vec![ModrinthVersion { version_type: None, files: Some(vec![file(None, Some("u"), None)]) }];
    assert_eq!(pick_modrinth_file(&no_name), None);
    let no_files = vec![ModrinthVersion { version_type: None, files: Some(vec![]) }];
    assert_eq!(pick_modrinth_file(&no_files), None);
}

#[test]
fn github_picks_the_first_jar() {
    let assets = Some(vec![
        GithubAsset { name: Some("notes.txt".to_string()), browser_download_url: Some("t".to_string()) },
        GithubAsset { name: Some("plugin.jar".to_string()), browser_download_url: Some("j".to_string()) },
    ]);
    assert_eq!(pick_github_asset(&assets), Some(Some(("j".to_string(), "plugin.jar".to_string()))));
    let no_url = Some(vec![GithubAsset { name: Some("a.jar".to_string()), browser_download_url: None }]);
    assert_eq!(pick_github_asset(&no_url), Some(None));
    assert_eq!(pick_github_asset(&None), None);
    assert_eq!(pick_github_asset(&Some(vec![])), None);
}

#[test]
fn plugin_addresses() {
    assert_eq!(
        modrinth_versions_url("luckperms", "%5B%22velocity%22%5D", &Some("1.21.1".to_string())),
        "https://api.modrinth.com/v2/project/luckperms/version?loaders=%5B%22velocity%22%5D&game_versions=%5B%221.21.1%22%5D"
    );
    assert_eq!(
        modrinth_versions_url("luckperms", "L", &Some(String::new())),
        "https://api.modrinth.com/v2/project/luckperms/version?loaders=L"
    );
    assert!(retry_without_hint(0, &Some("1.21".to_string())));
    assert!(!retry_without_hint(2, &Some("1.21".to_string())));
    assert!(!retry_without_hint(0, &None));
    assert_eq!(github_release_url("GeyserMC/Geyser"), "https://api.github.com/repos/GeyserMC/Geyser/releases/latest");
}

#[test]
fn uploads_are_decoded_from_base64() {
    assert_eq!(decode_upload("aGVsbG8="), Ok(b"hello".to_vec()));
    assert_eq!(decode_upload("not base64!"), Err("❌ Error decodificando archivo Base64.".to_string()));
}

#[test]
fn cover_images() {
    let img = Some(PackwizImage { filename: "cover.jpg".to_string(), data_base64: "AAEC".to_string() });
    match cover_image_plan("smp", &img) {
        CoverImage::Save { name, bytes } => {
            assert_eq!(name, "smp.jpg");
            assert_eq!(bytes, vec![0u8, 1, 2]);
        }
        _ => panic!("expected a save"),
    }
    let bad = Some(PackwizImage { filename: "cover.jpg".to_string(), data_base64: "***".to_string() });
    match cover_image_plan("smp", &bad) {
        CoverImage::Existing { warning } => assert_eq!(
            warning,
            Some("⚠️ Error decodificando la imagen enviada, uso la anterior o la de por defecto.".to_string())
        ),
        _ => panic!("expected the existing one"),
    }
    assert!(matches!(cover_image_plan("smp", &None), CoverImage::Existing { warning: None }));
    assert_eq!(fallback_cover_image(&vec!["smp.png".to_string()], "smp"), "smp.png");
    assert_eq!(fallback_cover_image(&vec![], "x"), "smp.png");
}

#[test]
fn icon_squares() {
    assert_eq!(icon_crop(100, 60), (20, 0, 60));
    assert_eq!(icon_crop(60, 101), (0, 20, 60));
    assert_eq!(icon_crop(64, 64), (0, 0, 64));
}

#[test]
fn icon_errors() {
    assert_eq!(icon_png("%%%"), Err("Imagen inválida (base64 corrupto).".to_string()));
    let not_image = icon_png("aGVsbG8=");
    match not_image {
        Err(m) => assert!(m.starts_with("No pude leer la imagen: ")),
        Ok(_) => panic!("hello is not an image"),
    }
}

#[test]
fn icon_of_a_png_is_a_png() {
    let source = image::DynamicImage::ImageRgba8(image::RgbaImage::new(100, 60));
    let mut bytes = std::io::Cursor::new(Vec::new());
    source.write_to(&mut bytes, image::ImageFormat::Png).unwrap();
    let text = base64::engine::general_purpose::STANDARD.encode(bytes.into_inner());
    let out = icon_png(&text).expect("the icon");
    let icon = image::load_from_memory(&out).unwrap();
    assert_eq!((icon.width(), icon.height()), (64, 64));
}

#[test]
fn icon_is_the_centred_square() {
    let mut source = image::RgbaImage::new(100, 60);
    for (x, _, p) in source.enumerate_pixels_mut() {
        *p = if x < 20 {
            image::Rgba([255, 0, 0, 255])
        } else if x < 80 {
            image::Rgba([0, 255, 0, 255])
        } else {
            image::Rgba([0, 0, 255, 255])
        };
    }
    let mut bytes = std::io::Cursor::new(Vec::new());
    image::DynamicImage::ImageRgba8(source).write_to(&mut bytes, image::ImageFormat::Png).unwrap();
    let text = base64::engine::general_purpose::STANDARD.encode(bytes.into_inner());
    let icon = image::load_from_memory(&icon_png(&text).expect("the icon")).unwrap().to_rgba8();
    assert_eq!(icon.dimensions(), (64, 64));
    for (x, y) in [(0, 0), (63, 0), (32, 32), (0, 63), (63, 63)] {
        assert_eq!(icon.get_pixel(x, y).0, [0, 255, 0, 255]);
    }
}
