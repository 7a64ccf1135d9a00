use rift::config::{AudioTargetConfig, TargetConfig, TextureTargetConfig};
use rift::engines::godot::{generate_import, generate_uid};
use rift::engines::unity::generate_stable_guid;
use rift::engines::unreal::{unreal_settings_document, UnrealValue};
use rift::engines::{generate_meta, EngineExport};
use sha2::Digest;

fn target(engine: &str) -> TargetConfig {
    TargetConfig {
        engine: engine.to_string(),
        project: "proj".to_string(),
        textures: TextureTargetConfig::default(),
        audio: AudioTargetConfig::default(),
    }
}

fn digest_hex(s: &str) -> String {
    hex::encode(sha2::Sha256::digest(s.as_bytes()))
}

#[test]
fn unity_guid_is_digest_prefix() {
    let g = generate_stable_guid("proj/hero.png");
    assert_eq!(g.len(), 32);
    assert_eq!(g, digest_hex("proj/hero.png")[..32]);
    assert_ne!(g, generate_stable_guid("proj/hero2.png"));
    assert_eq!(g, generate_stable_guid("proj/hero.png"));
    assert_eq!(generate_uid("proj/hero.png", 6), digest_hex("proj/hero.png")[..6]);
}

#[test]
fn unity_meta_file() {
    match generate_meta("proj/Hero.PNG", &target("unity")) {
        Some(EngineExport::Text { path, content }) => {
            assert_eq!(path, "proj/Hero.PNG.meta");
            let guid = digest_hex("proj/Hero.PNG")[..32].to_string();
            assert_eq!(
                content,
                format!("fileFormatVersion: 2\nguid: {}\nTextureImporter:\n  externalObjects: {{}}\n  userData: \n  assetBundleName: \n  assetBundleVariant: \n", guid)
            );
        }
        other => panic!("unexpected export {:?}", other),
    }
    for (file, importer) in [
        ("a.fbx", "ModelImporter"),
        ("a.ogg", "AudioImporter"),
        ("a.mat", "Material"),
        ("a.prefab", "PrefabInstance"),
        ("a.txt", "NativeFormatImporter"),
        ("noext", "NativeFormatImporter"),
    ] {
        match generate_meta(file, &target("unity")) {
            Some(EngineExport::Text { content, .. }) => assert!(content.contains(&format!("\n{}:\n", importer))),
            other => panic!("unexpected export {:?}", other),
        }
    }
    match generate_meta("dir/noext", &target("unity")) {
        Some(EngineExport::Text { path, .. }) => assert_eq!(path, "dir/noext..meta"),
        other => panic!("unexpected export {:?}", other),
    }
}

#[test]
fn godot_import_files() {
    match generate_import("proj/tex/Hero.PNG", &target("godot")) {
        Some(EngineExport::Text { path, content }) => {
            assert_eq!(path, "proj/tex/Hero.png.import");
            let uid = digest_hex("proj/tex/Hero.PNG")[..6].to_string();
            assert!(content.starts_with("#[remap]\nimporter=\"texture\"\ntype=\"CompressedTexture2D\"\n"));
            assert!(content.contains(&format!("uid=\"uid://{}\"\n", uid)));
            assert!(content.contains("path=\"res://Hero.PNG\"\n\n[deps]\n\nsource_file=\"res://Hero.PNG\"\n"));
            assert!(content.ends_with("svg/scale=1.0\n"));
        }
        other => panic!("unexpected export {:?}", other),
    }
    match generate_import("a.ogg", &target("godot")) {
        Some(EngineExport::Text { path, content }) => {
            assert_eq!(path, "a.ogg.import");
            assert!(content.contains("importer=\"wav\"\ntype=\"AudioStreamWAV\""));
            assert!(content.ends_with("edit/normalize=true\n"));
        }
        other => panic!("unexpected export {:?}", other),
    }
    match generate_import("a.glb", &target("godot")) {
        Some(EngineExport::Text { content, .. }) => {
            assert!(content.ends_with("[params]\n\nimport/import_as=SINGLE_SCENE\n"));
        }
        other => panic!("unexpected export {:?}", other),
    }
    assert!(generate_import("a.psd", &target("godot")).is_none());
    assert!(generate_meta("a.txt", &target("godot")).is_none());
}

#[test]
fn unreal_settings() {
    let mut t = target("unreal");
    t.textures.max_width = 1024;
    t.textures.max_height = 4096;
    let text = |s: &str| UnrealValue::Text(s.to_string());
    match generate_meta("p/T.JPG", &t) {
        Some(EngineExport::Unreal { path, document }) => {
            assert_eq!(path, "p/T.jpg.json");
            assert_eq!(document.section.as_deref(), Some("TextureSettings"));
            assert_eq!(
                document.fields,
                vec![
                    ("CompressionSettings".to_string(), text("Default")),
                    ("MaxTextureSize".to_string(), UnrealValue::Number(4096)),
                    ("TextureGroup".to_string(), text("TEXTUREGROUP_World")),
                    ("sRGB".to_string(), UnrealValue::Flag(true)),
                    ("MipGenSettings".to_string(), text("TMGS_NoMipmaps")),
                ]
            );
        }
        other => panic!("unexpected export {:?}", other),
    }
    t.textures.generate_mipmaps = true;
    let doc = unreal_settings_document("p/T.bmp", &t);
    assert_eq!(doc.fields[4], ("MipGenSettings".to_string(), text("TMGS_FromTextureGroup")));
    let doc = unreal_settings_document("m.obj", &t);
    assert_eq!(doc.section.as_deref(), Some("ModelSettings"));
    assert_eq!(
        doc.fields,
        vec![
            ("ImportContentType".to_string(), text("All")),
            ("GenerateLightmapUVs".to_string(), UnrealValue::Flag(true)),
            ("AutoComputeLODs".to_string(), UnrealValue::Flag(true)),
            ("NumberOfLODs".to_string(), UnrealValue::Number(4)),
        ]
    );
    let doc = unreal_settings_document("s.flac", &t);
    assert_eq!(doc.section.as_deref(), Some("SoundSettings"));
    assert_eq!(
        doc.fields,
        vec![
            ("LoadingBehavior".to_string(), text("LoadOnDemand")),
            ("CompressionQuality".to_string(), UnrealValue::Number(80)),
        ]
    );
    match generate_meta("x.txt", &t) {
        Some(EngineExport::Unreal { path, document }) => {
            assert_eq!(path, "x.txt.json");
            assert!(document.section.is_none() && document.fields.is_empty());
        }
        other => panic!("unexpected export {:?}", other),
    }
}

#[test]
fn unknown_engine_has_no_metadata() {
    assert!(generate_meta("a.png", &target("bevy")).is_none());
}

#[test]
fn guids_and_uids_are_lowercase_hex() {
    for path in ["proj/hero.png", "", "日本/ü.wav"] {
        let g = generate_stable_guid(path);
        assert_eq!(g.len(), 32);
        assert!(g.chars().all(|c| c.is_ascii_digit() || ('a'..='f').contains(&c)));
        let u = generate_uid(path, 6);
        assert_eq!(u.len(), 6);
        assert!(u.chars().all(|c| c.is_ascii_digit() || ('a'..='f').contains(&c)));
    }
}

#[test]
fn one_sidecar_per_engine() {
    let path_of = |e: Option<EngineExport>| match e {
        Some(EngineExport::Text { path, .. }) => Some(path),
        Some(EngineExport::Unreal { path, .. }) => Some(path),
        None => None,
    };
    assert_eq!(path_of(generate_meta("/o/tex.png", &target("unity"))).as_deref(), Some("/o/tex.png.meta"));
    assert_eq!(path_of(generate_meta("/o/tex.png", &target("godot"))).as_deref(), Some("/o/tex.png.import"));
    assert_eq!(path_of(generate_meta("/o/tex.png", &target("unreal"))).as_deref(), Some("/o/tex.png.json"));
    assert_eq!(path_of(generate_meta("/o/notes.txt", &target("godot"))), None);
    assert_eq!(path_of(generate_meta("/o/tex.png", &target("cryengine"))), None);
}
