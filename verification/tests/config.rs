use rift::commands::{
    asset_marker, init_config, is_current_release, release_tag, run_id_prefix, run_marker,
    summarize_counts, AssetMarker, RunMarker,
};
use rift::config::{
    choose_config_path, default_audio_format, default_bitrate, default_max_dim,
    default_texture_format, default_true, discovery_candidates, AudioTargetConfig, HooksConfig,
    TextureTargetConfig,
};

#[test]
fn defaults() {
    assert!(default_true());
    assert_eq!(default_texture_format(), "png");
    assert_eq!(default_max_dim(), 2048);
    assert_eq!(default_audio_format(), "ogg");
    assert_eq!(default_bitrate(), "128k");
    let t = TextureTargetConfig::default();
    assert_eq!((t.format.as_str(), t.max_width, t.max_height, t.generate_mipmaps), ("png", 2048, 2048, false));
    let a = AudioTargetConfig::default();
    assert_eq!((a.format.as_str(), a.bitrate.as_str()), ("ogg", "128k"));
    let h = HooksConfig::default();
    assert!(h.pre_run.is_none() && h.post_run.is_none() && h.on_error.is_none());
}

#[test]
fn discovery_looks_in_ancestors() {
    let c = discovery_candidates(&vec!["/home/u/game".to_string(), "/home/u".to_string(), "/".to_string()]);
    assert_eq!(
        c,
        vec![
            "rift.yml", "rift.yaml", ".rift.yml",
            "/home/u/game/rift.yml", "/home/u/game/rift.yaml", "/home/u/game/.rift.yml",
            "/home/u/rift.yml", "/home/u/rift.yaml", "/home/u/.rift.yml",
            "/rift.yml", "/rift.yaml", "/.rift.yml",
        ]
    );
    let exists: Vec<bool> = c.iter().map(|p| p == "/home/u/.rift.yml" || p == "/rift.yml").collect();
    assert_eq!(choose_config_path(&c, &exists).unwrap(), "/home/u/.rift.yml");
    let none = vec![false; c.len()];
    assert_eq!(
        choose_config_path(&c, &none).unwrap_err().message(),
        "Config error: No rift.yml found in current or parent directories"
    );
}

#[test]
fn init_templates() {
    let c = init_config("unity");
    assert_eq!(c.targets.len(), 1);
    assert_eq!(c.targets[0].project, "Assets/Rift");
    assert_eq!(c.source.root, "raw-assets");
    assert_eq!(c.rules.len(), 11);
    assert_eq!(c.rules[7].pattern, "**/*.fbx");
    assert!(c.rules[7].validate);
    assert_eq!(init_config("godot").targets[0].project, "assets/rift");
    let u = init_config("unreal");
    assert_eq!(u.targets[0].project, "Content/Rift");
    assert_eq!(u.targets[0].textures.max_width, 4096);
    assert_eq!(u.targets[0].audio.format, "wav");
    let all = init_config("all");
    let engines: Vec<&str> = all.targets.iter().map(|t| t.engine.as_str()).collect();
    assert_eq!(engines, vec!["unity", "godot", "unreal"]);
    assert_eq!(all.targets[1].textures.max_width, 1024);
    assert_eq!(all.pipeline.name, "game-assets");
}

#[test]
fn status_summary() {
    let counts = vec![("ok".to_string(), 3), ("error".to_string(), 2), ("weird".to_string(), 1)];
    let s = summarize_counts(&counts);
    assert_eq!((s.total, s.ok, s.pending, s.errors), (6, 3, 0, 2));
    assert_eq!(asset_marker("ok"), AssetMarker::Converted);
    assert_eq!(asset_marker("error"), AssetMarker::Failed);
    assert_eq!(asset_marker("pending"), AssetMarker::Waiting);
    assert_eq!(run_marker("completed"), RunMarker::Completed);
    assert_eq!(run_marker("running"), RunMarker::Running);
    assert_eq!(run_marker("failed"), RunMarker::Failed);
    assert_eq!(run_marker("x"), RunMarker::Other);
    assert_eq!(run_id_prefix("0123456789abcdef"), "01234567");
}

#[test]
fn upgrade_check() {
    assert!(is_current_release("v0.1.0", "0.1.0"));
    assert!(is_current_release("0.1.0", "0.1.0"));
    assert!(is_current_release("vv0.1.0", "0.1.0"));
    assert!(!is_current_release("v0.2.0", "0.1.0"));
    assert_eq!(release_tag(Some("v1.0.0")), "v1.0.0");
    assert_eq!(release_tag(None), "unknown");
}

#[test]
fn test_init_creates_config() {
    let c = init_config("all");
    assert_eq!(rift::commands::CONFIG_FILE, "rift.yml");
    assert_eq!(c.source.root, "raw-assets");
    assert_eq!(rift::commands::STATE_DIR, ".rift");
}

#[test]
fn test_init_unity_engine() {
    let c = init_config("unity");
    assert!(c.targets.iter().any(|t| t.engine.contains("unity")));
    assert!(c.targets.iter().any(|t| t.project.contains("Assets/Rift")));
}

#[test]
fn test_init_godot_engine() {
    let c = init_config("godot");
    assert!(c.targets.iter().any(|t| t.engine.contains("godot")));
    assert!(c.targets.iter().any(|t| t.project.contains("assets/rift")));
}

#[test]
fn test_init_unreal_engine() {
    let c = init_config("unreal");
    assert!(c.targets.iter().any(|t| t.engine.contains("unreal")));
    assert!(c.targets.iter().any(|t| t.project.contains("Content/Rift")));
}

#[test]
fn test_run_fails_without_config() {
    let c = discovery_candidates(&vec!["/tmp/empty".to_string(), "/tmp".to_string(), "/".to_string()]);
    let none = vec![false; c.len()];
    let err = choose_config_path(&c, &none).unwrap_err();
    assert!(err.message().contains("No rift.yml found"));
}

#[test]
fn test_run_fails_without_source_root() {
    let err = rift::pipeline::missing_root_error("nonexistent");
    assert!(err.message().contains("does not exist"));
}
