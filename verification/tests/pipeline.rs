use rift::config::{HooksConfig, PipelineConfig, RuleConfig};
use rift::commands::init_config;
use rift::db::AssetDb;
use rift::error::RiftError;
use rift::pipeline::glob_rules::{match_rule, rule_matches};
use rift::pipeline::{
    asset_outcome, asset_result, convert_kind, convert_label, count_results, missing_root_error, new_run_id,
    post_run_hook, pre_run_hook, steps_outcome, target_action, target_output, TargetAction, AssetResult, ConvertKind, Runner, WatchAction, WatchEvent, WatchState, Watcher,
};

fn rule(pattern: &str, convert: Option<&str>) -> RuleConfig {
    RuleConfig {
        pattern: pattern.to_string(),
        convert: convert.map(|s| s.to_string()),
        validate: false,
        remove_original: false,
        parameters: None,
    }
}

fn config_with_hooks() -> PipelineConfig {
    let mut c = init_config("unity");
    c.hooks = HooksConfig {
        pre_run: Some("echo pre".to_string()),
        post_run: Some("echo post".to_string()),
        on_error: Some("echo err".to_string()),
    };
    c
}

#[test]
fn rules_match_first_pattern() {
    let rules = vec![rule("**/*.png", Some("textures")), rule("*", Some("copy")), rule("**/*.wav", Some("audio"))];
    assert_eq!(match_rule(&rules, "ui/icon.png"), Some(0));
    assert_eq!(match_rule(&rules, "icon.png"), Some(0));
    assert_eq!(match_rule(&rules, "readme.txt"), Some(1));
    // With the default match options `*` also crosses `/`.
    assert_eq!(match_rule(&rules, "sfx/boom.wav"), Some(1));
    assert_eq!(match_rule(&vec![rules[0].clone(), rules[2].clone()], "sfx/boom.wav"), Some(1));
    assert_eq!(match_rule(&rules[2..].to_vec(), "sfx/boom.mp3"), None);
    // An invalid pattern never matches.
    assert!(!rule_matches(&rule("[", None), "["));
    assert!(rule_matches(&rule("a?c", None), "abc"));
}

#[test]
fn convert_kinds() {
    assert_eq!(convert_kind(&rule("x", Some("textures"))), ConvertKind::Textures);
    assert_eq!(convert_kind(&rule("x", Some("audio"))), ConvertKind::Audio);
    assert_eq!(convert_kind(&rule("x", Some("models"))), ConvertKind::Models);
    assert_eq!(convert_kind(&rule("x", Some("meshes"))), ConvertKind::Copy);
    assert_eq!(convert_kind(&rule("x", None)), ConvertKind::Copy);
    assert_eq!(convert_label(&rule("x", None)), "copy");
}

#[test]
fn outputs_and_outcomes() {
    let c = init_config("godot");
    assert_eq!(target_output(&c.targets[0], "models/ship.fbx"), "assets/rift/models/ship.fbx");
    let ok = asset_outcome("a.png", Ok(vec!["out/a.png".to_string()]));
    assert!(ok.success && ok.error.is_none() && ok.output_paths == vec!["out/a.png".to_string()]);
    let bad = asset_outcome("m.fbx", Err(RiftError::Validation("FBX file is empty: m.fbx".to_string())));
    assert!(!bad.success && bad.output_paths.is_empty());
    assert_eq!(bad.error.as_deref(), Some("Validation error: FBX file is empty: m.fbx"));
    assert_eq!(missing_root_error("raw").message(), "Pipeline error: Source root does not exist: raw");
}

#[test]
fn hooks_follow_the_outcome() {
    let c = config_with_hooks();
    assert_eq!(pre_run_hook(&c).unwrap().command, "echo pre");
    let h = post_run_hook(&c, 0).unwrap();
    assert_eq!((h.name, h.command.as_str()), ("post_run", "echo post"));
    let h = post_run_hook(&c, 3).unwrap();
    assert_eq!((h.name, h.command.as_str()), ("on_error", "echo err"));
    let plain = init_config("unity");
    assert!(pre_run_hook(&plain).is_none());
    assert!(post_run_hook(&plain, 1).is_none());
}

#[test]
fn a_run_records_its_results() {
    let c = config_with_hooks();
    let mut runner = Runner::new(AssetDb::new());
    runner.begin_run("run-1").unwrap();
    assert!(runner.begin_run("run-1").is_err());
    let j1 = runner.consider_file("raw/a.png", "a.png", 1, "h1", "t1", false);
    let j2 = runner.consider_file("raw/b.fbx", "b.fbx", 7, "h2", "t1", false);
    assert_eq!(j1.as_ref().map(|j| j.rule_index), Some(1));
    assert_eq!(j2.as_ref().map(|j| j.relative.as_str()), Some("b.fbx"));
    let results = vec![
        AssetResult { relative_path: "a.png".into(), success: true, output_paths: vec!["o/a.png".into()], error: None },
        AssetResult { relative_path: "b.fbx".into(), success: false, output_paths: vec![], error: None },
    ];
    let (counts, hook) = runner.finish_run_at("run-1", &c, &results, "2024-05-05");
    assert_eq!((counts.converted, counts.errors), (1, 1));
    assert_eq!(hook.unwrap().name, "on_error");
    let db = runner.store();
    assert!(!db.needs_conversion("a.png"));
    assert!(db.needs_conversion("b.fbx"));
    let failed = db.get_assets(Some("error"), 10, 0);
    assert_eq!(failed[0].error_message.as_deref(), Some("unknown error"));
    let logged = db.get_asset_errors(10);
    assert_eq!(logged.len(), 1);
    assert_eq!(
        (logged[0].run_id.as_str(), logged[0].relative_path.as_str(), logged[0].error_type.as_str(), logged[0].message.as_str(), logged[0].timestamp.as_str()),
        ("run-1", "b.fbx", "conversion", "unknown error", "2024-05-05")
    );
    let run = &db.get_recent_runs(1)[0];
    assert_eq!((run.status.as_str(), run.converted, run.errors), ("completed", 1, 1));
    // Second run: the unchanged, converted asset is skipped; the failed one is retried.
    assert!(runner.consider_file("raw/a.png", "a.png", 1, "h1", "t2", false).is_none());
    assert!(runner.consider_file("raw/b.fbx", "b.fbx", 7, "h2", "t2", false).is_some());
    // A clean run takes every file.
    assert!(runner.consider_file("raw/a.png", "a.png", 1, "h1", "t2", true).is_some());
    // A changed file is taken again.
    assert!(runner.consider_file("raw/a.png", "a.png", 1, "h9", "t3", false).is_some());
}

#[test]
fn an_empty_run_fires_post_run() {
    let c = config_with_hooks();
    let mut runner = Runner::new(AssetDb::new());
    runner.begin_run("r").unwrap();
    let hook = runner.finish_empty_run("r", &c);
    assert_eq!(hook.unwrap().name, "post_run");
    let db = runner.into_store();
    let run = &db.get_recent_runs(1)[0];
    assert_eq!((run.status.as_str(), run.converted, run.errors), ("completed", 0, 0));
}

#[test]
fn results_are_counted() {
    let r = |ok: bool| AssetResult { relative_path: "x".into(), success: ok, output_paths: vec![], error: None };
    let counts = count_results(&vec![r(true), r(false), r(true), r(true)]);
    assert_eq!((counts.converted, counts.errors), (3, 1));
}

#[test]
fn watcher_debounces_and_ids_are_uuids() {
    assert!(!Watcher::should_run(499));
    assert!(Watcher::should_run(500));
    let id = new_run_id();
    assert_eq!(id.len(), 36);
    for (i, c) in id.chars().enumerate() {
        if [8, 13, 18, 23].contains(&i) {
            assert_eq!(c, '-');
        } else {
            assert!(c.is_ascii_digit() || ('a'..='f').contains(&c));
        }
    }
    assert_ne!(id, new_run_id());
    assert_eq!(rift::commands::run_id_prefix(&id), &id[..8]);
    let mut w = Watcher::new(Runner::new(AssetDb::new()));
    assert!(w.runner_mut().begin_run("w").is_ok());
}

#[test]
fn steps_give_one_output_per_target_or_the_first_error() {
    let ok = steps_outcome(vec![Ok("u/a.png".to_string()), Ok("g/a.png".to_string()), Ok("r/a.png".to_string())]);
    assert_eq!(ok.unwrap(), vec!["u/a.png", "g/a.png", "r/a.png"]);
    let failed = steps_outcome(vec![
        Ok("u/a.png".to_string()),
        Err(RiftError::Io("disk full".to_string())),
        Err(RiftError::Io("later".to_string())),
    ]);
    assert_eq!(failed.unwrap_err().message(), "IO error: disk full");
    let r = asset_outcome("a.png", steps_outcome(vec![Ok("u/a.png".to_string())]));
    assert!(r.success && r.output_paths == vec!["u/a.png".to_string()]);
    assert!(steps_outcome(vec![]).unwrap().is_empty());
}

#[test]
fn watch_runs_at_start_then_debounces() {
    let s = WatchState::new();
    assert_eq!(s.deadline(), None);
    let (s, a) = s.step(WatchEvent::Started);
    assert_eq!(a, WatchAction::Run);
    let (s, a) = s.step(WatchEvent::RunFinished { at_millis: 1000 });
    assert_eq!((s.last_run_end, s.pending, a), (Some(1000), false, WatchAction::Wait));
    assert_eq!(s.step(WatchEvent::Changed { at_millis: 1500 }).1, WatchAction::Run);
    assert_eq!(s.step(WatchEvent::Tick { at_millis: 5000 }).1, WatchAction::Wait);
    // A change too soon after a run is kept, not lost.
    let (s, a) = s.step(WatchEvent::Changed { at_millis: 1100 });
    assert_eq!((a, s.pending, s.deadline()), (WatchAction::Wait, true, Some(1500)));
    let (s, a) = s.step(WatchEvent::Changed { at_millis: 1200 });
    assert_eq!((a, s.deadline()), (WatchAction::Wait, Some(1500)));
    let (s, a) = s.step(WatchEvent::Tick { at_millis: 1499 });
    assert_eq!((a, s.pending), (WatchAction::Wait, true));
    let (s, a) = s.step(WatchEvent::Tick { at_millis: 1500 });
    assert_eq!((a, s.pending, s.deadline()), (WatchAction::Run, false, None));
    let (s, _) = s.step(WatchEvent::RunFinished { at_millis: u64::MAX - 10 });
    let (s, _) = s.step(WatchEvent::Changed { at_millis: u64::MAX - 5 });
    assert_eq!(s.deadline(), Some(u64::MAX));
}

#[test]
fn target_actions_follow_the_rule() {
    let mut r = rule("**/*.fbx", Some("models"));
    assert_eq!(target_action(&r), TargetAction::CopyModel { validate: false });
    r.validate = true;
    assert_eq!(target_action(&r), TargetAction::CopyModel { validate: true });
    assert_eq!(target_action(&rule("a", Some("textures"))), TargetAction::ConvertTexture);
    assert_eq!(target_action(&rule("a", Some("audio"))), TargetAction::ConvertAudio);
    assert_eq!(target_action(&rule("a", None)), TargetAction::Copy);
    assert_eq!(target_action(&rule("a", Some("other"))), TargetAction::Copy);
}

#[test]
fn asset_results_from_steps() {
    let r = asset_result("a.png", vec![Ok("u/a.png".to_string()), Ok("g/a.png".to_string())]);
    assert!(r.success && r.error.is_none());
    assert_eq!(r.relative_path, "a.png");
    assert_eq!(r.output_paths, vec!["u/a.png", "g/a.png"]);
    let r = asset_result("a.png", vec![Ok("u/a.png".to_string()), Err(RiftError::Validation("bad".to_string()))]);
    assert!(!r.success && r.output_paths.is_empty());
    assert_eq!(r.error.as_deref(), Some("Validation error: bad"));
}
