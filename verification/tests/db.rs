use rift::db::{AssetDb, AssetRecord, ErrorRecord, PipelineRun};

fn statuses(db: &AssetDb) -> Vec<(String, u32)> {
    let mut c = db.get_asset_counts();
    c.sort();
    c
}

#[test]
fn new_asset_is_pending_and_needs_conversion() {
    let mut db = AssetDb::new();
    assert!(db.needs_conversion("a.png"));
    db.upsert_asset("a.png", "h1", "2024-01-01");
    assert!(db.needs_conversion("a.png"));
    assert_eq!(statuses(&db), vec![("pending".to_string(), 1)]);
}

#[test]
fn converted_unchanged_asset_is_skipped() {
    let mut db = AssetDb::new();
    db.upsert_asset("a.png", "h1", "t1");
    db.mark_converted_at("a.png", "2024-01-02T00:00:00+00:00");
    assert!(!db.needs_conversion("a.png"));
    // Same hash: status kept.
    db.upsert_asset("a.png", "h1", "t2");
    assert!(!db.needs_conversion("a.png"));
    let a = &db.get_assets(None, 10, 0)[0];
    assert_eq!(a.last_modified, "t2");
    assert_eq!(a.last_converted.as_deref(), Some("2024-01-02T00:00:00+00:00"));
    // Changed hash: pending again.
    db.upsert_asset("a.png", "h2", "t3");
    assert!(db.needs_conversion("a.png"));
    assert_eq!(db.get_assets(None, 10, 0)[0].status, "pending");
}

#[test]
fn failed_asset_needs_conversion_and_keeps_message() {
    let mut db = AssetDb::new();
    db.upsert_asset("m.fbx", "h", "t");
    db.mark_error("m.fbx", "bad header");
    assert!(db.needs_conversion("m.fbx"));
    let a = &db.get_assets(Some("error"), 10, 0)[0];
    assert_eq!(a.error_message.as_deref(), Some("bad header"));
    db.mark_converted_at("m.fbx", "now");
    let a = &db.get_assets(None, 10, 0)[0];
    assert_eq!(a.status, "ok");
    assert_eq!(a.error_message.as_deref(), Some("bad header"));
    // Marking an unknown asset changes nothing.
    db.mark_error("other", "x");
    assert_eq!(db.sizes(), (1, 0, 0));
}

#[test]
fn counts_by_status_add_up() {
    let mut db = AssetDb::new();
    for (i, p) in ["a", "b", "c", "d", "e"].iter().enumerate() {
        db.upsert_asset(p, &format!("h{}", i), "t");
    }
    db.mark_converted_at("a", "n");
    db.mark_converted_at("b", "n");
    db.mark_error("c", "oops");
    let c = statuses(&db);
    assert_eq!(
        c,
        vec![("error".to_string(), 1), ("ok".to_string(), 2), ("pending".to_string(), 2)]
    );
    assert_eq!(c.iter().map(|x| x.1).sum::<u32>(), 5);
}

#[test]
fn runs_are_created_completed_and_listed_latest_first() {
    let mut db = AssetDb::new();
    db.create_run_at("r1", "2024-01-01T00:00:00+00:00").unwrap();
    db.create_run_at("r2", "2024-03-01T00:00:00+00:00").unwrap();
    db.create_run_at("r3", "2024-02-01T00:00:00+00:00").unwrap();
    let e = db.create_run_at("r2", "2024-04-01T00:00:00+00:00").unwrap_err();
    assert_eq!(e.message(), "Database error: UNIQUE constraint failed: pipeline_runs.id");
    db.complete_run("r3", 4, 1);
    let runs = db.get_recent_runs(10);
    let ids: Vec<&str> = runs.iter().map(|r| r.id.as_str()).collect();
    assert_eq!(ids, vec!["r2", "r3", "r1"]);
    assert_eq!(runs[1].status, "completed");
    assert_eq!((runs[1].converted, runs[1].errors), (4, 1));
    assert_eq!(runs[0].status, "running");
    assert_eq!(db.get_recent_runs(2).len(), 2);
    assert_eq!(db.get_recent_runs(0).len(), 0);
}

#[test]
fn equal_timestamps_keep_stored_order() {
    let mut db = AssetDb::new();
    db.create_run_at("x", "same").unwrap();
    db.create_run_at("y", "same").unwrap();
    db.create_run_at("z", "later").unwrap();
    let ids: Vec<String> = db.get_recent_runs(5).into_iter().map(|r| r.id).collect();
    assert_eq!(ids, vec!["x", "y", "z"]);
}

#[test]
fn assets_page_filters_orders_and_skips() {
    let mut db = AssetDb::new();
    db.upsert_asset("a", "1", "2024-01-03");
    db.upsert_asset("b", "2", "2024-01-01");
    db.upsert_asset("c", "3", "2024-01-02");
    db.upsert_asset("d", "4", "2024-01-04");
    db.mark_converted_at("d", "n");
    let names = |v: Vec<AssetRecord>| v.into_iter().map(|a| a.relative_path).collect::<Vec<_>>();
    assert_eq!(names(db.get_assets(None, 10, 0)), vec!["d", "a", "c", "b"]);
    assert_eq!(names(db.get_assets(None, 2, 1)), vec!["a", "c"]);
    assert_eq!(names(db.get_assets(None, 2, 9)), Vec::<String>::new());
    assert_eq!(names(db.get_assets(Some("pending"), 10, 0)), vec!["a", "c", "b"]);
    assert_eq!(names(db.get_assets(Some("ok"), 10, 0)), vec!["d"]);
}

#[test]
fn errors_log_latest_first() {
    let mut db = AssetDb::new();
    db.log_error_at("r", "a", "conversion", "m1", "2024-01-01");
    db.log_error_at("r", "b", "validation", "m2", "2024-01-02");
    let e = db.get_asset_errors(100);
    assert_eq!(e.len(), 2);
    assert_eq!(e[0].relative_path, "b");
    assert_eq!(e[1].message, "m1");
    assert_eq!(db.get_asset_errors(1).len(), 1);
}

#[test]
fn from_rows_rejects_duplicate_keys() {
    let rec = |p: &str| AssetRecord {
        relative_path: p.to_string(),
        sha256: "h".to_string(),
        last_modified: "t".to_string(),
        last_converted: None,
        status: "ok".to_string(),
        error_message: None,
    };
    let run = |id: &str| PipelineRun {
        id: id.to_string(),
        timestamp: "t".to_string(),
        status: "running".to_string(),
        total_assets: 0,
        converted: 0,
        errors: 0,
        summary: None,
    };
    let err = ErrorRecord {
        run_id: "r".to_string(),
        relative_path: "a".to_string(),
        error_type: "x".to_string(),
        message: "m".to_string(),
        timestamp: "t".to_string(),
    };
    let db = AssetDb::from_rows(vec![rec("a"), rec("b")], vec![run("r")], vec![err.clone()]).unwrap();
    assert_eq!(db.sizes(), (2, 1, 1));
    assert!(!db.needs_conversion("a"));
    let e = AssetDb::from_rows(vec![rec("a"), rec("a")], vec![], vec![]).err().unwrap();
    assert_eq!(e.message(), "Database error: UNIQUE constraint failed: assets.relative_path");
    assert!(AssetDb::from_rows(vec![], vec![run("r"), run("r")], vec![]).is_err());
}

#[test]
fn hash_file_is_sha256_hex() {
    assert_eq!(
        AssetDb::hash_file(b"abc"),
        "ba7816bf8f01cfea414140de5dae2223b00361a396177a9cb410ff61f20015ad"
    );
    assert_eq!(AssetDb::hash_file(b"").len(), 64);
}
