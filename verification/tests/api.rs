use rift::api::{asset_list_response, errors_response, runs_response, status_response};
use rift::db::AssetDb;

#[test]
fn api_replies() {
    let mut db = AssetDb::new();
    for i in 0..120 {
        db.upsert_asset(&format!("a{:03}", i), "h", &format!("t{:03}", i));
    }
    for i in 0..25 {
        db.create_run_at(&format!("r{:02}", i), &format!("2024-01-{:02}", i + 1)).unwrap();
    }
    db.log_error_at("r00", "a000", "conversion", "boom", "2024-02-01");
    let s = status_response(&db);
    assert_eq!((s.version, s.name), ("0.1.0", "Rift Pipeline Engine"));
    assert_eq!(s.asset_counts, vec![("pending".to_string(), 120)]);
    assert_eq!(s.recent_runs.len(), 10);
    assert_eq!(s.recent_runs[0].id, "r24");
    let a = asset_list_response(&db);
    assert_eq!(a.total, 100);
    assert_eq!(a.assets[0].relative_path, "a119");
    assert_eq!(runs_response(&db).runs.len(), 20);
    assert_eq!(errors_response(&db).errors[0].message, "boom");
}
