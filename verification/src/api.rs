//! The replies of the embedded HTTP API, built from the asset store.
//! Serving them over HTTP is left to the program around the library.

use vstd::prelude::*;
use crate::db::{asset_views, error_views, run_views, count_status, has_key, spec_assets_page, spec_recent_errors, spec_recent_runs, AssetDb, AssetRecord, ErrorRecord, PipelineRun};

verus! {

/// The version the status reply reports.
pub const API_VERSION: &'static str = "0.1.0";

/// The name the status reply reports.
pub const API_NAME: &'static str = "Rift Pipeline Engine";

/// `GET /api/v1/status`: the engine's name and version, the asset counts by
/// status and the ten latest runs.
#[derive(Debug, Clone)]
pub struct StatusResponse {
    pub version: &'static str,
    pub name: &'static str,
    pub asset_counts: Vec<(String, u32)>,
    pub recent_runs: Vec<PipelineRun>,
}

/// `GET /api/v1/assets`: the first hundred assets and how many were listed.
#[derive(Debug, Clone)]
pub struct AssetListResponse {
    pub assets: Vec<AssetRecord>,
    pub total: usize,
}

/// `GET /api/v1/pipeline-runs`: the twenty latest runs.
#[derive(Debug, Clone)]
pub struct RunsResponse {
    pub runs: Vec<PipelineRun>,
}

/// `GET /api/v1/errors`: the hundred latest logged errors.
#[derive(Debug, Clone)]
pub struct ErrorsResponse {
    pub errors: Vec<ErrorRecord>,
}

/// The status reply.
pub fn status_response(db: &AssetDb) -> (res: StatusResponse)
    requires
        db@.assets.len() <= u32::MAX,
    ensures
        res.version@ == API_VERSION@,
        res.name@ == API_NAME@,
        forall|i: int| 0 <= i < res.asset_counts@.len() ==> #[trigger] res.asset_counts@[i].1 as nat == count_status(db@.assets, res.asset_counts@[i].0@),
        forall|i: int, j: int| 0 <= i < j < res.asset_counts@.len() ==> #[trigger] res.asset_counts@[i].0@ != #[trigger] res.asset_counts@[j].0@,
        forall|k: int| 0 <= k < db@.assets.len() ==> has_key(res.asset_counts@, #[trigger] db@.assets[k].status),
        run_views(res.recent_runs@) == spec_recent_runs(db@, 10),
{
    StatusResponse {
        version: API_VERSION,
        name: API_NAME,
        asset_counts: db.get_asset_counts(),
        recent_runs: db.get_recent_runs(10),
    }
}

/// The asset list reply.
pub fn asset_list_response(db: &AssetDb) -> (res: AssetListResponse)
    ensures
        asset_views(res.assets@) == spec_assets_page(db@, None, 100, 0),
        res.total == res.assets@.len(),
{
    let assets = db.get_assets(None, 100, 0);
    let total = assets.len();
    AssetListResponse { assets, total }
}

/// The pipeline runs reply.
pub fn runs_response(db: &AssetDb) -> (res: RunsResponse)
    ensures
        run_views(res.runs@) == spec_recent_runs(db@, 20),
{
    RunsResponse { runs: db.get_recent_runs(20) }
}

/// The errors reply.
pub fn errors_response(db: &AssetDb) -> (res: ErrorsResponse)
    ensures
        error_views(res.errors@) == spec_recent_errors(db@, 100),
{
    ErrorsResponse { errors: db.get_asset_errors(100) }
}

} // verus!
