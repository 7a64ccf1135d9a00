//! The asset state store: which source assets are known, their content
//! hashes and conversion status, the pipeline runs and the errors logged.
//!
//! Its three tables behave as the SQL tables `assets` (keyed by relative
//! path), `pipeline_runs` (keyed by run id) and `asset_errors` (append
//! only) with the statements that act on them; keeping them on disk is left
//! to the program that uses the store.

use vstd::prelude::*;
use crate::clock::now_rfc3339;
use crate::digest::{is_lower_hex, sha256_hex, spec_sha256_hex};
use crate::error::RiftError;
use crate::order::{as_ints, char_vec_views, desc_order, is_desc_order, lemma_desc_order, order_desc};
use crate::text::{chars_of, str_eq, to_owned_string};

verus! {

/// One tracked source asset.
#[derive(Debug, Clone)]
pub struct AssetRecord {
    pub relative_path: String,
    pub sha256: String,
    pub last_modified: String,
    pub last_converted: Option<String>,
    pub status: String,
    pub error_message: Option<String>,
}

/// One pipeline run.
#[derive(Debug, Clone)]
pub struct PipelineRun {
    pub id: String,
    pub timestamp: String,
    pub status: String,
    pub total_assets: u32,
    pub converted: u32,
    pub errors: u32,
    pub summary: Option<String>,
}

/// One logged asset error.
#[derive(Debug, Clone)]
pub struct ErrorRecord {
    pub run_id: String,
    pub relative_path: String,
    pub error_type: String,
    pub message: String,
    pub timestamp: String,
}

/// The view of an optional string.
pub open spec fn opt_view(o: Option<String>) -> Option<Seq<char>> {
    match o {
        Some(s) => Some(s@),
        None => None,
    }
}

/// An asset record as text values.
pub struct AssetView {
    pub relative_path: Seq<char>,
    pub sha256: Seq<char>,
    pub last_modified: Seq<char>,
    pub last_converted: Option<Seq<char>>,
    pub status: Seq<char>,
    pub error_message: Option<Seq<char>>,
}

/// A pipeline run as text values.
pub struct RunView {
    pub id: Seq<char>,
    pub timestamp: Seq<char>,
    pub status: Seq<char>,
    pub total_assets: u32,
    pub converted: u32,
    pub errors: u32,
    pub summary: Option<Seq<char>>,
}

/// A logged error as text values.
pub struct ErrorView {
    pub run_id: Seq<char>,
    pub relative_path: Seq<char>,
    pub error_type: Seq<char>,
    pub message: Seq<char>,
    pub timestamp: Seq<char>,
}

impl View for AssetRecord {
    type V = AssetView;

    open spec fn view(&self) -> AssetView {
        AssetView {
            relative_path: self.relative_path@,
            sha256: self.sha256@,
            last_modified: self.last_modified@,
            last_converted: opt_view(self.last_converted),
            status: self.status@,
            error_message: opt_view(self.error_message),
        }
    }
}

impl View for PipelineRun {
    type V = RunView;

    open spec fn view(&self) -> RunView {
        RunView {
            id: self.id@,
            timestamp: self.timestamp@,
            status: self.status@,
            total_assets: self.total_assets,
            converted: self.converted,
            errors: self.errors,
            summary: opt_view(self.summary),
        }
    }
}

impl View for ErrorRecord {
    type V = ErrorView;

    open spec fn view(&self) -> ErrorView {
        ErrorView {
            run_id: self.run_id@,
            relative_path: self.relative_path@,
            error_type: self.error_type@,
            message: self.message@,
            timestamp: self.timestamp@,
        }
    }
}

fn copy_opt(o: &Option<String>) -> (res: Option<String>)
    ensures
        opt_view(res) == opt_view(*o),
{
    match o {
        Some(s) => Some(s.clone()),
        None => None,
    }
}

impl AssetRecord {
    /// A copy of this record.
    pub fn duplicate(&self) -> (res: AssetRecord)
        ensures
            res@ == self@,
    {
        AssetRecord {
            relative_path: self.relative_path.clone(),
            sha256: self.sha256.clone(),
            last_modified: self.last_modified.clone(),
            last_converted: copy_opt(&self.last_converted),
            status: self.status.clone(),
            error_message: copy_opt(&self.error_message),
        }
    }
}

impl PipelineRun {
    /// A copy of this run.
    pub fn duplicate(&self) -> (res: PipelineRun)
        ensures
            res@ == self@,
    {
        PipelineRun {
            id: self.id.clone(),
            timestamp: self.timestamp.clone(),
            status: self.status.clone(),
            total_assets: self.total_assets,
            converted: self.converted,
            errors: self.errors,
            summary: copy_opt(&self.summary),
        }
    }
}

impl ErrorRecord {
    /// A copy of this record.
    pub fn duplicate(&self) -> (res: ErrorRecord)
        ensures
            res@ == self@,
    {
        ErrorRecord {
            run_id: self.run_id.clone(),
            relative_path: self.relative_path.clone(),
            error_type: self.error_type.clone(),
            message: self.message.clone(),
            timestamp: self.timestamp.clone(),
        }
    }
}

/// The store's three tables.
pub struct DbView {
    pub assets: Seq<AssetView>,
    pub runs: Seq<RunView>,
    pub errors: Seq<ErrorView>,
}

/// The asset state store.
pub struct AssetDb {
    assets: Vec<AssetRecord>,
    runs: Vec<PipelineRun>,
    errors: Vec<ErrorRecord>,
}

impl View for AssetDb {
    type V = DbView;

    closed spec fn view(&self) -> DbView {
        DbView {
            assets: self.assets@.map_values(|a: AssetRecord| a@),
            runs: self.runs@.map_values(|r: PipelineRun| r@),
            errors: self.errors@.map_values(|e: ErrorRecord| e@),
        }
    }
}

// ---------------------------------------------------------------------------
// The tables' meaning
// ---------------------------------------------------------------------------

/// No two assets share a relative path.
pub open spec fn unique_paths(assets: Seq<AssetView>) -> bool {
    forall|i: int, j: int|
        0 <= i < j < assets.len() ==> #[trigger] assets[i].relative_path
            != #[trigger] assets[j].relative_path
}

/// No two runs share an id.
pub open spec fn unique_ids(runs: Seq<RunView>) -> bool {
    forall|i: int, j: int| 0 <= i < j < runs.len() ==> #[trigger] runs[i].id != #[trigger] runs[j].id
}

/// The tables' keys are unique.
pub open spec fn db_wf(db: DbView) -> bool {
    unique_paths(db.assets) && unique_ids(db.runs)
}

/// Where the asset with this path is, or -1.
pub open spec fn asset_index(assets: Seq<AssetView>, path: Seq<char>) -> int
    decreases assets.len(),
{
    if assets.len() == 0 {
        -1
    } else if asset_index(assets.drop_last(), path) >= 0 {
        asset_index(assets.drop_last(), path)
    } else if assets.last().relative_path == path {
        assets.len() - 1
    } else {
        -1
    }
}

/// Where the run with this id is, or -1.
pub open spec fn run_index(runs: Seq<RunView>, id: Seq<char>) -> int
    decreases runs.len(),
{
    if runs.len() == 0 {
        -1
    } else if run_index(runs.drop_last(), id) >= 0 {
        run_index(runs.drop_last(), id)
    } else if runs.last().id == id {
        runs.len() - 1
    } else {
        -1
    }
}

pub proof fn lemma_asset_index(assets: Seq<AssetView>, path: Seq<char>)
    ensures
        -1 <= asset_index(assets, path) < assets.len(),
        asset_index(assets, path) >= 0 ==> assets[asset_index(assets, path)].relative_path == path,
        asset_index(assets, path) == -1 ==> forall|j: int|
            0 <= j < assets.len() ==> #[trigger] assets[j].relative_path != path,
        asset_index(assets, path) >= 0 ==> forall|j: int|
            0 <= j < asset_index(assets, path) ==> #[trigger] assets[j].relative_path != path,
    decreases assets.len(),
{
    if assets.len() > 0 {
        let d = assets.drop_last();
        lemma_asset_index(d, path);
        let r = asset_index(assets, path);
        assert forall|j: int|
            0 <= j < assets.len() && (r == -1 || j < r) implies #[trigger] assets[j].relative_path
            != path by {
            if j < assets.len() - 1 {
                assert(d[j] == assets[j]);
            }
        }
    }
}

pub proof fn lemma_run_index(runs: Seq<RunView>, id: Seq<char>)
    ensures
        -1 <= run_index(runs, id) < runs.len(),
        run_index(runs, id) >= 0 ==> runs[run_index(runs, id)].id == id,
        run_index(runs, id) == -1 ==> forall|j: int| 0 <= j < runs.len() ==> #[trigger] runs[j].id != id,
        run_index(runs, id) >= 0 ==> forall|j: int|
            0 <= j < run_index(runs, id) ==> #[trigger] runs[j].id != id,
    decreases runs.len(),
{
    if runs.len() > 0 {
        let d = runs.drop_last();
        lemma_run_index(d, id);
        let r = run_index(runs, id);
        assert forall|j: int| 0 <= j < runs.len() && (r == -1 || j < r) implies #[trigger] runs[j].id != id by {
            if j < runs.len() - 1 {
                assert(d[j] == runs[j]);
            }
        }
    }
}

/// The status of a new or changed asset.
pub open spec fn pending() -> Seq<char> {
    "pending"@
}

/// The tables after recording an asset's current hash and modification
/// time (an upsert on the relative path): a new asset is added as pending;
/// a known asset gets the new hash and time, and becomes pending when its
/// hash changed (otherwise its status is kept).
pub open spec fn spec_upsert(db: DbView, path: Seq<char>, sha: Seq<char>, modified: Seq<char>) -> DbView {
    let i = asset_index(db.assets, path);
    if i >= 0 {
        let a = db.assets[i];
        DbView {
            assets: db.assets.update(
                i,
                AssetView {
                    sha256: sha,
                    last_modified: modified,
                    status: if a.sha256 != sha {
                        pending()
                    } else {
                        a.status
                    },
                    ..a
                },
            ),
            ..db
        }
    } else {
        DbView {
            assets: db.assets.push(
                AssetView {
                    relative_path: path,
                    sha256: sha,
                    last_modified: modified,
                    last_converted: None,
                    status: pending(),
                    error_message: None,
                },
            ),
            ..db
        }
    }
}

/// The tables after marking an asset converted at time `now` (no change
/// when the asset is unknown). Its error message is kept.
pub open spec fn spec_mark_converted(db: DbView, path: Seq<char>, now: Seq<char>) -> DbView {
    let i = asset_index(db.assets, path);
    if i >= 0 {
        DbView {
            assets: db.assets.update(
                i,
                AssetView { status: "ok"@, last_converted: Some(now), ..db.assets[i] },
            ),
            ..db
        }
    } else {
        db
    }
}

/// The tables after marking an asset failed with a message (no change when
/// the asset is unknown).
pub open spec fn spec_mark_error(db: DbView, path: Seq<char>, message: Seq<char>) -> DbView {
    let i = asset_index(db.assets, path);
    if i >= 0 {
        DbView {
            assets: db.assets.update(
                i,
                AssetView { status: "error"@, error_message: Some(message), ..db.assets[i] },
            ),
            ..db
        }
    } else {
        db
    }
}

/// Whether an asset must be converted: it is unknown, pending or failed.
pub open spec fn spec_needs_conversion(db: DbView, path: Seq<char>) -> bool {
    let i = asset_index(db.assets, path);
    i < 0 || db.assets[i].status == pending() || db.assets[i].status == "error"@
}

/// The tables after starting a run with this id at time `now`.
pub open spec fn spec_create_run(db: DbView, id: Seq<char>, now: Seq<char>) -> DbView {
    DbView {
        runs: db.runs.push(
            RunView {
                id: id,
                timestamp: now,
                status: "running"@,
                total_assets: 0,
                converted: 0,
                errors: 0,
                summary: None,
            },
        ),
        ..db
    }
}

/// The tables after completing a run with its counts (no change when the
/// run is unknown).
pub open spec fn spec_complete_run(db: DbView, id: Seq<char>, converted: u32, errors: u32) -> DbView {
    let i = run_index(db.runs, id);
    if i >= 0 {
        DbView {
            runs: db.runs.update(
                i,
                RunView { status: "completed"@, converted: converted, errors: errors, ..db.runs[i] },
            ),
            ..db
        }
    } else {
        db
    }
}

/// The number of assets with a status.
pub open spec fn count_status(assets: Seq<AssetView>, status: Seq<char>) -> nat
    decreases assets.len(),
{
    if assets.len() == 0 {
        0
    } else {
        count_status(assets.drop_last(), status) + if assets.last().status == status {
            1nat
        } else {
            0nat
        }
    }
}

/// The assets with a status, in stored order.
pub open spec fn with_status(assets: Seq<AssetView>, status: Seq<char>) -> Seq<AssetView>
    decreases assets.len(),
{
    if assets.len() == 0 {
        Seq::empty()
    } else if assets.last().status == status {
        with_status(assets.drop_last(), status).push(assets.last())
    } else {
        with_status(assets.drop_last(), status)
    }
}

/// The smaller of two numbers.
pub open spec fn min_nat(a: nat, b: nat) -> nat {
    if a <= b {
        a
    } else {
        b
    }
}

/// Rows listed in a given order, from position `offset`, at most `limit` of them.
pub open spec fn page<T>(rows: Seq<T>, order: Seq<int>, offset: nat, limit: nat) -> Seq<T> {
    let from = min_nat(offset, order.len());
    let to = from + min_nat(limit, (order.len() - from) as nat);
    order.subrange(from as int, to as int).map_values(|i: int| rows[i])
}

/// The runs' timestamps.
pub open spec fn run_keys(runs: Seq<RunView>) -> Seq<Seq<char>> {
    runs.map_values(|r: RunView| r.timestamp)
}

/// The logged errors' timestamps.
pub open spec fn error_keys(errors: Seq<ErrorView>) -> Seq<Seq<char>> {
    errors.map_values(|e: ErrorView| e.timestamp)
}

/// The assets' modification times.
pub open spec fn asset_keys(assets: Seq<AssetView>) -> Seq<Seq<char>> {
    assets.map_values(|a: AssetView| a.last_modified)
}

/// The views of a vector of runs.
pub open spec fn run_views(v: Seq<PipelineRun>) -> Seq<RunView> {
    v.map_values(|r: PipelineRun| r@)
}

/// The views of a vector of error records.
pub open spec fn error_views(v: Seq<ErrorRecord>) -> Seq<ErrorView> {
    v.map_values(|e: ErrorRecord| e@)
}

/// The views of a vector of asset records.
pub open spec fn asset_views(v: Seq<AssetRecord>) -> Seq<AssetView> {
    v.map_values(|a: AssetRecord| a@)
}

/// The runs, latest timestamp first, at most `limit` of them.
pub open spec fn spec_recent_runs(db: DbView, limit: nat) -> Seq<RunView> {
    page(db.runs, desc_order(run_keys(db.runs), db.runs.len()), 0, limit)
}

/// The logged errors, latest timestamp first, at most `limit` of them.
pub open spec fn spec_recent_errors(db: DbView, limit: nat) -> Seq<ErrorView> {
    page(db.errors, desc_order(error_keys(db.errors), db.errors.len()), 0, limit)
}

/// The assets with the given status, or all assets.
pub open spec fn filtered_assets(db: DbView, status: Option<Seq<char>>) -> Seq<AssetView> {
    match status {
        Some(s) => with_status(db.assets, s),
        None => db.assets,
    }
}

/// The assets (those with the given status, when one is given), latest
/// modification first, skipping `offset` of them and taking at most `limit`.
pub open spec fn spec_assets_page(db: DbView, status: Option<Seq<char>>, limit: nat, offset: nat) -> Seq<AssetView> {
    let rows = filtered_assets(db, status);
    page(rows, desc_order(asset_keys(rows), rows.len()), offset, limit)
}

/// Some pair has this key.
pub open spec fn has_key(r: Seq<(String, u32)>, s: Seq<char>) -> bool {
    exists|i: int| 0 <= i < r.len() && r[i].0@ == s
}

proof fn lemma_has_key_kept(before: Seq<(String, u32)>, after: Seq<(String, u32)>)
    requires
        before.len() <= after.len(),
        forall|i: int| 0 <= i < before.len() ==> #[trigger] after[i].0@ == before[i].0@,
    ensures
        forall|s: Seq<char>| has_key(before, s) ==> #[trigger] has_key(after, s),
{
    assert forall|s: Seq<char>| has_key(before, s) implies #[trigger] has_key(after, s) by {
        let i = choose|i: int| 0 <= i < before.len() && before[i].0@ == s;
        assert(after[i].0@ == s);
    }
}

/// A status no asset has is counted zero times.
pub proof fn lemma_count_absent(assets: Seq<AssetView>, status: Seq<char>)
    requires
        forall|i: int| 0 <= i < assets.len() ==> #[trigger] assets[i].status != status,
    ensures
        count_status(assets, status) == 0,
    decreases assets.len(),
{
    if assets.len() > 0 {
        let d = assets.drop_last();
        assert forall|i: int| 0 <= i < d.len() implies #[trigger] d[i].status != status by {
            assert(d[i] == assets[i]);
        }
        lemma_count_absent(d, status);
    }
}

// ---------------------------------------------------------------------------
// The store
// ---------------------------------------------------------------------------

impl AssetDb {
    /// The tables' keys are unique.
    pub open spec fn wf(&self) -> bool {
        db_wf(self@)
    }

    /// An empty store.
    pub fn new() -> (res: AssetDb)
        ensures
            res.wf(),
            res@.assets.len() == 0,
            res@.runs.len() == 0,
            res@.errors.len() == 0,
    {
        let db = AssetDb { assets: Vec::new(), runs: Vec::new(), errors: Vec::new() };
        proof {
            assert(db@.assets =~= Seq::<AssetView>::empty());
            assert(db@.runs =~= Seq::<RunView>::empty());
        }
        db
    }

    /// Where the asset with this path is stored.
    fn find_asset(&self, path: &str) -> (res: Option<usize>)
        ensures
            match res {
                Some(i) => i as int == asset_index(self@.assets, path@),
                None => asset_index(self@.assets, path@) == -1,
            },
    {
        proof {
            lemma_asset_index(self@.assets, path@);
        }
        let n = self.assets.len();
        for i in 0..n
            invariant
                n == self.assets@.len(),
                n == self@.assets.len(),
                forall|j: int| 0 <= j < i ==> #[trigger] self@.assets[j].relative_path != path@,
        {
            if str_eq(self.assets[i].relative_path.as_str(), path) {
                proof {
                    lemma_asset_index(self@.assets, path@);
                    assert(self@.assets[i as int].relative_path == path@);
                }
                return Some(i);
            }
        }
        None
    }

    /// Where the run with this id is stored.
    fn find_run(&self, id: &str) -> (res: Option<usize>)
        ensures
            match res {
                Some(i) => i as int == run_index(self@.runs, id@),
                None => run_index(self@.runs, id@) == -1,
            },
    {
        proof {
            lemma_run_index(self@.runs, id@);
        }
        let n = self.runs.len();
        for i in 0..n
            invariant
                n == self.runs@.len(),
                n == self@.runs.len(),
                forall|j: int| 0 <= j < i ==> #[trigger] self@.runs[j].id != id@,
        {
            if str_eq(self.runs[i].id.as_str(), id) {
                proof {
                    lemma_run_index(self@.runs, id@);
                    assert(self@.runs[i as int].id == id@);
                }
                return Some(i);
            }
        }
        None
    }

    /// Records an asset's current hash and modification time.
    pub fn upsert_asset(&mut self, path: &str, sha256: &str, last_modified: &str)
        requires
            old(self).wf(),
        ensures
            final(self).wf(),
            final(self)@ == spec_upsert(old(self)@, path@, sha256@, last_modified@),
    {
        let ghost before = self@;
        proof {
            lemma_asset_index(before.assets, path@);
        }
        match self.find_asset(path) {
            Some(i) => {
                let old_rec = self.assets[i].duplicate();
                let same_hash = str_eq(old_rec.sha256.as_str(), sha256);
                let status = if same_hash {
                    old_rec.status.clone()
                } else {
                    to_owned_string("pending")
                };
                let rec = AssetRecord {
                    relative_path: old_rec.relative_path,
                    sha256: to_owned_string(sha256),
                    last_modified: to_owned_string(last_modified),
                    last_converted: old_rec.last_converted,
                    status,
                    error_message: old_rec.error_message,
                };
                self.assets.set(i, rec);
                proof {
                    assert(self@.assets =~= spec_upsert(before, path@, sha256@, last_modified@).assets);
                    assert(self@.runs =~= before.runs);
                    assert(self@.errors =~= before.errors);
                }
            },
            None => {
                let rec = AssetRecord {
                    relative_path: to_owned_string(path),
                    sha256: to_owned_string(sha256),
                    last_modified: to_owned_string(last_modified),
                    last_converted: None,
                    status: to_owned_string("pending"),
                    error_message: None,
                };
                self.assets.push(rec);
                proof {
                    assert(self@.assets =~= spec_upsert(before, path@, sha256@, last_modified@).assets);
                    assert(self@.runs =~= before.runs);
                    assert(self@.errors =~= before.errors);
                }
            },
        }
    }

    /// Marks an asset converted at time `now`.
    pub fn mark_converted_at(&mut self, path: &str, now: &str)
        requires
            old(self).wf(),
        ensures
            final(self).wf(),
            final(self)@ == spec_mark_converted(old(self)@, path@, now@),
    {
        let ghost before = self@;
        proof {
            lemma_asset_index(before.assets, path@);
        }
        if let Some(i) = self.find_asset(path) {
            let old_rec = self.assets[i].duplicate();
            let rec = AssetRecord {
                last_converted: Some(to_owned_string(now)),
                status: to_owned_string("ok"),
                ..old_rec
            };
            self.assets.set(i, rec);
            proof {
                assert(self@.assets =~= spec_mark_converted(before, path@, now@).assets);
                assert(self@.runs =~= before.runs);
                assert(self@.errors =~= before.errors);
            }
        }
    }

    /// Marks an asset converted now.
    pub fn mark_converted(&mut self, path: &str)
        requires
            old(self).wf(),
        ensures
            final(self).wf(),
            exists|now: Seq<char>| final(self)@ == spec_mark_converted(old(self)@, path@, now),
    {
        let now = now_rfc3339();
        self.mark_converted_at(path, now.as_str());
    }

    /// Marks an asset failed with a message.
    pub fn mark_error(&mut self, path: &str, message: &str)
        requires
            old(self).wf(),
        ensures
            final(self).wf(),
            final(self)@ == spec_mark_error(old(self)@, path@, message@),
    {
        let ghost before = self@;
        proof {
            lemma_asset_index(before.assets, path@);
        }
        if let Some(i) = self.find_asset(path) {
            let old_rec = self.assets[i].duplicate();
            let rec = AssetRecord {
                status: to_owned_string("error"),
                error_message: Some(to_owned_string(message)),
                ..old_rec
            };
            self.assets.set(i, rec);
            proof {
                assert(self@.assets =~= spec_mark_error(before, path@, message@).assets);
                assert(self@.runs =~= before.runs);
                assert(self@.errors =~= before.errors);
            }
        }
    }

    /// Logs an asset error of a run at time `now`.
    pub fn log_error_at(&mut self, run_id: &str, path: &str, error_type: &str, message: &str, now: &str)
        requires
            old(self).wf(),
        ensures
            final(self).wf(),
            final(self)@.assets == old(self)@.assets,
            final(self)@.runs == old(self)@.runs,
            final(self)@.errors == old(self)@.errors.push(
                ErrorView {
                    run_id: run_id@,
                    relative_path: path@,
                    error_type: error_type@,
                    message: message@,
                    timestamp: now@,
                },
            ),
    {
        let ghost before = self@;
        self.errors.push(
            ErrorRecord {
                run_id: to_owned_string(run_id),
                relative_path: to_owned_string(path),
                error_type: to_owned_string(error_type),
                message: to_owned_string(message),
                timestamp: to_owned_string(now),
            },
        );
        proof {
            assert(self@.assets =~= before.assets);
            assert(self@.runs =~= before.runs);
        }
    }

    /// Logs an asset error of a run, stamped now.
    pub fn log_error(&mut self, run_id: &str, path: &str, error_type: &str, message: &str)
        requires
            old(self).wf(),
        ensures
            final(self).wf(),
            final(self)@.assets == old(self)@.assets,
            final(self)@.runs == old(self)@.runs,
            exists|now: Seq<char>|
                final(self)@.errors == old(self)@.errors.push(
                    ErrorView {
                        run_id: run_id@,
                        relative_path: path@,
                        error_type: error_type@,
                        message: message@,
                        timestamp: now,
                    },
                ),
    {
        let now = now_rfc3339();
        self.log_error_at(run_id, path, error_type, message, now.as_str());
    }

    /// Whether an asset must be converted: unknown, pending or failed.
    pub fn needs_conversion(&self, path: &str) -> (res: bool)
        ensures
            res == spec_needs_conversion(self@, path@),
    {
        proof {
            lemma_asset_index(self@.assets, path@);
        }
        match self.find_asset(path) {
            Some(i) => {
                let s = self.assets[i].status.as_str();
                str_eq(s, "pending") || str_eq(s, "error")
            },
            None => true,
        }
    }

    /// Starts a run with this id at time `now`; refused when the id is
    /// already used (the run table's key).
    pub fn create_run_at(&mut self, id: &str, now: &str) -> (res: Result<(), RiftError>)
        requires
            old(self).wf(),
        ensures
            final(self).wf(),
            match res {
                Ok(()) => run_index(old(self)@.runs, id@) == -1 && final(self)@ == spec_create_run(
                    old(self)@,
                    id@,
                    now@,
                ),
                Err(e) => run_index(old(self)@.runs, id@) >= 0 && final(self)@ == old(self)@
                    && (e matches RiftError::Database(m) && m@
                    == "UNIQUE constraint failed: pipeline_runs.id"@),
            },
    {
        let ghost before = self@;
        proof {
            lemma_run_index(before.runs, id@);
        }
        if self.find_run(id).is_some() {
            return Err(RiftError::Database(to_owned_string("UNIQUE constraint failed: pipeline_runs.id")));
        }
        self.runs.push(
            PipelineRun {
                id: to_owned_string(id),
                timestamp: to_owned_string(now),
                status: to_owned_string("running"),
                total_assets: 0,
                converted: 0,
                errors: 0,
                summary: None,
            },
        );
        proof {
            assert(self@.runs =~= spec_create_run(before, id@, now@).runs);
            assert(self@.assets =~= before.assets);
            assert(self@.errors =~= before.errors);
        }
        Ok(())
    }

    /// Starts a run with this id, stamped now.
    pub fn create_run(&mut self, id: &str) -> (res: Result<(), RiftError>)
        requires
            old(self).wf(),
        ensures
            final(self).wf(),
            match res {
                Ok(()) => run_index(old(self)@.runs, id@) == -1 && exists|now: Seq<char>|
                    final(self)@ == spec_create_run(old(self)@, id@, now),
                Err(e) => run_index(old(self)@.runs, id@) >= 0 && final(self)@ == old(self)@,
            },
    {
        let now = now_rfc3339();
        self.create_run_at(id, now.as_str())
    }

    /// Completes a run with its counts.
    pub fn complete_run(&mut self, id: &str, converted: u32, errors: u32)
        requires
            old(self).wf(),
        ensures
            final(self).wf(),
            final(self)@ == spec_complete_run(old(self)@, id@, converted, errors),
    {
        let ghost before = self@;
        proof {
            lemma_run_index(before.runs, id@);
        }
        if let Some(i) = self.find_run(id) {
            let old_run = self.runs[i].duplicate();
            let run = PipelineRun {
                status: to_owned_string("completed"),
                converted,
                errors,
                ..old_run
            };
            self.runs.set(i, run);
            proof {
                assert(self@.runs =~= spec_complete_run(before, id@, converted, errors).runs);
                assert(self@.assets =~= before.assets);
                assert(self@.errors =~= before.errors);
            }
        }
    }

    /// The number of stored assets, runs and logged errors.
    pub fn sizes(&self) -> (res: (usize, usize, usize))
        ensures
            res.0 == self@.assets.len(),
            res.1 == self@.runs.len(),
            res.2 == self@.errors.len(),
    {
        (self.assets.len(), self.runs.len(), self.errors.len())
    }

    /// The asset counts by status: each status that some asset has, once,
    /// with the number of assets that have it.
    pub fn get_asset_counts(&self) -> (res: Vec<(String, u32)>)
        requires
            self@.assets.len() <= u32::MAX,
        ensures
            forall|i: int| 0 <= i < res@.len() ==> #[trigger] res@[i].1 as nat == count_status(self@.assets, res@[i].0@) && res@[i].1 >= 1,
            forall|i: int, j: int| 0 <= i < j < res@.len() ==> #[trigger] res@[i].0@ != #[trigger] res@[j].0@,
            forall|k: int| 0 <= k < self@.assets.len() ==> has_key(res@, #[trigger] self@.assets[k].status),
    {
        let ghost all = self@.assets;
        let mut res: Vec<(String, u32)> = Vec::new();
        let n = self.assets.len();
        for k in 0..n
            invariant
                n == self.assets@.len(),
                all == self@.assets,
                n <= u32::MAX,
                forall|i: int| 0 <= i < res@.len() ==> #[trigger] res@[i].1 as nat == count_status(all.take(k as int), res@[i].0@) && res@[i].1 >= 1,
                forall|i: int, j: int| 0 <= i < j < res@.len() ==> #[trigger] res@[i].0@ != #[trigger] res@[j].0@,
                forall|m: int| 0 <= m < k ==> has_key(res@, #[trigger] all[m].status),
                forall|i: int| 0 <= i < res@.len() ==> #[trigger] res@[i].1 <= k,
        {
            let status = &self.assets[k].status;
            let ghost st = status@;
            proof {
                assert(all.take(k + 1).drop_last() =~= all.take(k as int));
                assert(all.take(k + 1).last() == all[k as int]);
                assert(all[k as int].status == st);
            }
            let mut found: Option<usize> = None;
            let m = res.len();
            for i in 0..m
                invariant
                    m == res@.len(),
                    st == status@,
                    found is None ==> forall|j: int| 0 <= j < i ==> #[trigger] res@[j].0@ != st,
                    found matches Some(f) ==> f < m && res@[f as int].0@ == st,
            {
                if found.is_none() && str_eq(res[i].0.as_str(), status.as_str()) {
                    found = Some(i);
                }
            }
            let ghost before = res@;
            match found {
                Some(f) => {
                    let c = res[f].1;
                    let name = res[f].0.clone();
                    res.set(f, (name, c + 1));
                    proof {
                        assert forall|i: int| 0 <= i < res@.len() implies #[trigger] res@[i].1 as nat == count_status(all.take(k + 1), res@[i].0@) && res@[i].1 >= 1 by {
                            if i != f {
                                assert(res@[i] == before[i]);
                                assert(before[i].0@ != st);
                            }
                        }
                        assert forall|i: int, j: int| 0 <= i < j < res@.len() implies #[trigger] res@[i].0@ != #[trigger] res@[j].0@ by {
                            assert(res@[i].0@ == before[i].0@);
                            assert(res@[j].0@ == before[j].0@);
                        }
                        lemma_has_key_kept(before, res@);
                        assert(has_key(res@, st)) by {
                            assert(res@[f as int].0@ == st);
                        }
                    }
                },
                None => {
                    res.push((status.clone(), 1));
                    proof {
                        assert forall|i: int| 0 <= i < res@.len() implies #[trigger] res@[i].1 as nat == count_status(all.take(k + 1), res@[i].0@) && res@[i].1 >= 1 by {
                            if i < before.len() {
                                assert(res@[i] == before[i]);
                                assert(before[i].0@ != st);
                            } else {
                                assert(count_status(all.take(k as int), st) == 0) by {
                                    assert forall|mm: int| 0 <= mm < all.take(k as int).len() implies #[trigger] all.take(k as int)[mm].status != st by {
                                        assert(all.take(k as int)[mm] == all[mm]);
                                        if all[mm].status == st {
                                            assert(has_key(before, st));
                                        }
                                    }
                                    lemma_count_absent(all.take(k as int), st);
                                }
                            }
                        }
                        lemma_has_key_kept(before, res@);
                        assert(has_key(res@, st)) by {
                            assert(res@[before.len() as int].0@ == st);
                        }
                    }
                },
            }
            proof {
                assert forall|mm: int| 0 <= mm < k + 1 implies has_key(res@, #[trigger] all[mm].status) by {
                    if mm < k {
                        assert(has_key(before, all[mm].status));
                    }
                }
            }
        }
        proof {
            assert(all.take(n as int) =~= all);
        }
        res
    }

    /// The runs, latest timestamp first, at most `limit` of them.
    pub fn get_recent_runs(&self, limit: u32) -> (res: Vec<PipelineRun>)
        ensures
            run_views(res@) == spec_recent_runs(self@, limit as nat),
    {
        let ghost rows = self@.runs;
        let mut keys: Vec<Vec<char>> = Vec::new();
        let n = self.runs.len();
        for i in 0..n
            invariant
                n == self.runs@.len(),
                rows == self@.runs,
                keys@.len() == i,
                forall|j: int| 0 <= j < i ==> #[trigger] keys@[j]@ == rows[j].timestamp,
        {
            let ts = self.runs[i].timestamp.as_str();
            let kc = chars_of(ts);
            proof {
                assert(rows[i as int].timestamp == self.runs@[i as int].timestamp@);
            }
            keys.push(kc);
        }
        proof {
            assert(char_vec_views(keys@) =~= run_keys(rows));
        }
        let order = order_desc(&keys);
        proof {
            lemma_desc_order(run_keys(rows), n as nat);
        }
        let ghost o = as_ints(order@);
        let to = if (limit as usize) < n {
            limit as usize
        } else {
            n
        };
        let mut res: Vec<PipelineRun> = Vec::new();
        for k in 0..to
            invariant
                to <= n,
                n == self.runs@.len(),
                rows == self@.runs,
                o == as_ints(order@),
                is_desc_order(o, run_keys(rows), n as nat),
                res@.len() == k,
                forall|j: int| 0 <= j < k ==> #[trigger] res@[j]@ == rows[o[j]],
        {
            let idx = order[k];
            proof {
                assert(o[k as int] == idx as int);
                assert(0 <= o[k as int] < n);
                assert(rows[idx as int] == self.runs@[idx as int]@);
            }
            res.push(self.runs[idx].duplicate());
        }
        proof {
            assert(run_views(res@) =~= spec_recent_runs(self@, limit as nat));
        }
        res
    }

    /// The logged errors, latest timestamp first, at most `limit` of them.
    pub fn get_asset_errors(&self, limit: u32) -> (res: Vec<ErrorRecord>)
        ensures
            error_views(res@) == spec_recent_errors(self@, limit as nat),
    {
        let ghost rows = self@.errors;
        let mut keys: Vec<Vec<char>> = Vec::new();
        let n = self.errors.len();
        for i in 0..n
            invariant
                n == self.errors@.len(),
                rows == self@.errors,
                keys@.len() == i,
                forall|j: int| 0 <= j < i ==> #[trigger] keys@[j]@ == rows[j].timestamp,
        {
            let ts = self.errors[i].timestamp.as_str();
            let kc = chars_of(ts);
            proof {
                assert(rows[i as int].timestamp == self.errors@[i as int].timestamp@);
            }
            keys.push(kc);
        }
        proof {
            assert(char_vec_views(keys@) =~= error_keys(rows));
        }
        let order = order_desc(&keys);
        proof {
            lemma_desc_order(error_keys(rows), n as nat);
        }
        let ghost o = as_ints(order@);
        let to = if (limit as usize) < n {
            limit as usize
        } else {
            n
        };
        let mut res: Vec<ErrorRecord> = Vec::new();
        for k in 0..to
            invariant
                to <= n,
                n == self.errors@.len(),
                rows == self@.errors,
                o == as_ints(order@),
                is_desc_order(o, error_keys(rows), n as nat),
                res@.len() == k,
                forall|j: int| 0 <= j < k ==> #[trigger] res@[j]@ == rows[o[j]],
        {
            let idx = order[k];
            proof {
                assert(o[k as int] == idx as int);
                assert(0 <= o[k as int] < n);
                assert(rows[idx as int] == self.errors@[idx as int]@);
            }
            res.push(self.errors[idx].duplicate());
        }
        proof {
            assert(error_views(res@) =~= spec_recent_errors(self@, limit as nat));
        }
        res
    }

    /// The assets, those with the given status when one is given, latest
    /// modification first, skipping `offset` of them and taking at most
    /// `limit`.
    pub fn get_assets(&self, status_filter: Option<&str>, limit: u32, offset: u32) -> (res: Vec<
        AssetRecord,
    >)
        ensures
            asset_views(res@) == spec_assets_page(
                self@,
                match status_filter {
                    Some(s) => Some(s@),
                    None => None,
                },
                limit as nat,
                offset as nat,
            ),
    {
        let ghost all = self@.assets;
        let ghost filter = match status_filter {
            Some(s) => Some(s@),
            None => None::<Seq<char>>,
        };
        let mut rows: Vec<AssetRecord> = Vec::new();
        let n_all = self.assets.len();
        for k in 0..n_all
            invariant
                n_all == self.assets@.len(),
                all == self@.assets,
                filter == match status_filter {
                    Some(s) => Some(s@),
                    None => None::<Seq<char>>,
                },
                asset_views(rows@) == match filter {
                    Some(s) => with_status(all.take(k as int), s),
                    None => all.take(k as int),
                },
        {
            let ghost before = asset_views(rows@);
            proof {
                assert(all.take(k + 1).drop_last() =~= all.take(k as int));
                assert(all.take(k + 1).last() == all[k as int]);
                assert(all[k as int] == self.assets@[k as int]@);
            }
            let keep = match status_filter {
                Some(s) => str_eq(self.assets[k].status.as_str(), s),
                None => true,
            };
            if keep {
                rows.push(self.assets[k].duplicate());
            }
            proof {
                assert(asset_views(rows@) =~= match filter {
                    Some(s) => with_status(all.take(k + 1), s),
                    None => all.take(k + 1),
                });
            }
        }
        proof {
            assert(all.take(n_all as int) =~= all);
        }
        let ghost fr = filtered_assets(self@, filter);
        assert(asset_views(rows@) == fr);
        let n = rows.len();
        let mut keys: Vec<Vec<char>> = Vec::new();
        for i in 0..n
            invariant
                n == rows@.len(),
                fr == asset_views(rows@),
                keys@.len() == i,
                forall|j: int| 0 <= j < i ==> #[trigger] keys@[j]@ == fr[j].last_modified,
        {
            let kc = chars_of(rows[i].last_modified.as_str());
            proof {
                assert(fr[i as int].last_modified == rows@[i as int].last_modified@);
            }
            keys.push(kc);
        }
        proof {
            assert(char_vec_views(keys@) =~= asset_keys(fr));
        }
        let order = order_desc(&keys);
        proof {
            lemma_desc_order(asset_keys(fr), n as nat);
        }
        let ghost o = as_ints(order@);
        let from = if (offset as usize) < n {
            offset as usize
        } else {
            n
        };
        let to = if (limit as usize) < n - from {
            from + limit as usize
        } else {
            n
        };
        let mut res: Vec<AssetRecord> = Vec::new();
        for k in from..to
            invariant
                from <= to <= n,
                n == rows@.len(),
                fr == asset_views(rows@),
                o == as_ints(order@),
                is_desc_order(o, asset_keys(fr), n as nat),
                res@.len() == k - from,
                forall|j: int| 0 <= j < k - from ==> #[trigger] res@[j]@ == fr[o[from + j]],
        {
            let idx = order[k];
            proof {
                assert(o[k as int] == idx as int);
                assert(0 <= o[k as int] < n);
                assert(fr[idx as int] == rows@[idx as int]@);
            }
            res.push(rows[idx].duplicate());
        }
        proof {
            assert(asset_views(res@) =~= spec_assets_page(self@, filter, limit as nat, offset as nat));
        }
        res
    }

    /// The stored assets, for saving the store.
    pub fn asset_rows(&self) -> (res: &Vec<AssetRecord>)
        ensures
            asset_views(res@) == self@.assets,
    {
        &self.assets
    }

    /// The stored runs, for saving the store.
    pub fn run_rows(&self) -> (res: &Vec<PipelineRun>)
        ensures
            run_views(res@) == self@.runs,
    {
        &self.runs
    }

    /// The logged errors, for saving the store.
    pub fn error_rows(&self) -> (res: &Vec<ErrorRecord>)
        ensures
            error_views(res@) == self@.errors,
    {
        &self.errors
    }

    /// A store holding saved rows; refused when two assets share a path or
    /// two runs share an id.
    pub fn from_rows(assets: Vec<AssetRecord>, runs: Vec<PipelineRun>, errors: Vec<ErrorRecord>) -> (res: Result<AssetDb, RiftError>)
        ensures
            match res {
                Ok(db) => db.wf() && db@.assets == asset_views(assets@) && db@.runs == run_views(runs@)
                    && db@.errors == error_views(errors@),
                Err(e) => !unique_paths(asset_views(assets@)) || !unique_ids(run_views(runs@)),
            },
    {
        let ghost av = asset_views(assets@);
        let na = assets.len();
        for i in 0..na
            invariant
                na == assets@.len(),
                av == asset_views(assets@),
                forall|a: int, b: int| 0 <= a < b < na && a < i ==> #[trigger] av[a].relative_path != #[trigger] av[b].relative_path,
        {
            for j in (i + 1)..na
                invariant
                    na == assets@.len(),
                    i < na,
                    av == asset_views(assets@),
                    forall|b: int| i < b < j ==> av[i as int].relative_path != #[trigger] av[b].relative_path,
            {
                if str_eq(assets[i].relative_path.as_str(), assets[j].relative_path.as_str()) {
                    proof {
                        assert(av[i as int].relative_path == av[j as int].relative_path);
                    }
                    return Err(RiftError::Database(to_owned_string("UNIQUE constraint failed: assets.relative_path")));
                }
            }
        }
        let ghost rv = run_views(runs@);
        let nr = runs.len();
        for i in 0..nr
            invariant
                nr == runs@.len(),
                rv == run_views(runs@),
                unique_paths(av),
                av == asset_views(assets@),
                forall|a: int, b: int| 0 <= a < b < nr && a < i ==> #[trigger] rv[a].id != #[trigger] rv[b].id,
        {
            for j in (i + 1)..nr
                invariant
                    nr == runs@.len(),
                    i < nr,
                    rv == run_views(runs@),
                    forall|b: int| i < b < j ==> rv[i as int].id != #[trigger] rv[b].id,
            {
                if str_eq(runs[i].id.as_str(), runs[j].id.as_str()) {
                    proof {
                        assert(rv[i as int].id == rv[j as int].id);
                    }
                    return Err(RiftError::Database(to_owned_string("UNIQUE constraint failed: pipeline_runs.id")));
                }
            }
        }
        let db = AssetDb { assets, runs, errors };
        proof {
            assert(db@.assets =~= av);
            assert(db@.runs =~= rv);
        }
        Ok(db)
    }

    /// The content hash of a file's bytes: SHA-256 in lowercase hexadecimal.
    pub fn hash_file(contents: &[u8]) -> (res: String)
        ensures
            res@ == spec_sha256_hex(contents@),
            res@.len() == 64,
            is_lower_hex(res@),
    {
        sha256_hex(contents)
    }
}


// ---------------------------------------------------------------------------
// Laws
// ---------------------------------------------------------------------------

pub(crate) proof fn lemma_asset_index_same_paths(a: Seq<AssetView>, b: Seq<AssetView>, path: Seq<char>)
    requires
        a.len() == b.len(),
        forall|i: int| 0 <= i < a.len() ==> #[trigger] a[i].relative_path == b[i].relative_path,
    ensures
        asset_index(a, path) == asset_index(b, path),
    decreases a.len(),
{
    if a.len() > 0 {
        assert forall|i: int| 0 <= i < a.len() - 1 implies #[trigger] a.drop_last()[i].relative_path == b.drop_last()[i].relative_path by {
            assert(a.drop_last()[i] == a[i]);
            assert(b.drop_last()[i] == b[i]);
        }
        lemma_asset_index_same_paths(a.drop_last(), b.drop_last(), path);
    }
}

pub(crate) proof fn lemma_asset_index_push(a: Seq<AssetView>, x: AssetView, path: Seq<char>)
    ensures
        asset_index(a.push(x), path) == (if asset_index(a, path) >= 0 {
            asset_index(a, path)
        } else if x.relative_path == path {
            a.len() as int
        } else {
            -1
        }),
{
    assert(a.push(x).drop_last() =~= a);
}

/// Recording a hash keeps every other asset's entry and adds an entry only
/// for an unknown path; the asset is then known, with that hash and
/// modification time.
pub proof fn law_upsert_records(db: DbView, path: Seq<char>, sha: Seq<char>, modified: Seq<char>)
    requires
        db_wf(db),
    ensures
        ({
            let after = spec_upsert(db, path, sha, modified);
            let i = asset_index(after.assets, path);
            &&& db_wf(after)
            &&& i >= 0
            &&& after.assets[i].sha256 == sha
            &&& after.assets[i].last_modified == modified
            &&& after.assets.len() == db.assets.len() + (if asset_index(db.assets, path) >= 0 {
                0int
            } else {
                1int
            })
            &&& forall|j: int|
                0 <= j < db.assets.len() && db.assets[j].relative_path != path ==> after.assets[j]
                    == #[trigger] db.assets[j]
            &&& after.runs == db.runs
            &&& after.errors == db.errors
        }),
{
    lemma_asset_index(db.assets, path);
    let after = spec_upsert(db, path, sha, modified);
    let k = asset_index(db.assets, path);
    if k >= 0 {
        lemma_asset_index_same_paths(db.assets, after.assets, path);
        assert forall|a: int, b: int| 0 <= a < b < after.assets.len() implies #[trigger] after.assets[a].relative_path != #[trigger] after.assets[b].relative_path by {
            assert(after.assets[a].relative_path == db.assets[a].relative_path);
            assert(after.assets[b].relative_path == db.assets[b].relative_path);
        }
    } else {
        lemma_asset_index_push(db.assets, after.assets.last(), path);
        assert(after.assets =~= db.assets.push(after.assets.last()));
    }
}

/// A new asset, and an asset whose content changed, must be converted.
pub proof fn law_changed_asset_needs_conversion(db: DbView, path: Seq<char>, sha: Seq<char>, modified: Seq<char>)
    requires
        db_wf(db),
        asset_index(db.assets, path) < 0 || db.assets[asset_index(db.assets, path)].sha256 != sha,
    ensures
        spec_needs_conversion(spec_upsert(db, path, sha, modified), path),
{
    law_upsert_records(db, path, sha, modified);
    lemma_asset_index(db.assets, path);
    let k = asset_index(db.assets, path);
    let after = spec_upsert(db, path, sha, modified);
    if k >= 0 {
        lemma_asset_index_same_paths(db.assets, after.assets, path);
    } else {
        lemma_asset_index_push(db.assets, after.assets.last(), path);
        assert(after.assets =~= db.assets.push(after.assets.last()));
    }
}

/// Recording an unchanged hash keeps the asset's status, so an asset that
/// was converted is not converted again.
pub proof fn law_unchanged_asset_keeps_status(db: DbView, path: Seq<char>, sha: Seq<char>, modified: Seq<char>)
    requires
        db_wf(db),
        asset_index(db.assets, path) >= 0,
        db.assets[asset_index(db.assets, path)].sha256 == sha,
    ensures
        spec_needs_conversion(spec_upsert(db, path, sha, modified), path) == spec_needs_conversion(db, path),
        db.assets[asset_index(db.assets, path)].status == "ok"@ ==> !spec_needs_conversion(spec_upsert(db, path, sha, modified), path),
{
    lemma_asset_index(db.assets, path);
    let after = spec_upsert(db, path, sha, modified);
    lemma_asset_index_same_paths(db.assets, after.assets, path);
    lemma_ok_is_final();
}

/// "ok" is neither "pending" nor "error".
pub(crate) proof fn lemma_ok_is_final()
    ensures
        "ok"@ != pending(),
        "ok"@ != "error"@,
        "error"@ != pending(),
{
    reveal_strlit("ok");
    reveal_strlit("pending");
    reveal_strlit("error");
    assert("ok"@.len() != pending().len());
    assert("ok"@.len() != "error"@.len());
    assert("error"@.len() != pending().len());
}

/// A known asset marked converted needs no conversion; marked failed, it
/// needs one.
pub proof fn law_mark_then_needs(db: DbView, path: Seq<char>, now: Seq<char>, message: Seq<char>)
    requires
        db_wf(db),
        asset_index(db.assets, path) >= 0,
    ensures
        !spec_needs_conversion(spec_mark_converted(db, path, now), path),
        spec_needs_conversion(spec_mark_error(db, path, message), path),
        db_wf(spec_mark_converted(db, path, now)),
        db_wf(spec_mark_error(db, path, message)),
{
    lemma_asset_index(db.assets, path);
    let a1 = spec_mark_converted(db, path, now);
    let a2 = spec_mark_error(db, path, message);
    lemma_asset_index_same_paths(db.assets, a1.assets, path);
    lemma_asset_index_same_paths(db.assets, a2.assets, path);
    lemma_ok_is_final();
    assert forall|a: int, b: int| 0 <= a < b < a1.assets.len() implies #[trigger] a1.assets[a].relative_path != #[trigger] a1.assets[b].relative_path by {
        assert(a1.assets[a].relative_path == db.assets[a].relative_path);
        assert(a1.assets[b].relative_path == db.assets[b].relative_path);
    }
    assert forall|a: int, b: int| 0 <= a < b < a2.assets.len() implies #[trigger] a2.assets[a].relative_path != #[trigger] a2.assets[b].relative_path by {
        assert(a2.assets[a].relative_path == db.assets[a].relative_path);
        assert(a2.assets[b].relative_path == db.assets[b].relative_path);
    }
}

proof fn lemma_count_total(assets: Seq<AssetView>, statuses: Seq<Seq<char>>)
    requires
        forall|i: int, j: int| 0 <= i < j < statuses.len() ==> statuses[i] != statuses[j],
        forall|k: int| 0 <= k < assets.len() ==> statuses.contains(#[trigger] assets[k].status),
    ensures
        sum_counts(assets, statuses) == assets.len(),
    decreases assets.len(),
{
    if assets.len() == 0 {
        lemma_sum_counts_empty(assets, statuses);
    } else {
        let d = assets.drop_last();
        assert forall|k: int| 0 <= k < d.len() implies statuses.contains(#[trigger] d[k].status) by {
            assert(d[k] == assets[k]);
        }
        lemma_count_total(d, statuses);
        lemma_sum_counts_step(d, assets.last(), statuses);
        assert(assets =~= d.push(assets.last()));
    }
}

proof fn lemma_sum_counts_empty(assets: Seq<AssetView>, statuses: Seq<Seq<char>>)
    requires
        assets.len() == 0,
    ensures
        sum_counts(assets, statuses) == 0,
    decreases statuses.len(),
{
    if statuses.len() > 0 {
        lemma_sum_counts_empty(assets, statuses.drop_last());
    }
}

/// The sum of the counts of the given statuses.
pub open spec fn sum_counts(assets: Seq<AssetView>, statuses: Seq<Seq<char>>) -> nat
    decreases statuses.len(),
{
    if statuses.len() == 0 {
        0
    } else {
        sum_counts(assets, statuses.drop_last()) + count_status(assets, statuses.last())
    }
}

proof fn lemma_sum_counts_step(d: Seq<AssetView>, x: AssetView, statuses: Seq<Seq<char>>)
    requires
        forall|i: int, j: int| 0 <= i < j < statuses.len() ==> statuses[i] != statuses[j],
    ensures
        sum_counts(d.push(x), statuses) == sum_counts(d, statuses) + (if statuses.contains(x.status) {
            1nat
        } else {
            0nat
        }),
    decreases statuses.len(),
{
    assert(d.push(x).drop_last() =~= d);
    if statuses.len() > 0 {
        let ds = statuses.drop_last();
        assert forall|i: int, j: int| 0 <= i < j < ds.len() implies ds[i] != ds[j] by {
            assert(ds[i] == statuses[i]);
            assert(ds[j] == statuses[j]);
        }
        lemma_sum_counts_step(d, x, ds);
        if statuses.contains(x.status) {
            if x.status == statuses.last() {
                assert(!ds.contains(x.status)) by {
                    if ds.contains(x.status) {
                        let i = choose|i: int| 0 <= i < ds.len() && ds[i] == x.status;
                        assert(statuses[i] == statuses[statuses.len() - 1]);
                    }
                }
            } else {
                let i = choose|i: int| 0 <= i < statuses.len() && statuses[i] == x.status;
                assert(ds[i] == x.status);
            }
        } else {
            assert(!ds.contains(x.status)) by {
                if ds.contains(x.status) {
                    let i = choose|i: int| 0 <= i < ds.len() && ds[i] == x.status;
                    assert(statuses[i] == x.status);
                }
            }
        }
    }
}

/// The asset counts by status add up to the number of assets.
pub proof fn law_counts_total(assets: Seq<AssetView>, counts: Seq<(String, u32)>)
    requires
        forall|i: int| 0 <= i < counts.len() ==> #[trigger] counts[i].1 as nat == count_status(assets, counts[i].0@),
        forall|i: int, j: int| 0 <= i < j < counts.len() ==> #[trigger] counts[i].0@ != #[trigger] counts[j].0@,
        forall|k: int| 0 <= k < assets.len() ==> has_key(counts, #[trigger] assets[k].status),
    ensures
        sum_counts(assets, counts.map_values(|c: (String, u32)| c.0@)) == assets.len(),
        total_of(counts) == assets.len(),
{
    let statuses = counts.map_values(|c: (String, u32)| c.0@);
    assert forall|i: int, j: int| 0 <= i < j < statuses.len() implies statuses[i] != statuses[j] by {
        assert(statuses[i] == counts[i].0@);
        assert(statuses[j] == counts[j].0@);
    }
    assert forall|k: int| 0 <= k < assets.len() implies statuses.contains(#[trigger] assets[k].status) by {
        let i = choose|i: int| 0 <= i < counts.len() && counts[i].0@ == assets[k].status;
        assert(statuses[i] == assets[k].status);
    }
    lemma_count_total(assets, statuses);
    lemma_total_is_sum(assets, counts);
}

/// The total of a list of counts.
pub open spec fn total_of(counts: Seq<(String, u32)>) -> nat
    decreases counts.len(),
{
    if counts.len() == 0 {
        0
    } else {
        total_of(counts.drop_last()) + counts.last().1 as nat
    }
}

proof fn lemma_total_is_sum(assets: Seq<AssetView>, counts: Seq<(String, u32)>)
    requires
        forall|i: int| 0 <= i < counts.len() ==> #[trigger] counts[i].1 as nat == count_status(assets, counts[i].0@),
    ensures
        total_of(counts) == sum_counts(assets, counts.map_values(|c: (String, u32)| c.0@)),
    decreases counts.len(),
{
    if counts.len() > 0 {
        let d = counts.drop_last();
        assert forall|i: int| 0 <= i < d.len() implies #[trigger] d[i].1 as nat == count_status(assets, d[i].0@) by {
            assert(d[i] == counts[i]);
        }
        lemma_total_is_sum(assets, d);
        assert(counts.map_values(|c: (String, u32)| c.0@).drop_last() =~= d.map_values(|c: (String, u32)| c.0@));
    }
}

/// A run that was started and then completed reads back as completed with
/// the counts it was completed with.
pub proof fn law_run_lifecycle(db: DbView, id: Seq<char>, now: Seq<char>, converted: u32, errors: u32)
    requires
        db_wf(db),
        run_index(db.runs, id) == -1,
    ensures
        ({
            let after = spec_complete_run(spec_create_run(db, id, now), id, converted, errors);
            let i = run_index(after.runs, id);
            &&& i == db.runs.len()
            &&& after.runs[i].status == "completed"@
            &&& after.runs[i].converted == converted
            &&& after.runs[i].errors == errors
            &&& after.runs[i].timestamp == now
            &&& after.assets == db.assets
        }),
{
    let started = spec_create_run(db, id, now);
    assert(started.runs.drop_last() =~= db.runs);
    lemma_run_index(db.runs, id);
    lemma_run_index(started.runs, id);
    assert(run_index(started.runs, id) == db.runs.len());
    let after = spec_complete_run(started, id, converted, errors);
    lemma_run_index_same_ids(started.runs, after.runs, id);
}

proof fn lemma_run_index_same_ids(a: Seq<RunView>, b: Seq<RunView>, id: Seq<char>)
    requires
        a.len() == b.len(),
        forall|i: int| 0 <= i < a.len() ==> #[trigger] a[i].id == b[i].id,
    ensures
        run_index(a, id) == run_index(b, id),
    decreases a.len(),
{
    if a.len() > 0 {
        assert forall|i: int| 0 <= i < a.len() - 1 implies #[trigger] a.drop_last()[i].id == b.drop_last()[i].id by {
            assert(a.drop_last()[i] == a[i]);
            assert(b.drop_last()[i] == b[i]);
        }
        lemma_run_index_same_ids(a.drop_last(), b.drop_last(), id);
    }
}


/// The recent errors are at most `limit` of the logged errors (as many as
/// there are, up to `limit`), each logged error listed at most once, latest
/// timestamp first.
pub proof fn law_recent_errors_sorted(db: DbView, limit: nat)
    ensures
        ({
            let r = spec_recent_errors(db, limit);
            &&& r.len() == min_nat(limit, db.errors.len())
            &&& forall|i: int, j: int|
                0 <= i < j < r.len() ==> !crate::order::text_lt(#[trigger] r[i].timestamp, #[trigger] r[j].timestamp)
            &&& exists|idx: Seq<int>|
                #![trigger idx.len()]
                idx.len() == r.len() && (forall|i: int|
                    0 <= i < r.len() ==> 0 <= #[trigger] idx[i] < db.errors.len() && r[i] == db.errors[idx[i]])
                    && (forall|i: int, j: int| 0 <= i < j < r.len() ==> #[trigger] idx[i] != #[trigger] idx[j])
        }),
{
    let keys = error_keys(db.errors);
    let o = desc_order(keys, db.errors.len());
    lemma_desc_order(keys, db.errors.len());
    let r = spec_recent_errors(db, limit);
    let to = min_nat(limit, o.len());
    assert(r.len() == to);
    assert forall|i: int, j: int| 0 <= i < j < r.len() implies !crate::order::text_lt(#[trigger] r[i].timestamp, #[trigger] r[j].timestamp) by {
        assert(r[i] == db.errors[o[i]]);
        assert(r[j] == db.errors[o[j]]);
        assert(keys[o[i]] == db.errors[o[i]].timestamp);
        assert(keys[o[j]] == db.errors[o[j]].timestamp);
    }
    let idx = o.subrange(0, to as int);
    assert forall|i: int| 0 <= i < r.len() implies 0 <= #[trigger] idx[i] < db.errors.len() && r[i] == db.errors[idx[i]] by {
        assert(idx[i] == o[i]);
    }
    assert forall|i: int, j: int| 0 <= i < j < r.len() implies #[trigger] idx[i] != #[trigger] idx[j] by {
        assert(idx[i] == o[i]);
        assert(idx[j] == o[j]);
    }
    assert(idx.len() == r.len());
}

proof fn lemma_with_status(assets: Seq<AssetView>, status: Seq<char>)
    ensures
        with_status(assets, status).len() == count_status(assets, status),
        forall|i: int| 0 <= i < with_status(assets, status).len() ==> (#[trigger] with_status(assets, status)[i]).status
            == status && assets.contains(with_status(assets, status)[i]),
    decreases assets.len(),
{
    if assets.len() > 0 {
        let d = assets.drop_last();
        lemma_with_status(d, status);
        let w = with_status(assets, status);
        let wd = with_status(d, status);
        assert forall|i: int| 0 <= i < w.len() implies (#[trigger] w[i]).status == status && assets.contains(w[i]) by {
            if i < wd.len() {
                assert(w[i] == wd[i]);
                let k = choose|k: int| 0 <= k < d.len() && d[k] == wd[i];
                assert(assets[k] == d[k]);
            } else {
                assert(w[i] == assets.last());
                assert(assets[assets.len() - 1] == assets.last());
            }
        }
    }
}

/// A page of the asset listing: with a status, only assets with that
/// status; latest modification first; skipping `offset` of the listed
/// assets and taking at most `limit` (as many as remain, up to `limit`);
/// every listed asset is a stored one.
pub proof fn law_assets_page(db: DbView, status: Option<Seq<char>>, limit: nat, offset: nat)
    ensures
        ({
            let r = spec_assets_page(db, status, limit, offset);
            let n = match status {
                Some(s) => count_status(db.assets, s),
                None => db.assets.len(),
            };
            &&& r.len() == min_nat(limit, (n - min_nat(offset, n)) as nat)
            &&& forall|i: int| 0 <= i < r.len() ==> db.assets.contains(#[trigger] r[i])
            &&& forall|i: int| 0 <= i < r.len() ==> (status matches Some(s) ==> (#[trigger] r[i]).status == s)
            &&& forall|i: int, j: int|
                0 <= i < j < r.len() ==> !crate::order::text_lt(#[trigger] r[i].last_modified, #[trigger] r[j].last_modified)
        }),
{
    let rows = filtered_assets(db, status);
    if let Some(s) = status {
        lemma_with_status(db.assets, s);
    }
    let keys = asset_keys(rows);
    let o = desc_order(keys, rows.len());
    lemma_desc_order(keys, rows.len());
    let r = spec_assets_page(db, status, limit, offset);
    let from = min_nat(offset, o.len());
    assert forall|i: int| 0 <= i < r.len() implies db.assets.contains(#[trigger] r[i]) && (status matches Some(s)
        ==> r[i].status == s) by {
        assert(r[i] == rows[o[from + i]]);
        if status is None {
            assert(db.assets[o[from + i]] == r[i]);
        }
    }
    assert forall|i: int, j: int| 0 <= i < j < r.len() implies !crate::order::text_lt(#[trigger] r[i].last_modified, #[trigger] r[j].last_modified) by {
        assert(r[i] == rows[o[from + i]]);
        assert(r[j] == rows[o[from + j]]);
        assert(keys[o[from + i]] == rows[o[from + i]].last_modified);
        assert(keys[o[from + j]] == rows[o[from + j]].last_modified);
    }
}

/// The recent runs are at most `limit` runs of the store, each listed once,
/// latest timestamp first.
pub proof fn law_recent_runs_sorted(db: DbView, limit: nat)
    ensures
        ({
            let r = spec_recent_runs(db, limit);
            &&& r.len() == min_nat(limit, db.runs.len())
            &&& forall|i: int, j: int| 0 <= i < j < r.len() ==> !crate::order::text_lt(#[trigger] r[i].timestamp, #[trigger] r[j].timestamp)
            &&& forall|i: int| 0 <= i < r.len() ==> db.runs.contains(#[trigger] r[i])
            &&& exists|idx: Seq<int>|
                #![trigger idx.len()]
                idx.len() == r.len() && (forall|i: int|
                    0 <= i < r.len() ==> 0 <= #[trigger] idx[i] < db.runs.len() && r[i] == db.runs[idx[i]])
                    && (forall|i: int, j: int| 0 <= i < j < r.len() ==> #[trigger] idx[i] != #[trigger] idx[j])
        }),
{
    let keys = run_keys(db.runs);
    let o = desc_order(keys, db.runs.len());
    lemma_desc_order(keys, db.runs.len());
    let r = spec_recent_runs(db, limit);
    let to = min_nat(limit, o.len());
    assert(r.len() == to);
    assert forall|i: int, j: int| 0 <= i < j < r.len() implies !crate::order::text_lt(#[trigger] r[i].timestamp, #[trigger] r[j].timestamp) by {
        assert(r[i] == db.runs[o[i]]);
        assert(r[j] == db.runs[o[j]]);
        assert(keys[o[i]] == db.runs[o[i]].timestamp);
        assert(keys[o[j]] == db.runs[o[j]].timestamp);
    }
    assert forall|i: int| 0 <= i < r.len() implies db.runs.contains(#[trigger] r[i]) by {
        assert(r[i] == db.runs[o[i]]);
    }
    let idx = o.subrange(0, to as int);
    assert forall|i: int| 0 <= i < r.len() implies 0 <= #[trigger] idx[i] < db.runs.len() && r[i] == db.runs[idx[i]] by {
        assert(idx[i] == o[i]);
    }
    assert forall|i: int, j: int| 0 <= i < j < r.len() implies #[trigger] idx[i] != #[trigger] idx[j] by {
        assert(idx[i] == o[i]);
        assert(idx[j] == o[j]);
    }
    assert(idx.len() == r.len());
}

} // verus!
