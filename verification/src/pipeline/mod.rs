//! The pipeline's decisions: which files become jobs, what each job does
//! per target, how a run's results are recorded and which hooks run.
//! Walking directories, converting files and running hooks are done by the
//! program around the library, which asks these functions at each step.

pub mod glob_rules;

use vstd::prelude::*;
use crate::config::{PipelineConfig, RuleConfig, TargetConfig};
use crate::db::{AssetDb, DbView, ErrorView, asset_index, lemma_asset_index, lemma_asset_index_push, lemma_asset_index_same_paths, lemma_ok_is_final, spec_mark_converted, spec_mark_error, spec_complete_run, spec_upsert, spec_needs_conversion, spec_create_run, run_index};
use crate::digest::is_hex_char;
use crate::error::{RiftError, error_text};
use crate::paths::{join, spec_join};
use crate::text::{concat2, str_eq, to_owned_string};

verus! {

/// `uuid::Uuid`, carried through opaquely.
#[verifier::external_type_specification]
#[verifier::external_body]
pub struct ExUuid(uuid::Uuid);

/// `uuid::Uuid::new_v4`: a random UUID. Nothing is promised of it.
#[verifier::external_body]
fn uuid_new_v4() -> uuid::Uuid {
    uuid::Uuid::new_v4()
}

/// The hyphenated text form of a UUID: 36 characters, hyphens at
/// positions 8, 13, 18 and 23 and lowercase hexadecimal digits elsewhere
/// (groups of 8, 4, 4, 4 and 12 digits).
pub open spec fn is_hyphenated_uuid(s: Seq<char>) -> bool {
    &&& s.len() == 36
    &&& forall|i: int| 0 <= i < 36 ==> (if i == 8 || i == 13 || i == 18 || i == 23 {
        #[trigger] s[i] == '-'
    } else {
        is_hex_char(s[i])
    })
}

/// `Uuid`'s `Display`, which writes `Uuid::as_hyphenated` through
/// `fmt::LowerHex`: the hyphenated form in lowercase hexadecimal. Which
/// digits it holds is left open (the UUID is random).
#[verifier::external_body]
fn uuid_text(u: &uuid::Uuid) -> (res: String)
    ensures
        is_hyphenated_uuid(res@),
{
    u.to_string()
}

/// A fresh run id: a random UUID in its hyphenated text form.
pub fn new_run_id() -> (res: String)
    ensures
        is_hyphenated_uuid(res@),
{
    let u = uuid_new_v4();
    uuid_text(&u)
}

/// A pending asset job: a matched file and the rule that applies to it.
#[derive(Debug, Clone)]
pub struct AssetJob {
    pub path: String,
    pub relative: String,
    pub rule_index: usize,
}

/// The result of processing one asset.
#[derive(Debug, Clone)]
pub struct AssetResult {
    pub relative_path: String,
    pub success: bool,
    pub output_paths: Vec<String>,
    pub error: Option<String>,
}

/// What a rule does with the files it matches.
#[derive(Debug, Clone, Copy, PartialEq, Eq)]
pub enum ConvertKind {
    /// Resize and reformat, then write engine metadata.
    Textures,
    /// Convert to the target's audio format.
    Audio,
    /// Copy (after validating, when the rule asks) to the same relative path.
    Models,
    /// Copy to the same relative path.
    Copy,
}

/// The name of a rule's conversion ("copy" when it names none).
pub open spec fn spec_convert_label(rule: RuleConfig) -> Seq<char> {
    match rule.convert {
        Some(c) => c@,
        None => "copy"@,
    }
}

/// What a rule does, by its conversion name.
pub open spec fn spec_convert_kind(rule: RuleConfig) -> ConvertKind {
    let c = spec_convert_label(rule);
    if c == "textures"@ {
        ConvertKind::Textures
    } else if c == "audio"@ {
        ConvertKind::Audio
    } else if c == "models"@ {
        ConvertKind::Models
    } else {
        ConvertKind::Copy
    }
}

/// The name of a rule's conversion ("copy" when it names none).
pub fn convert_label(rule: &RuleConfig) -> (res: String)
    ensures
        res@ == spec_convert_label(*rule),
{
    match &rule.convert {
        Some(c) => c.clone(),
        None => to_owned_string("copy"),
    }
}

/// What a rule does with the files it matches.
pub fn convert_kind(rule: &RuleConfig) -> (res: ConvertKind)
    ensures
        res == spec_convert_kind(*rule),
{
    let c = convert_label(rule);
    if str_eq(c.as_str(), "textures") {
        ConvertKind::Textures
    } else if str_eq(c.as_str(), "audio") {
        ConvertKind::Audio
    } else if str_eq(c.as_str(), "models") {
        ConvertKind::Models
    } else {
        ConvertKind::Copy
    }
}

/// What one target gets from an asset job.
#[derive(Debug, Clone, Copy, PartialEq, Eq)]
pub enum TargetAction {
    /// Convert the texture, then write the engine's metadata beside it.
    ConvertTexture,
    /// Convert the audio to the target's format.
    ConvertAudio,
    /// Copy the model to the same relative path, validating it first when
    /// `validate`.
    CopyModel { validate: bool },
    /// Copy the file to the same relative path.
    Copy,
}

/// The action a rule asks for in each target.
pub open spec fn spec_target_action(rule: RuleConfig) -> TargetAction {
    match spec_convert_kind(rule) {
        ConvertKind::Textures => TargetAction::ConvertTexture,
        ConvertKind::Audio => TargetAction::ConvertAudio,
        ConvertKind::Models => TargetAction::CopyModel { validate: rule.validate },
        ConvertKind::Copy => TargetAction::Copy,
    }
}

/// What each target gets from a file that a rule matched: textures are
/// converted and get engine metadata, audio is converted, models are
/// copied (validated first when the rule asks), anything else is copied.
pub fn target_action(rule: &RuleConfig) -> (res: TargetAction)
    ensures
        res == spec_target_action(*rule),
{
    match convert_kind(rule) {
        ConvertKind::Textures => TargetAction::ConvertTexture,
        ConvertKind::Audio => TargetAction::ConvertAudio,
        ConvertKind::Models => TargetAction::CopyModel { validate: rule.validate },
        ConvertKind::Copy => TargetAction::Copy,
    }
}

/// What a rule does in each target, by the conversion it names: `textures`
/// converts the texture and writes engine metadata, `audio` converts the
/// audio, `models` copies the model (validating it first exactly when the
/// rule asks), and any other name, or none, copies the file.
pub proof fn law_rule_actions(rule: RuleConfig)
    ensures
        (rule.convert matches Some(c) && c@ == "textures"@) ==> spec_target_action(rule)
            == TargetAction::ConvertTexture,
        (rule.convert matches Some(c) && c@ == "audio"@) ==> spec_target_action(rule) == TargetAction::ConvertAudio,
        (rule.convert matches Some(c) && c@ == "models"@) ==> spec_target_action(rule) == (TargetAction::CopyModel {
            validate: rule.validate,
        }),
        !(rule.convert matches Some(c) && (c@ == "textures"@ || c@ == "audio"@ || c@ == "models"@))
            ==> spec_target_action(rule) == TargetAction::Copy,
        rule.convert is None ==> spec_convert_label(rule) == "copy"@,
{
    reveal_strlit("textures");
    reveal_strlit("audio");
    reveal_strlit("models");
    reveal_strlit("copy");
    let c = spec_convert_label(rule);
    if c == "audio"@ || c == "models"@ {
        assert(c[0] != 't');
    }
    if c == "models"@ {
        assert(c[0] == 'm');
    }
    if rule.convert is None {
        assert(c[0] == 'c');
    }
}

/// Where a copied or validated asset goes in a target: the same relative
/// path under the target's project.
pub fn target_output(target: &TargetConfig, relative: &str) -> (res: String)
    ensures
        res@ == spec_join(target.project@, relative@),
{
    join(target.project.as_str(), relative)
}

/// The result of processing an asset, from the outputs written or the
/// error met; a failure carries the error's text.
pub fn asset_outcome(relative: &str, outcome: Result<Vec<String>, RiftError>) -> (res: AssetResult)
    ensures
        res.relative_path@ == relative@,
        match outcome {
            Ok(outputs) => res.success && res.output_paths == outputs && res.error is None,
            Err(e) => !res.success && res.output_paths@.len() == 0 && (res.error matches Some(m)
                && m@ == error_text(e)),
        },
{
    match outcome {
        Ok(outputs) => AssetResult {
            relative_path: to_owned_string(relative),
            success: true,
            output_paths: outputs,
            error: None,
        },
        Err(e) => AssetResult {
            relative_path: to_owned_string(relative),
            success: false,
            output_paths: Vec::new(),
            error: Some(e.message()),
        },
    }
}

/// The outcome of an asset's per-target steps, taken in target order: the
/// output of every step when all succeeded, otherwise the first step's
/// error.
pub fn steps_outcome(steps: Vec<Result<String, RiftError>>) -> (res: Result<Vec<String>, RiftError>)
    ensures
        match res {
            Ok(outputs) => outputs@.len() == steps@.len() && forall|i: int|
                0 <= i < steps@.len() ==> ((#[trigger] steps@[i]) matches Ok(o) && outputs@[i] == o),
            Err(e) => exists|k: int|
                0 <= k < steps@.len() && (#[trigger] steps@[k]) == Err::<String, RiftError>(e) && forall|j: int|
                    0 <= j < k ==> (#[trigger] steps@[j]) is Ok,
        },
{
    let mut outputs: Vec<String> = Vec::new();
    let n = steps.len();
    let ghost all = steps@;
    let mut rest = steps;
    proof {
        assert(rest@ =~= all.subrange(0, n as int));
    }
    let mut i: usize = 0;
    while i < n
        invariant
            i <= n,
            n == all.len(),
            all == steps@,
            rest@ == all.subrange(i as int, n as int),
            outputs@.len() == i,
            forall|j: int| 0 <= j < i ==> ((#[trigger] all[j]) matches Ok(o) && outputs@[j] == o),
        decreases n - i,
    {
        let step = rest.remove(0);
        assert(step == all[i as int]);
        assert(rest@ =~= all.subrange(i + 1, n as int));
        match step {
            Ok(o) => outputs.push(o),
            Err(e) => {
                assert(all[i as int] == Err::<String, RiftError>(e));
                assert forall|j: int| 0 <= j < i implies (#[trigger] all[j]) is Ok by {
                    assert(all[j] matches Ok(_));
                }
                return Err(e);
            },
        }
        i = i + 1;
    }
    Ok(outputs)
}

/// The result of processing an asset, from its per-target steps in target
/// order (one per target, up to the first failure): it succeeds exactly
/// when every step succeeded, and then has each step's output, one per
/// step, in order; otherwise it has no outputs and the first failed step's
/// error text.
pub fn asset_result(relative: &str, steps: Vec<Result<String, RiftError>>) -> (res: AssetResult)
    ensures
        res.relative_path@ == relative@,
        res.success <==> res.error is None,
        res.success <==> forall|i: int| 0 <= i < steps@.len() ==> (#[trigger] steps@[i]) is Ok,
        res.success ==> res.output_paths@.len() == steps@.len() && forall|i: int|
            0 <= i < steps@.len() ==> ((#[trigger] steps@[i]) matches Ok(o) && res.output_paths@[i] == o),
        !res.success ==> res.output_paths@.len() == 0 && exists|k: int|
            0 <= k < steps@.len() && ((#[trigger] steps@[k]) matches Err(e) && (res.error matches Some(m)
                && m@ == error_text(e))) && forall|j: int| 0 <= j < k ==> (#[trigger] steps@[j]) is Ok,
{
    let ghost all = steps@;
    let outcome = steps_outcome(steps);
    proof {
        match &outcome {
            Ok(outputs) => {
                assert forall|i: int| 0 <= i < all.len() implies (#[trigger] all[i]) is Ok by {
                    assert(all[i] matches Ok(_));
                }
            },
            Err(e) => {
                let k = choose|k: int|
                    0 <= k < all.len() && (#[trigger] all[k]) == Err::<String, RiftError>(*e) && forall|j: int|
                        0 <= j < k ==> (#[trigger] all[j]) is Ok;
                assert(!(all[k] is Ok));
            },
        }
    }
    asset_outcome(relative, outcome)
}

/// The error for a source root that does not exist.
pub fn missing_root_error(root: &str) -> (res: RiftError)
    ensures
        res matches RiftError::Pipeline(m) && m@ == "Source root does not exist: "@ + root@,
{
    RiftError::Pipeline(concat2("Source root does not exist: ", root))
}

/// A hook to run: its name and shell command.
#[derive(Debug, Clone)]
pub struct HookCall {
    pub name: &'static str,
    pub command: String,
}

/// The hook call for an optional command.
pub open spec fn is_hook(h: Option<HookCall>, name: Seq<char>, command: Option<String>) -> bool {
    match command {
        Some(c) => h matches Some(call) && call.name@ == name && call.command@ == c@,
        None => h is None,
    }
}

fn hook(name: &'static str, command: &Option<String>) -> (res: Option<HookCall>)
    ensures
        is_hook(res, name@, *command),
{
    match command {
        Some(c) => Some(HookCall { name, command: c.clone() }),
        None => None,
    }
}

/// The hook run before a run starts: the configured `pre_run` command.
pub fn pre_run_hook(config: &PipelineConfig) -> (res: Option<HookCall>)
    ensures
        is_hook(res, "pre_run"@, config.hooks.pre_run),
{
    hook("pre_run", &config.hooks.pre_run)
}

/// The hook run after a run: `on_error` when some asset failed, otherwise
/// `post_run` (also when there was nothing to do).
pub fn post_run_hook(config: &PipelineConfig, errors: u32) -> (res: Option<HookCall>)
    ensures
        errors > 0 ==> is_hook(res, "on_error"@, config.hooks.on_error),
        errors == 0 ==> is_hook(res, "post_run"@, config.hooks.post_run),
{
    if errors > 0 {
        hook("on_error", &config.hooks.on_error)
    } else {
        hook("post_run", &config.hooks.post_run)
    }
}

/// The view of a result: its relative path, whether it succeeded and its
/// error text.
pub open spec fn result_view(r: AssetResult) -> (Seq<char>, bool, Option<Seq<char>>) {
    (
        r.relative_path@,
        r.success,
        match r.error {
            Some(e) => Some(e@),
            None => None,
        },
    )
}

/// The error message recorded for a failed result ("unknown error" when
/// it has none).
pub open spec fn recorded_message(error: Option<Seq<char>>) -> Seq<char> {
    match error {
        Some(e) => e,
        None => "unknown error"@,
    }
}

/// The error type logged for a failed result.
pub open spec fn failure_type() -> Seq<char> {
    "conversion"@
}

/// The tables with one more logged error of run `run_id` for `path`.
pub open spec fn spec_log_failure(db: DbView, run_id: Seq<char>, path: Seq<char>, message: Seq<char>, now: Seq<char>) -> DbView {
    DbView {
        errors: db.errors.push(
            ErrorView {
                run_id,
                relative_path: path,
                error_type: failure_type(),
                message,
                timestamp: now,
            },
        ),
        ..db
    }
}

/// The tables after recording each result of run `run_id` in turn: a
/// success marks its asset converted at `now`; a failure marks it failed
/// with its message and logs an error of type "conversion" for the run,
/// with the asset's path, the message and `now`.
pub open spec fn spec_record_results(db: DbView, run_id: Seq<char>, results: Seq<AssetResult>, now: Seq<char>) -> DbView
    decreases results.len(),
{
    if results.len() == 0 {
        db
    } else {
        let before = spec_record_results(db, run_id, results.drop_last(), now);
        let r = result_view(results.last());
        if r.1 {
            spec_mark_converted(before, r.0, now)
        } else {
            spec_log_failure(
                spec_mark_error(before, r.0, recorded_message(r.2)),
                run_id,
                r.0,
                recorded_message(r.2),
                now,
            )
        }
    }
}

/// Recording results changes no asset's path or hash, and adds no asset.
proof fn lemma_record_keeps_paths(db: DbView, run_id: Seq<char>, results: Seq<AssetResult>, now: Seq<char>)
    ensures
        spec_record_results(db, run_id, results, now).assets.len() == db.assets.len(),
        forall|i: int|
            0 <= i < db.assets.len() ==> (#[trigger] spec_record_results(db, run_id, results, now).assets[i]).relative_path
                == db.assets[i].relative_path && spec_record_results(db, run_id, results, now).assets[i].sha256
                == db.assets[i].sha256,
    decreases results.len(),
{
    if results.len() > 0 {
        lemma_record_keeps_paths(db, run_id, results.drop_last(), now);
        let before = spec_record_results(db, run_id, results.drop_last(), now);
        let r = result_view(results.last());
        lemma_asset_index(before.assets, r.0);
    }
}

/// After recording results whose last one for path `p` (at `k`) is a
/// success, the asset at `p` is known and "ok".
proof fn lemma_record_last_success(db: DbView, run_id: Seq<char>, results: Seq<AssetResult>, now: Seq<char>, k: int)
    requires
        0 <= k < results.len(),
        results[k].success,
        forall|j: int| k < j < results.len() ==> (#[trigger] results[j]).relative_path@ != results[k].relative_path@,
        asset_index(db.assets, results[k].relative_path@) >= 0,
    ensures
        ({
            let after = spec_record_results(db, run_id, results, now);
            let i = asset_index(after.assets, results[k].relative_path@);
            i >= 0 && after.assets[i].status == "ok"@
        }),
    decreases results.len(),
{
    let p = results[k].relative_path@;
    let before = spec_record_results(db, run_id, results.drop_last(), now);
    let after = spec_record_results(db, run_id, results, now);
    let r = result_view(results.last());
    lemma_record_keeps_paths(db, run_id, results.drop_last(), now);
    lemma_record_keeps_paths(db, run_id, results, now);
    lemma_asset_index_same_paths(db.assets, before.assets, p);
    lemma_asset_index_same_paths(before.assets, after.assets, p);
    lemma_asset_index(before.assets, p);
    lemma_asset_index(before.assets, r.0);
    if k < results.len() - 1 {
        assert forall|j: int| k < j < results.drop_last().len() implies (#[trigger] results.drop_last()[j]).relative_path@
            != results.drop_last()[k].relative_path@ by {
            assert(results.drop_last()[j] == results[j]);
        }
        assert(results.drop_last()[k] == results[k]);
        lemma_record_last_success(db, run_id, results.drop_last(), now, k);
        assert(results.last() == results[results.len() - 1]);
        assert(r.0 != p);
    } else {
        assert(results.last() == results[k]);
    }
}

/// A second run over unchanged content converts nothing that a run
/// converted: when an asset's last result in a run was a success, and the
/// next run finds the same hash that the run started from, the asset is
/// not converted again.
pub proof fn law_converted_asset_skipped_next_run(
    db: DbView,
    run_id: Seq<char>,
    results: Seq<AssetResult>,
    now: Seq<char>,
    converted: u32,
    errors: u32,
    k: int,
    modified: Seq<char>,
)
    requires
        0 <= k < results.len(),
        results[k].success,
        forall|j: int| k < j < results.len() ==> (#[trigger] results[j]).relative_path@ != results[k].relative_path@,
        asset_index(db.assets, results[k].relative_path@) >= 0,
    ensures
        ({
            let p = results[k].relative_path@;
            let sha = db.assets[asset_index(db.assets, p)].sha256;
            let after = spec_complete_run(spec_record_results(db, run_id, results, now), run_id, converted, errors);
            !spec_needs_conversion(spec_upsert(after, p, sha, modified), p)
        }),
{
    let p = results[k].relative_path@;
    let recorded = spec_record_results(db, run_id, results, now);
    let after = spec_complete_run(recorded, run_id, converted, errors);
    lemma_record_last_success(db, run_id, results, now, k);
    lemma_record_keeps_paths(db, run_id, results, now);
    lemma_asset_index_same_paths(db.assets, recorded.assets, p);
    lemma_asset_index(db.assets, p);
    assert(after.assets == recorded.assets);
    let upserted = spec_upsert(after, p, db.assets[asset_index(db.assets, p)].sha256, modified);
    lemma_asset_index_same_paths(after.assets, upserted.assets, p);
    lemma_ok_is_final();
}

/// The store after a scan records each file's (path, hash, modification
/// time), in order.
pub open spec fn spec_upsert_all(db: DbView, files: Seq<(Seq<char>, Seq<char>, Seq<char>)>) -> DbView
    decreases files.len(),
{
    if files.len() == 0 {
        db
    } else {
        let f = files.last();
        spec_upsert(spec_upsert_all(db, files.drop_last()), f.0, f.1, f.2)
    }
}

/// Recording other files keeps a known asset where it is, unchanged.
proof fn lemma_upsert_others_keep(d: DbView, files: Seq<(Seq<char>, Seq<char>, Seq<char>)>, p: Seq<char>)
    requires
        asset_index(d.assets, p) >= 0,
        forall|j: int| 0 <= j < files.len() ==> (#[trigger] files[j]).0 != p,
    ensures
        asset_index(spec_upsert_all(d, files).assets, p) == asset_index(d.assets, p),
        spec_upsert_all(d, files).assets[asset_index(d.assets, p)] == d.assets[asset_index(d.assets, p)],
    decreases files.len(),
{
    if files.len() > 0 {
        let rest = files.drop_last();
        assert forall|j: int| 0 <= j < rest.len() implies (#[trigger] rest[j]).0 != p by {
            assert(rest[j] == files[j]);
        }
        lemma_upsert_others_keep(d, rest, p);
        let d1 = spec_upsert_all(d, rest);
        let f = files.last();
        assert(f == files[files.len() - 1]);
        let ip = asset_index(d.assets, p);
        lemma_asset_index(d1.assets, p);
        lemma_asset_index(d1.assets, f.0);
        let d2 = spec_upsert(d1, f.0, f.1, f.2);
        if asset_index(d1.assets, f.0) >= 0 {
            lemma_asset_index_same_paths(d1.assets, d2.assets, p);
        } else {
            lemma_asset_index_push(d1.assets, d2.assets.last(), p);
            assert(d2.assets =~= d1.assets.push(d2.assets.last()));
        }
    }
}

/// A second run over unchanged files converts nothing: when every result
/// of a run succeeded (one per path), and the next run's scan finds each of
/// those files, once each, with the hash the run started from, then every
/// file is unchanged and converted at the moment its hash is recorded, so
/// none becomes a job of a run that is not clean (see
/// `Runner::consider_file`).
pub proof fn law_second_run_converts_nothing(
    db: DbView,
    run_id: Seq<char>,
    results: Seq<AssetResult>,
    now: Seq<char>,
    converted: u32,
    errors: u32,
    files: Seq<(Seq<char>, Seq<char>, Seq<char>)>,
)
    requires
        forall|k: int| 0 <= k < results.len() ==> (#[trigger] results[k]).success,
        forall|j: int, k: int|
            0 <= j < k < results.len() ==> (#[trigger] results[j]).relative_path@ != (#[trigger] results[k]).relative_path@,
        forall|k: int| 0 <= k < results.len() ==> asset_index(db.assets, (#[trigger] results[k]).relative_path@) >= 0,
        forall|i: int| 0 <= i < files.len() ==> exists|k: int| 0 <= k < results.len() && (#[trigger] files[i]).0
            == (#[trigger] results[k]).relative_path@,
        forall|i: int, j: int| 0 <= i < j < files.len() ==> (#[trigger] files[i]).0 != (#[trigger] files[j]).0,
        forall|i: int| 0 <= i < files.len() ==> (#[trigger] files[i]).1 == db.assets[asset_index(db.assets, files[i].0)].sha256,
    ensures
        ({
            let after = spec_complete_run(spec_record_results(db, run_id, results, now), run_id, converted, errors);
            forall|i: int| 0 <= i < files.len() ==> !spec_needs_conversion(
                #[trigger] spec_upsert_all(after, files.take(i + 1)),
                files[i].0,
            )
        }),
{
    let recorded = spec_record_results(db, run_id, results, now);
    let after = spec_complete_run(recorded, run_id, converted, errors);
    assert(after.assets == recorded.assets);
    assert forall|i: int| 0 <= i < files.len() implies !spec_needs_conversion(
        #[trigger] spec_upsert_all(after, files.take(i + 1)),
        files[i].0,
    ) by {
        let f = files[i];
        let p = f.0;
        let k = choose|k: int| 0 <= k < results.len() && files[i].0 == (#[trigger] results[k]).relative_path@;
        assert forall|j: int| k < j < results.len() implies (#[trigger] results[j]).relative_path@
            != results[k].relative_path@ by {}
        lemma_record_last_success(db, run_id, results, now, k);
        lemma_record_keeps_paths(db, run_id, results, now);
        lemma_asset_index_same_paths(db.assets, recorded.assets, p);
        lemma_asset_index(db.assets, p);
        let ip = asset_index(db.assets, p);
        assert(results[k].relative_path@ == p);
        assert(ip >= 0);
        assert(asset_index(after.assets, p) == ip);
        assert(after.assets[ip].status == "ok"@);
        assert(after.assets[ip].sha256 == db.assets[ip].sha256);
        let before = files.take(i);
        assert forall|j: int| 0 <= j < before.len() implies (#[trigger] before[j]).0 != p by {
            assert(before[j] == files[j]);
        }
        lemma_upsert_others_keep(after, before, p);
        let d = spec_upsert_all(after, before);
        assert(files.take(i + 1).drop_last() =~= before);
        assert(files.take(i + 1).last() == f);
        assert(asset_index(d.assets, p) == ip);
        lemma_asset_index(d.assets, p);
        assert(d.assets[ip].status == "ok"@);
        assert(d.assets[ip].sha256 == f.1);
        let d2 = spec_upsert(d, p, f.1, f.2);
        assert(d2 == spec_upsert_all(after, files.take(i + 1)));
        assert(d2.assets.len() == d.assets.len());
        lemma_asset_index_same_paths(d.assets, d2.assets, p);
        lemma_ok_is_final();
    }
}

/// The number of successful results.
pub open spec fn count_success(results: Seq<AssetResult>) -> nat
    decreases results.len(),
{
    if results.len() == 0 {
        0
    } else {
        count_success(results.drop_last()) + if results.last().success {
            1nat
        } else {
            0nat
        }
    }
}

/// The counts of a finished run.
#[derive(Debug, Clone, Copy, PartialEq, Eq)]
pub struct RunCounts {
    pub converted: u32,
    pub errors: u32,
}

/// Counts the successful and failed results.
pub fn count_results(results: &Vec<AssetResult>) -> (res: RunCounts)
    requires
        results@.len() <= u32::MAX,
    ensures
        res.converted as nat == count_success(results@),
        res.converted + res.errors == results@.len(),
{
    let mut ok: u32 = 0;
    let n = results.len();
    for i in 0..n
        invariant
            n == results@.len(),
            n <= u32::MAX,
            ok as nat == count_success(results@.take(i as int)),
            ok <= i,
    {
        proof {
            assert(results@.take(i + 1).drop_last() =~= results@.take(i as int));
        }
        if results[i].success {
            ok = ok + 1;
        }
    }
    proof {
        assert(results@.take(n as int) =~= results@);
    }
    RunCounts { converted: ok, errors: (n as u32) - ok }
}

/// Runs the pipeline against its asset store.
pub struct Runner {
    db: AssetDb,
}

impl Runner {
    /// The runner's store is well formed.
    pub open spec fn wf(&self) -> bool {
        self.db().wf()
    }

    /// The runner's store.
    pub closed spec fn db(&self) -> AssetDb {
        self.db
    }

    /// A runner over an asset store.
    pub fn new(db: AssetDb) -> (res: Runner)
        requires
            db.wf(),
        ensures
            res.wf(),
            res.db()@ == db@,
    {
        Runner { db }
    }

    /// The runner's store.
    pub fn store(&self) -> (res: &AssetDb)
        ensures
            res@ == self.db()@,
    {
        &self.db
    }

    /// Gives the store back.
    pub fn into_store(self) -> (res: AssetDb)
        ensures
            res@ == self.db()@,
    {
        self.db
    }

    /// Starts a run: records it in the store, stamped now.
    pub fn begin_run(&mut self, run_id: &str) -> (res: Result<(), RiftError>)
        requires
            old(self).wf(),
        ensures
            final(self).wf(),
            match res {
                Ok(()) => run_index(old(self).db()@.runs, run_id@) == -1 && exists|now: Seq<char>|
                    final(self).db()@ == spec_create_run(old(self).db()@, run_id@, now),
                Err(_) => run_index(old(self).db()@.runs, run_id@) >= 0 && final(self).db()@ == old(self).db()@,
            },
    {
        self.db.create_run(run_id)
    }

    /// Decides whether a matched file becomes a job: its hash and
    /// modification time are recorded, and it is a job unless it is
    /// unchanged since its last conversion (a clean run takes every file).
    pub fn consider_file(
        &mut self,
        path: &str,
        relative: &str,
        rule_index: usize,
        hash: &str,
        modified: &str,
        clean: bool,
    ) -> (res: Option<AssetJob>)
        requires
            old(self).wf(),
        ensures
            final(self).wf(),
            final(self).db()@ == spec_upsert(old(self).db()@, relative@, hash@, modified@),
            match res {
                Some(job) => (clean || spec_needs_conversion(final(self).db()@, relative@)) && job.path@ == path@
                    && job.relative@ == relative@ && job.rule_index == rule_index,
                None => !clean && !spec_needs_conversion(final(self).db()@, relative@),
            },
    {
        self.db.upsert_asset(relative, hash, modified);
        if !clean && !self.db.needs_conversion(relative) {
            return None;
        }
        Some(AssetJob {
            path: to_owned_string(path),
            relative: to_owned_string(relative),
            rule_index,
        })
    }

    /// Records a run's results at time `now` (successes converted; failures
    /// marked with their messages and logged as errors of the run),
    /// completes the run with its counts, and names
    /// the hook to run after it.
    pub fn finish_run_at(&mut self, run_id: &str, config: &PipelineConfig, results: &Vec<AssetResult>, now: &str) -> (res: (RunCounts, Option<HookCall>))
        requires
            old(self).wf(),
            results@.len() <= u32::MAX,
        ensures
            final(self).wf(),
            res.0.converted as nat == count_success(results@),
            res.0.converted + res.0.errors == results@.len(),
            final(self).db()@ == spec_complete_run(
                spec_record_results(old(self).db()@, run_id@, results@, now@),
                run_id@,
                res.0.converted,
                res.0.errors,
            ),
            res.0.errors > 0 ==> is_hook(res.1, "on_error"@, config.hooks.on_error),
            res.0.errors == 0 ==> is_hook(res.1, "post_run"@, config.hooks.post_run),
    {
        let counts = count_results(results);
        let ghost start = self.db@;
        let n = results.len();
        for i in 0..n
            invariant
                n == results@.len(),
                self.db.wf(),
                self.db@ == spec_record_results(start, run_id@, results@.take(i as int), now@),
        {
            proof {
                assert(results@.take(i + 1).drop_last() =~= results@.take(i as int));
                assert(results@.take(i + 1).last() == results@[i as int]);
            }
            let r = &results[i];
            if r.success {
                self.db.mark_converted_at(r.relative_path.as_str(), now);
            } else {
                let msg = match &r.error {
                    Some(e) => e.as_str(),
                    None => "unknown error",
                };
                self.db.mark_error(r.relative_path.as_str(), msg);
                self.db.log_error_at(run_id, r.relative_path.as_str(), "conversion", msg, now);
            }
        }
        proof {
            assert(results@.take(n as int) =~= results@);
        }
        self.db.complete_run(run_id, counts.converted, counts.errors);
        let h = post_run_hook(config, counts.errors);
        (counts, h)
    }

    /// Records a run's results, stamped now, and completes the run.
    pub fn finish_run(&mut self, run_id: &str, config: &PipelineConfig, results: &Vec<AssetResult>) -> (res: (RunCounts, Option<HookCall>))
        requires
            old(self).wf(),
            results@.len() <= u32::MAX,
        ensures
            final(self).wf(),
            res.0.converted as nat == count_success(results@),
            res.0.converted + res.0.errors == results@.len(),
            exists|now: Seq<char>| final(self).db()@ == spec_complete_run(
                spec_record_results(old(self).db()@, run_id@, results@, now),
                run_id@,
                res.0.converted,
                res.0.errors,
            ),
            res.0.errors > 0 ==> is_hook(res.1, "on_error"@, config.hooks.on_error),
            res.0.errors == 0 ==> is_hook(res.1, "post_run"@, config.hooks.post_run),
    {
        let now = crate::clock::now_rfc3339();
        self.finish_run_at(run_id, config, results, now.as_str())
    }

    /// Completes a run that had nothing to do, and names the hook to run
    /// after it (`post_run`).
    pub fn finish_empty_run(&mut self, run_id: &str, config: &PipelineConfig) -> (res: Option<HookCall>)
        requires
            old(self).wf(),
        ensures
            final(self).wf(),
            final(self).db()@ == spec_complete_run(old(self).db()@, run_id@, 0, 0),
            is_hook(res, "post_run"@, config.hooks.post_run),
    {
        self.db.complete_run(run_id, 0, 0);
        post_run_hook(config, 0)
    }
}

/// The quiet time after a run during which file changes start no new run.
pub const DEBOUNCE_MILLIS: u64 = 500;

/// Watches the source directory and runs the pipeline on changes.
pub struct Watcher {
    runner: Runner,
}

impl Watcher {
    /// The watcher's runner.
    pub closed spec fn runner(&self) -> Runner {
        self.runner
    }

    /// A watcher driving a runner.
    pub fn new(runner: Runner) -> (res: Watcher)
        ensures
            res.runner() == runner,
    {
        Watcher { runner }
    }

    /// The watcher's runner, to run the pipeline with.
    pub fn runner_mut(&mut self) -> (res: &mut Runner)
        ensures
            *res == old(self).runner(),
            final(self).runner() == *final(res),
    {
        &mut self.runner
    }

    /// Whether a change starts a run: only when at least the debounce time
    /// has passed since the last run was triggered.
    pub fn should_run(elapsed_millis: u64) -> (res: bool)
        ensures
            res == (elapsed_millis >= DEBOUNCE_MILLIS),
    {
        elapsed_millis >= DEBOUNCE_MILLIS
    }
}

/// What happens to a watcher, with times in milliseconds on the program's
/// clock.
#[derive(Debug, Clone, Copy, PartialEq, Eq)]
pub enum WatchEvent {
    /// Watching has started.
    Started,
    /// A pipeline run ended.
    RunFinished { at_millis: u64 },
    /// A change was seen in the source directory.
    Changed { at_millis: u64 },
    /// The watcher's deadline came (see `WatchState::deadline`).
    Tick { at_millis: u64 },
}

/// What the watcher does next.
#[derive(Debug, Clone, Copy, PartialEq, Eq)]
pub enum WatchAction {
    /// Run the pipeline.
    Run,
    /// Do nothing.
    Wait,
}

/// The watch loop's state: when the last pipeline run ended, if one has,
/// and whether a change seen since is still waiting for a run.
#[derive(Debug, Clone, Copy, PartialEq, Eq)]
pub struct WatchState {
    pub last_run_end: Option<u64>,
    pub pending: bool,
}

/// At least the debounce time has passed from `last` to `at`.
pub open spec fn debounced(last: u64, at: u64) -> bool {
    at >= last && at - last >= DEBOUNCE_MILLIS
}

/// The watch loop's step: on start, run; when a run ends, remember when; on
/// a change, run when no run has ended yet or the debounce time has passed
/// since the last one ended, and otherwise keep the change pending; at a
/// tick, run a pending change once the debounce time has passed. A run
/// takes every change seen before it, so it clears the pending change.
pub open spec fn spec_watch_step(state: WatchState, event: WatchEvent) -> (WatchState, WatchAction) {
    let ran = WatchState { pending: false, ..state };
    match event {
        WatchEvent::Started => (ran, WatchAction::Run),
        WatchEvent::RunFinished { at_millis } => (
            WatchState { last_run_end: Some(at_millis), ..state },
            WatchAction::Wait,
        ),
        WatchEvent::Changed { at_millis } => match state.last_run_end {
            None => (ran, WatchAction::Run),
            Some(last) => if debounced(last, at_millis) {
                (ran, WatchAction::Run)
            } else {
                (WatchState { pending: true, ..state }, WatchAction::Wait)
            },
        },
        WatchEvent::Tick { at_millis } => match state.last_run_end {
            Some(last) => if state.pending && debounced(last, at_millis) {
                (ran, WatchAction::Run)
            } else {
                (state, WatchAction::Wait)
            },
            None => if state.pending {
                (ran, WatchAction::Run)
            } else {
                (state, WatchAction::Wait)
            },
        },
    }
}

/// When a pending change is due: the debounce time after the last run
/// ended (now, when no run has ended); nothing is due without a pending
/// change.
pub open spec fn spec_deadline(state: WatchState) -> Option<nat> {
    if state.pending {
        match state.last_run_end {
            Some(last) => Some((last + DEBOUNCE_MILLIS) as nat),
            None => Some(0nat),
        }
    } else {
        None
    }
}

/// A change was kept pending: the next state holds it, with the same last
/// run, due the debounce time after that run ended.
pub open spec fn kept_pending(state: WatchState, next: WatchState) -> bool {
    &&& next.pending
    &&& next.last_run_end == state.last_run_end
    &&& match state.last_run_end {
        Some(last) => spec_deadline(next) == Some((last + DEBOUNCE_MILLIS) as nat),
        None => false,
    }
}

impl WatchState {
    /// The state before watching starts: no run has ended, nothing pending.
    pub fn new() -> (res: WatchState)
        ensures
            res.last_run_end is None,
            !res.pending,
    {
        WatchState { last_run_end: None, pending: false }
    }

    /// When the loop must wake up to run a pending change (saturated at
    /// `u64::MAX`), if a change is pending.
    pub fn deadline(&self) -> (res: Option<u64>)
        ensures
            match (res, spec_deadline(*self)) {
                (Some(d), Some(due)) => d == (if due > u64::MAX {
                    u64::MAX as nat
                } else {
                    due
                }),
                (None, None) => true,
                _ => false,
            },
    {
        if self.pending {
            match self.last_run_end {
                Some(last) => Some(last.saturating_add(DEBOUNCE_MILLIS)),
                None => Some(0),
            }
        } else {
            None
        }
    }

    /// The watch loop's decision for an event (see `spec_watch_step`).
    pub fn step(self, event: WatchEvent) -> (res: (WatchState, WatchAction))
        ensures
            res == spec_watch_step(self, event),
    {
        let ran = WatchState { pending: false, ..self };
        match event {
            WatchEvent::Started => (ran, WatchAction::Run),
            WatchEvent::RunFinished { at_millis } => (WatchState { last_run_end: Some(at_millis), ..self }, WatchAction::Wait),
            WatchEvent::Changed { at_millis } => match self.last_run_end {
                None => (ran, WatchAction::Run),
                Some(last) => {
                    if at_millis >= last && Watcher::should_run(at_millis - last) {
                        (ran, WatchAction::Run)
                    } else {
                        (WatchState { pending: true, ..self }, WatchAction::Wait)
                    }
                },
            },
            WatchEvent::Tick { at_millis } => match self.last_run_end {
                Some(last) => {
                    if self.pending && at_millis >= last && Watcher::should_run(at_millis - last) {
                        (ran, WatchAction::Run)
                    } else {
                        (self, WatchAction::Wait)
                    }
                },
                None => {
                    if self.pending {
                        (ran, WatchAction::Run)
                    } else {
                        (self, WatchAction::Wait)
                    }
                },
            },
        }
    }
}

/// No change is lost, and runs are debounced:
/// - watching starts with a run;
/// - a change either starts a run at once, or (at least the debounce time
///   not having passed since the last run ended) is kept pending, due the
///   debounce time after that run's end;
/// - a pending change stays pending, with the same due time, until a run
///   starts: only a run clears it, and only a run's end moves the due time;
/// - a tick at or after the due time runs the pending change;
/// - a change or a tick starts a run only when no run has ended yet or at
///   least the debounce time has passed since the last one ended.
pub proof fn law_watch_no_change_lost(state: WatchState, event: WatchEvent)
    ensures
        event == WatchEvent::Started ==> spec_watch_step(state, event).1 == WatchAction::Run,
        event is Changed ==> (spec_watch_step(state, event).1 == WatchAction::Run || kept_pending(
            state,
            spec_watch_step(state, event).0,
        )),
        (state.pending && spec_watch_step(state, event).1 == WatchAction::Wait) ==> spec_watch_step(
            state,
            event,
        ).0.pending,
        (state.pending && !(event is RunFinished) && spec_watch_step(state, event).1 == WatchAction::Wait)
            ==> spec_deadline(spec_watch_step(state, event).0) == spec_deadline(state),
        spec_watch_step(state, event).1 == WatchAction::Run ==> !spec_watch_step(state, event).0.pending,
        match (event, spec_deadline(state)) {
            (WatchEvent::Tick { at_millis }, Some(due)) => at_millis >= due ==> spec_watch_step(
                state,
                event,
            ).1 == WatchAction::Run,
            _ => true,
        },
        match (event, state.last_run_end) {
            (WatchEvent::Changed { at_millis }, Some(last)) => spec_watch_step(state, event).1
                == WatchAction::Run ==> debounced(last, at_millis),
            (WatchEvent::Tick { at_millis }, Some(last)) => spec_watch_step(state, event).1
                == WatchAction::Run ==> debounced(last, at_millis),
            _ => true,
        },
{
}

/// The watcher's state after a sequence of events.
pub open spec fn fold_watch(state: WatchState, events: Seq<WatchEvent>) -> WatchState
    decreases events.len(),
{
    if events.len() == 0 {
        state
    } else {
        spec_watch_step(fold_watch(state, events.drop_last()), events.last()).0
    }
}

/// The `i`-th event of a sequence starts a run.
pub open spec fn runs_at(state: WatchState, events: Seq<WatchEvent>, i: int) -> bool {
    spec_watch_step(fold_watch(state, events.take(i)), events[i]).1 == WatchAction::Run
}

proof fn lemma_pending_kept(state: WatchState, events: Seq<WatchEvent>, k: int)
    requires
        state.pending,
        0 <= k <= events.len(),
        forall|i: int| 0 <= i < k ==> !((#[trigger] events[i]) is RunFinished),
        forall|i: int| 0 <= i < k ==> !runs_at(state, events, i),
    ensures
        fold_watch(state, events.take(k)).pending,
        spec_deadline(fold_watch(state, events.take(k))) == spec_deadline(state),
    decreases k,
{
    if k == 0 {
        assert(events.take(0) =~= Seq::<WatchEvent>::empty());
    } else {
        lemma_pending_kept(state, events, k - 1);
        assert(events.take(k).drop_last() =~= events.take(k - 1));
        assert(events.take(k).last() == events[k - 1]);
        assert(!runs_at(state, events, k - 1));
        law_watch_no_change_lost(fold_watch(state, events.take(k - 1)), events[k - 1]);
    }
}

/// A pending change is never lost: over any events that follow it (with no
/// run ending in between, as a run's end only follows a run), a tick at or
/// after its due time finds that a run has started, at that tick or
/// before.
pub proof fn law_pending_change_runs_by_deadline(state: WatchState, events: Seq<WatchEvent>, due: nat)
    requires
        state.pending,
        spec_deadline(state) == Some(due),
        forall|i: int| 0 <= i < events.len() ==> !((#[trigger] events[i]) is RunFinished),
        events.len() > 0,
        events.last() matches WatchEvent::Tick { at_millis } && at_millis >= due,
    ensures
        exists|i: int| 0 <= i < events.len() && runs_at(state, events, i),
{
    let n = events.len() as int;
    if !(exists|i: int| 0 <= i < n && runs_at(state, events, i)) {
        assert forall|i: int| 0 <= i < n - 1 implies !runs_at(state, events, i) by {}
        lemma_pending_kept(state, events, n - 1);
        law_watch_no_change_lost(fold_watch(state, events.take(n - 1)), events[n - 1]);
        assert(events[n - 1] == events.last());
        assert(runs_at(state, events, n - 1));
    }
}

} // verus!
