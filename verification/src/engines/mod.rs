//! Engine metadata written beside each converted asset.

pub mod unity;
pub mod godot;
pub mod unreal;

use vstd::prelude::*;
use crate::config::TargetConfig;
use crate::paths::{lemma_with_own_extension, spec_extension, spec_extension_or_empty, spec_with_extension, trim_tail};
use crate::text::{spec_to_lowercase, str_eq};
use self::unreal::UnrealDocument;

verus! {

/// A metadata file to write beside a converted asset.
#[derive(Debug, Clone)]
pub enum EngineExport {
    /// A text file: its path and content.
    Text { path: String, content: String },
    /// An Unreal import settings document, written as JSON at `path`.
    Unreal { path: String, document: UnrealDocument },
}

/// `res` is the metadata a target's engine wants for the asset at
/// `output_path`.
pub open spec fn is_engine_export(res: Option<EngineExport>, output_path: Seq<char>, target: TargetConfig) -> bool {
    if target.engine@ == "unity"@ {
        res matches Some(e) && unity::is_unity_meta(e, output_path)
    } else if target.engine@ == "godot"@ {
        godot::is_godot_import(res, output_path)
    } else if target.engine@ == "unreal"@ {
        res matches Some(e) && unreal::is_unreal_settings(e, output_path, target)
    } else {
        res is None
    }
}

/// The engine metadata for a converted asset: a Unity `.meta` file, a
/// Godot `.import` file, Unreal JSON import settings, or nothing for an
/// engine the pipeline does not know.
pub fn generate_meta(output_path: &str, target: &TargetConfig) -> (res: Option<EngineExport>)
    ensures
        is_engine_export(res, output_path@, *target),
{
    if str_eq(target.engine.as_str(), "unity") {
        Some(unity::generate_meta(output_path, target))
    } else if str_eq(target.engine.as_str(), "godot") {
        godot::generate_import(output_path, target)
    } else if str_eq(target.engine.as_str(), "unreal") {
        Some(unreal::generate_import_settings(output_path, target))
    } else {
        None
    }
}

/// The path an export is written to.
pub open spec fn export_path(e: EngineExport) -> Seq<char> {
    match e {
        EngineExport::Text { path, .. } => path@,
        EngineExport::Unreal { path, .. } => path@,
    }
}

/// The lowercased extension of a path (empty when it has none).
pub open spec fn lower_ext(p: Seq<char>) -> Seq<char> {
    spec_to_lowercase(spec_extension_or_empty(p))
}

/// One sidecar beside each asset, for every asset path: Unity and Unreal
/// get exactly one metadata file, at the path with `.meta` added after its
/// extension as written, or with `.json` after its lowercased extension;
/// Godot gets one, with `.import` after the lowercased extension, exactly
/// when it imports that type; an engine the pipeline does not know gets
/// none. When the extension is already lowercase and the path has no
/// trailing separator, each sidecar's path is the asset's path followed by
/// `.meta`, `.import` or `.json`.
pub proof fn law_one_sidecar(res: Option<EngineExport>, p: Seq<char>, target: TargetConfig)
    requires
        is_engine_export(res, p, target),
    ensures
        target.engine@ == "unity"@ ==> (res matches Some(e) && e is Text && export_path(e)
            == spec_with_extension(p, spec_extension_or_empty(p) + ".meta"@)),
        target.engine@ == "unreal"@ ==> (res matches Some(e) && e is Unreal && export_path(e)
            == spec_with_extension(p, lower_ext(p) + ".json"@)),
        target.engine@ == "godot"@ ==> (res is Some <==> godot::spec_godot_kind(lower_ext(p)) is Some) && (res matches Some(e)
            ==> e is Text && export_path(e) == spec_with_extension(p, lower_ext(p) + ".import"@)),
        !(target.engine@ == "unity"@ || target.engine@ == "godot"@ || target.engine@ == "unreal"@) ==> res is None,
        (spec_extension(p) is Some && trim_tail(p) == p && lower_ext(p) == spec_extension_or_empty(p)
            && res matches Some(e)) ==> export_path(res->0) == p + (if target.engine@ == "unity"@ {
            ".meta"@
        } else if target.engine@ == "godot"@ {
            ".import"@
        } else {
            ".json"@
        }),
{
    reveal_strlit("unity");
    reveal_strlit("godot");
    reveal_strlit("unreal");
    reveal_strlit(".meta");
    reveal_strlit(".json");
    reveal_strlit(".import");
    assert("unreal"@.len() != "unity"@.len());
    assert("unreal"@.len() != "godot"@.len());
    assert("godot"@[0] != "unity"@[0]);
    if spec_extension(p) is Some && trim_tail(p) == p {
        lemma_with_own_extension(p, ".meta"@);
        lemma_with_own_extension(p, ".json"@);
        lemma_with_own_extension(p, ".import"@);
    }
}

} // verus!
