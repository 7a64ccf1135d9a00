//! The pipeline configuration that `rift.yml` holds.

use vstd::prelude::*;
use std::collections::HashMap;
use crate::error::RiftError;
use crate::paths::{join, spec_join};
use crate::text::to_owned_string;

verus! {

/// Full pipeline configuration.
#[derive(Debug, Clone)]
pub struct PipelineConfig {
    pub pipeline: PipelineMeta,
    pub source: SourceConfig,
    pub targets: Vec<TargetConfig>,
    pub rules: Vec<RuleConfig>,
    pub hooks: HooksConfig,
}

/// Shell commands run around a pipeline run.
#[derive(Debug, Clone)]
pub struct HooksConfig {
    /// Run before the pipeline starts.
    pub pre_run: Option<String>,
    /// Run after the pipeline completes without errors.
    pub post_run: Option<String>,
    /// Run when the pipeline encounters errors.
    pub on_error: Option<String>,
}

impl Default for HooksConfig {
    fn default() -> (res: Self)
        ensures
            res.pre_run is None,
            res.post_run is None,
            res.on_error is None,
    {
        HooksConfig { pre_run: None, post_run: None, on_error: None }
    }
}

/// The pipeline's name and format version.
#[derive(Debug, Clone)]
pub struct PipelineMeta {
    pub name: String,
    pub version: u32,
}

/// Where the raw assets are.
#[derive(Debug, Clone)]
pub struct SourceConfig {
    pub root: String,
    pub watch: bool,
}

/// The value of `source.watch` when the file leaves it out.
pub fn default_true() -> (res: bool)
    ensures
        res,
{
    true
}

/// One engine project that assets are exported to.
#[derive(Debug, Clone)]
pub struct TargetConfig {
    pub engine: String,
    pub project: String,
    pub textures: TextureTargetConfig,
    pub audio: AudioTargetConfig,
}

/// How textures are written for a target.
#[derive(Debug, Clone)]
pub struct TextureTargetConfig {
    pub format: String,
    pub max_width: u32,
    pub max_height: u32,
    pub generate_mipmaps: bool,
}

/// The texture format when the file leaves it out.
pub fn default_texture_format() -> (res: String)
    ensures
        res@ == "png"@,
{
    to_owned_string("png")
}

/// The maximum texture dimension when the file leaves it out.
pub fn default_max_dim() -> (res: u32)
    ensures
        res == 2048,
{
    2048
}

impl Default for TextureTargetConfig {
    fn default() -> (res: Self)
        ensures
            res.format@ == "png"@,
            res.max_width == 2048,
            res.max_height == 2048,
            !res.generate_mipmaps,
    {
        TextureTargetConfig {
            format: default_texture_format(),
            max_width: default_max_dim(),
            max_height: default_max_dim(),
            generate_mipmaps: false,
        }
    }
}

/// How audio is written for a target.
#[derive(Debug, Clone)]
pub struct AudioTargetConfig {
    pub format: String,
    pub bitrate: String,
}

/// The audio format when the file leaves it out.
pub fn default_audio_format() -> (res: String)
    ensures
        res@ == "ogg"@,
{
    to_owned_string("ogg")
}

/// The audio bitrate when the file leaves it out.
pub fn default_bitrate() -> (res: String)
    ensures
        res@ == "128k"@,
{
    to_owned_string("128k")
}

impl Default for AudioTargetConfig {
    fn default() -> (res: Self)
        ensures
            res.format@ == "ogg"@,
            res.bitrate@ == "128k"@,
    {
        AudioTargetConfig { format: default_audio_format(), bitrate: default_bitrate() }
    }
}

/// A rule: which files it applies to and what is done with them.
#[derive(Debug, Clone)]
pub struct RuleConfig {
    pub pattern: String,
    pub convert: Option<String>,
    pub validate: bool,
    pub remove_original: bool,
    pub parameters: Option<HashMap<String, String>>,
}

// ---------------------------------------------------------------------------
// Finding rift.yml
// ---------------------------------------------------------------------------

/// The file names a configuration is looked for under, in order.
pub open spec fn config_names() -> Seq<Seq<char>> {
    seq!["rift.yml"@, "rift.yaml"@, ".rift.yml"@]
}

/// The configuration file names joined to one directory.
pub open spec fn names_in(dir: Seq<char>) -> Seq<Seq<char>> {
    config_names().map_values(|n: Seq<char>| spec_join(dir, n))
}

/// The configuration file names joined to each directory in turn.
pub open spec fn names_in_all(dirs: Seq<Seq<char>>) -> Seq<Seq<char>>
    decreases dirs.len(),
{
    if dirs.len() == 0 {
        Seq::empty()
    } else {
        names_in_all(dirs.drop_last()) + names_in(dirs.last())
    }
}

/// The paths looked at, in order, to find a configuration: the bare names
/// (relative to the working directory), then the names in each of the
/// working directory's ancestors, nearest first.
pub open spec fn discovery_order(ancestors: Seq<Seq<char>>) -> Seq<Seq<char>> {
    config_names() + names_in_all(ancestors)
}

/// The views of a vector of strings.
pub open spec fn string_views(v: Seq<String>) -> Seq<Seq<char>> {
    v.map_values(|s: String| s@)
}

/// The three configuration file names.
fn push_names_in(out: &mut Vec<String>, dir: &str)
    ensures
        string_views(final(out)@) == string_views(old(out)@) + names_in(dir@),
{
    let ghost before = string_views(out@);
    out.push(join(dir, "rift.yml"));
    out.push(join(dir, "rift.yaml"));
    out.push(join(dir, ".rift.yml"));
    proof {
        assert(string_views(out@) =~= before + names_in(dir@));
    }
}

/// Every path at which a configuration is looked for, in order, given the
/// working directory's ancestors (the directory itself first).
pub fn discovery_candidates(ancestors: &Vec<String>) -> (res: Vec<String>)
    ensures
        string_views(res@) == discovery_order(string_views(ancestors@)),
{
    let mut out: Vec<String> = Vec::new();
    out.push(to_owned_string("rift.yml"));
    out.push(to_owned_string("rift.yaml"));
    out.push(to_owned_string(".rift.yml"));
    proof {
        assert(string_views(out@) =~= config_names());
        assert(string_views(ancestors@).take(0) =~= Seq::<Seq<char>>::empty());
    }
    let n = ancestors.len();
    for i in 0..n
        invariant
            n == ancestors@.len(),
            string_views(out@) == config_names() + names_in_all(
                string_views(ancestors@).take(i as int),
            ),
    {
        let ghost before = string_views(out@);
        push_names_in(&mut out, ancestors[i].as_str());
        proof {
            let a = string_views(ancestors@);
            assert(a.take(i + 1).drop_last() =~= a.take(i as int));
            assert(a.take(i + 1).last() == ancestors@[i as int]@);
            assert(string_views(out@) =~= config_names() + names_in_all(a.take(i + 1)));
        }
    }
    proof {
        assert(string_views(ancestors@).take(n as int) =~= string_views(ancestors@));
    }
    out
}

/// Picks the configuration file: the first candidate that exists, or the
/// error that no configuration was found.
pub fn choose_config_path(candidates: &Vec<String>, exists: &Vec<bool>) -> (res: Result<
    String,
    RiftError,
>)
    requires
        candidates@.len() == exists@.len(),
    ensures
        match res {
            Ok(p) => exists|i: int|
                0 <= i < exists@.len() && exists@[i] && p@ == candidates@[i]@ && forall|j: int|
                    0 <= j < i ==> !exists@[j],
            Err(e) => (forall|i: int| 0 <= i < exists@.len() ==> !exists@[i]) && (e matches RiftError::Config(m) && m@
                == "No rift.yml found in current or parent directories"@),
        },
{
    let n = candidates.len();
    for i in 0..n
        invariant
            n == candidates@.len(),
            n == exists@.len(),
            forall|j: int| 0 <= j < i ==> !exists@[j],
    {
        if exists[i] {
            return Ok(candidates[i].clone());
        }
    }
    Err(RiftError::Config(to_owned_string("No rift.yml found in current or parent directories")))
}

} // verus!
