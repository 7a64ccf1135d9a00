//! The decisions behind the command-line commands: the configuration `init`
//! writes, the summary `status` prints, and whether `upgrade` finds a newer
//! release.

use vstd::prelude::*;
use crate::config::{AudioTargetConfig, HooksConfig, PipelineConfig, PipelineMeta, RuleConfig, SourceConfig, TargetConfig, TextureTargetConfig};
use crate::db::total_of;
use crate::digest::is_hex_char;
use crate::pipeline::is_hyphenated_uuid;
use crate::text::{all_ascii, chars_of, lemma_ascii_utf8, lemma_ascii_utf8_prefix, spec_trim_start_char, str_eq, string_from_chars, to_owned_string, trim_start_char};

verus! {

/// The configuration file `init` writes.
pub const CONFIG_FILE: &'static str = "rift.yml";

/// The source directory `init` creates.
pub const SOURCE_ROOT: &'static str = "raw-assets";

/// The state directory `init` creates.
pub const STATE_DIR: &'static str = ".rift";

/// A target with these settings (PNG textures without mipmaps).
pub open spec fn target_is(
    t: TargetConfig,
    engine: Seq<char>,
    project: Seq<char>,
    max_dim: u32,
    audio_format: Seq<char>,
    bitrate: Seq<char>,
) -> bool {
    &&& t.engine@ == engine
    &&& t.project@ == project
    &&& t.textures.format@ == "png"@
    &&& t.textures.max_width == max_dim
    &&& t.textures.max_height == max_dim
    &&& !t.textures.generate_mipmaps
    &&& t.audio.format@ == audio_format
    &&& t.audio.bitrate@ == bitrate
}

/// A rule with this pattern and conversion, validating or not, that keeps
/// originals and has no parameters.
pub open spec fn rule_is(r: RuleConfig, pattern: Seq<char>, convert: Seq<char>, validate: bool) -> bool {
    &&& r.pattern@ == pattern
    &&& r.convert matches Some(c) && c@ == convert
    &&& r.validate == validate
    &&& !r.remove_original
    &&& r.parameters is None
}

/// The targets `init` configures for an engine choice: one target for
/// "unity", "godot" or "unreal", all three (in their own project
/// directories) for anything else.
pub open spec fn init_targets_ok(targets: Seq<TargetConfig>, engine: Seq<char>) -> bool {
    if engine == "unity"@ {
        targets.len() == 1 && target_is(targets[0], "unity"@, "Assets/Rift"@, 2048, "ogg"@, "128k"@)
    } else if engine == "godot"@ {
        targets.len() == 1 && target_is(targets[0], "godot"@, "assets/rift"@, 2048, "ogg"@, "128k"@)
    } else if engine == "unreal"@ {
        targets.len() == 1 && target_is(targets[0], "unreal"@, "Content/Rift"@, 4096, "wav"@, "44100"@)
    } else {
        &&& targets.len() == 3
        &&& target_is(targets[0], "unity"@, "unity-project/Assets/Rift"@, 2048, "ogg"@, "128k"@)
        &&& target_is(targets[1], "godot"@, "godot-project/assets/rift"@, 1024, "ogg"@, "128k"@)
        &&& target_is(targets[2], "unreal"@, "unreal-project/Content/Rift"@, 4096, "wav"@, "44100"@)
    }
}

/// The rules `init` writes: textures, audio and (validated) models by
/// extension.
pub open spec fn init_rules_ok(rules: Seq<RuleConfig>) -> bool {
    &&& rules.len() == 11
    &&& rule_is(rules[0], "**/*.psd"@, "textures"@, false)
    &&& rule_is(rules[1], "**/*.png"@, "textures"@, false)
    &&& rule_is(rules[2], "**/*.jpg"@, "textures"@, false)
    &&& rule_is(rules[3], "**/*.jpeg"@, "textures"@, false)
    &&& rule_is(rules[4], "**/*.tga"@, "textures"@, false)
    &&& rule_is(rules[5], "**/*.wav"@, "audio"@, false)
    &&& rule_is(rules[6], "**/*.mp3"@, "audio"@, false)
    &&& rule_is(rules[7], "**/*.fbx"@, "models"@, true)
    &&& rule_is(rules[8], "**/*.gltf"@, "models"@, true)
    &&& rule_is(rules[9], "**/*.glb"@, "models"@, true)
    &&& rule_is(rules[10], "**/*.obj"@, "models"@, true)
}

/// The configuration `init` writes for an engine choice.
pub open spec fn is_init_config(c: PipelineConfig, engine: Seq<char>) -> bool {
    &&& c.pipeline.name@ == "game-assets"@
    &&& c.pipeline.version == 1
    &&& c.source.root@ == "raw-assets"@
    &&& c.source.watch
    &&& init_targets_ok(c.targets@, engine)
    &&& init_rules_ok(c.rules@)
    &&& c.hooks.pre_run is None
    &&& c.hooks.post_run is None
    &&& c.hooks.on_error is None
}

/// The configuration `init` writes: the pipeline "game-assets" version 1
/// watching `raw-assets`, no hooks, eleven rules (textures, audio, and
/// models that are validated); for "unity", "godot" or "unreal" one target
/// of that engine in its project directory (`Assets/Rift`, `assets/rift`,
/// `Content/Rift`), and for anything else the three engines in their own
/// project directories.
pub proof fn law_init_config(c: PipelineConfig, engine: Seq<char>)
    requires
        is_init_config(c, engine),
    ensures
        c.pipeline.name@ == "game-assets"@ && c.pipeline.version == 1,
        c.source.root@ == "raw-assets"@ && c.source.watch,
        c.hooks.pre_run is None && c.hooks.post_run is None && c.hooks.on_error is None,
        c.rules@.len() == 11,
        forall|i: int| 0 <= i < 11 ==> (#[trigger] c.rules@[i]).convert is Some && (c.rules@[i].validate <==> i >= 7),
        engine == "unity"@ ==> c.targets@.len() == 1 && c.targets@[0].engine@ == "unity"@ && c.targets@[0].project@
            == "Assets/Rift"@,
        engine == "godot"@ ==> c.targets@.len() == 1 && c.targets@[0].engine@ == "godot"@ && c.targets@[0].project@
            == "assets/rift"@,
        engine == "unreal"@ ==> c.targets@.len() == 1 && c.targets@[0].engine@ == "unreal"@ && c.targets@[0].project@
            == "Content/Rift"@,
        !(engine == "unity"@ || engine == "godot"@ || engine == "unreal"@) ==> c.targets@.len() == 3
            && c.targets@[0].engine@ == "unity"@ && c.targets@[1].engine@ == "godot"@ && c.targets@[2].engine@
            == "unreal"@ && c.targets@[0].project@ == "unity-project/Assets/Rift"@ && c.targets@[1].project@
            == "godot-project/assets/rift"@ && c.targets@[2].project@ == "unreal-project/Content/Rift"@,
{
    reveal_strlit("unity");
    reveal_strlit("godot");
    reveal_strlit("unreal");
    assert("unity"@[0] != "godot"@[0]);
    assert("unreal"@.len() != "unity"@.len() && "unreal"@.len() != "godot"@.len());
    assert forall|i: int| 0 <= i < 11 implies (#[trigger] c.rules@[i]).convert is Some && (c.rules@[i].validate
        <==> i >= 7) by {
        if i == 0 {} else if i == 1 {} else if i == 2 {} else if i == 3 {} else if i == 4 {} else if i == 5 {}
        else if i == 6 {} else if i == 7 {} else if i == 8 {} else if i == 9 {} else {}
    }
}

fn make_target(engine: &str, project: &str, max_dim: u32, audio_format: &str, bitrate: &str) -> (res: TargetConfig)
    ensures
        target_is(res, engine@, project@, max_dim, audio_format@, bitrate@),
{
    TargetConfig {
        engine: to_owned_string(engine),
        project: to_owned_string(project),
        textures: TextureTargetConfig {
            format: to_owned_string("png"),
            max_width: max_dim,
            max_height: max_dim,
            generate_mipmaps: false,
        },
        audio: AudioTargetConfig {
            format: to_owned_string(audio_format),
            bitrate: to_owned_string(bitrate),
        },
    }
}

fn make_rule(pattern: &str, convert: &str, validate: bool) -> (res: RuleConfig)
    ensures
        rule_is(res, pattern@, convert@, validate),
{
    RuleConfig {
        pattern: to_owned_string(pattern),
        convert: Some(to_owned_string(convert)),
        validate,
        remove_original: false,
        parameters: None,
    }
}

/// The configuration `init` writes for an engine choice ("unity",
/// "godot", "unreal", or anything else for all three).
pub fn init_config(engine: &str) -> (res: PipelineConfig)
    ensures
        is_init_config(res, engine@),
{
    let mut targets: Vec<TargetConfig> = Vec::new();
    if str_eq(engine, "unity") {
        targets.push(make_target("unity", "Assets/Rift", 2048, "ogg", "128k"));
    } else if str_eq(engine, "godot") {
        targets.push(make_target("godot", "assets/rift", 2048, "ogg", "128k"));
    } else if str_eq(engine, "unreal") {
        targets.push(make_target("unreal", "Content/Rift", 4096, "wav", "44100"));
    } else {
        targets.push(make_target("unity", "unity-project/Assets/Rift", 2048, "ogg", "128k"));
        targets.push(make_target("godot", "godot-project/assets/rift", 1024, "ogg", "128k"));
        targets.push(make_target("unreal", "unreal-project/Content/Rift", 4096, "wav", "44100"));
    }
    let mut rules: Vec<RuleConfig> = Vec::new();
    rules.push(make_rule("**/*.psd", "textures", false));
    rules.push(make_rule("**/*.png", "textures", false));
    rules.push(make_rule("**/*.jpg", "textures", false));
    rules.push(make_rule("**/*.jpeg", "textures", false));
    rules.push(make_rule("**/*.tga", "textures", false));
    rules.push(make_rule("**/*.wav", "audio", false));
    rules.push(make_rule("**/*.mp3", "audio", false));
    rules.push(make_rule("**/*.fbx", "models", true));
    rules.push(make_rule("**/*.gltf", "models", true));
    rules.push(make_rule("**/*.glb", "models", true));
    rules.push(make_rule("**/*.obj", "models", true));
    PipelineConfig {
        pipeline: PipelineMeta { name: to_owned_string("game-assets"), version: 1 },
        source: SourceConfig { root: to_owned_string("raw-assets"), watch: true },
        targets,
        rules,
        hooks: HooksConfig { pre_run: None, post_run: None, on_error: None },
    }
}

/// The count for a status in a list of counts (0 when absent).
pub open spec fn count_for(counts: Seq<(String, u32)>, status: Seq<char>) -> u32
    decreases counts.len(),
{
    if counts.len() == 0 {
        0
    } else if counts[0].0@ == status {
        counts[0].1
    } else {
        count_for(counts.drop_first(), status)
    }
}

/// The figures `status` prints.
#[derive(Debug, Clone, Copy, PartialEq, Eq)]
pub struct StatusSummary {
    pub total: u32,
    pub ok: u32,
    pub pending: u32,
    pub errors: u32,
}

fn lookup(counts: &Vec<(String, u32)>, status: &str) -> (res: u32)
    ensures
        res == count_for(counts@, status@),
{
    let n = counts.len();
    let mut i: usize = 0;
    proof {
        assert(counts@.subrange(0, n as int) =~= counts@);
    }
    while i < n
        invariant
            n == counts@.len(),
            i <= n,
            count_for(counts@, status@) == count_for(counts@.subrange(i as int, n as int), status@),
        decreases n - i,
    {
        if str_eq(counts[i].0.as_str(), status) {
            return counts[i].1;
        }
        proof {
            assert(counts@.subrange(i as int, n as int).drop_first() =~= counts@.subrange(i + 1, n as int));
        }
        i = i + 1;
    }
    0
}

/// The summary of a list of asset counts: their total, and the counts of
/// "ok", "pending" and "error" assets.
pub fn summarize_counts(counts: &Vec<(String, u32)>) -> (res: StatusSummary)
    requires
        total_of(counts@) <= u32::MAX,
    ensures
        res.total as nat == total_of(counts@),
        res.ok == count_for(counts@, "ok"@),
        res.pending == count_for(counts@, "pending"@),
        res.errors == count_for(counts@, "error"@),
{
    let mut total: u32 = 0;
    let n = counts.len();
    for i in 0..n
        invariant
            n == counts@.len(),
            total_of(counts@) <= u32::MAX,
            total as nat == total_of(counts@.take(i as int)),
    {
        proof {
            assert(counts@.take(i + 1).drop_last() =~= counts@.take(i as int));
            lemma_total_prefix(counts@, i + 1);
        }
        total = total + counts[i].1;
    }
    proof {
        assert(counts@.take(n as int) =~= counts@);
    }
    StatusSummary {
        total,
        ok: lookup(counts, "ok"),
        pending: lookup(counts, "pending"),
        errors: lookup(counts, "error"),
    }
}

proof fn lemma_total_prefix(counts: Seq<(String, u32)>, k: int)
    requires
        0 <= k <= counts.len(),
    ensures
        total_of(counts.take(k)) <= total_of(counts),
    decreases counts.len() - k,
{
    if k < counts.len() {
        lemma_total_prefix(counts, k + 1);
        assert(counts.take(k + 1).drop_last() =~= counts.take(k));
    } else {
        assert(counts.take(k) =~= counts);
    }
}

/// How an asset's status is shown.
#[derive(Debug, Clone, Copy, PartialEq, Eq)]
pub enum AssetMarker {
    /// Converted: a green check.
    Converted,
    /// Failed: a red cross.
    Failed,
    /// Anything else: a yellow ellipsis.
    Waiting,
}

/// How an asset's status is shown.
pub fn asset_marker(status: &str) -> (res: AssetMarker)
    ensures
        res == (if status@ == "ok"@ {
            AssetMarker::Converted
        } else if status@ == "error"@ {
            AssetMarker::Failed
        } else {
            AssetMarker::Waiting
        }),
{
    if str_eq(status, "ok") {
        AssetMarker::Converted
    } else if str_eq(status, "error") {
        AssetMarker::Failed
    } else {
        AssetMarker::Waiting
    }
}

/// How a run's status is shown.
#[derive(Debug, Clone, Copy, PartialEq, Eq)]
pub enum RunMarker {
    Completed,
    Running,
    Failed,
    Other,
}

/// How a run's status is shown.
pub fn run_marker(status: &str) -> (res: RunMarker)
    ensures
        res == (if status@ == "completed"@ {
            RunMarker::Completed
        } else if status@ == "running"@ {
            RunMarker::Running
        } else if status@ == "failed"@ {
            RunMarker::Failed
        } else {
            RunMarker::Other
        }),
{
    if str_eq(status, "completed") {
        RunMarker::Completed
    } else if str_eq(status, "running") {
        RunMarker::Running
    } else if str_eq(status, "failed") {
        RunMarker::Failed
    } else {
        RunMarker::Other
    }
}

/// The first eight bytes of a run id, as `status` prints it; for an ASCII
/// id, its first eight characters.
pub fn run_id_prefix(id: &str) -> (res: &str)
    requires
        vstd::utf8::is_char_boundary(vstd::utf8::encode_utf8(id@), 8),
        vstd::utf8::encode_utf8(id@).len() >= 8,
    ensures
        vstd::utf8::encode_utf8(res@) == vstd::utf8::encode_utf8(id@).subrange(0, 8),
        all_ascii(id@) ==> res@ == id@.subrange(0, 8),
{
    let (head, _) = id.split_at(8);
    proof {
        if all_ascii(id@) {
            lemma_ascii_utf8(id@);
            lemma_ascii_utf8_prefix(id@, 8);
            vstd::utf8::encode_utf8_decode_utf8(head@);
            vstd::utf8::encode_utf8_decode_utf8(id@.subrange(0, 8));
        }
    }
    head
}

/// Every run id the pipeline makes (a hyphenated UUID) is ASCII and at
/// least eight characters long, so `status` can print its eight-character
/// prefix.
pub proof fn law_run_ids_have_prefix(id: Seq<char>)
    requires
        is_hyphenated_uuid(id),
    ensures
        all_ascii(id),
        vstd::utf8::encode_utf8(id).len() >= 8,
        vstd::utf8::is_char_boundary(vstd::utf8::encode_utf8(id), 8),
{
    assert forall|i: int| 0 <= i < id.len() implies (id[i] as u32) < 128 by {
        if i == 8 || i == 13 || i == 18 || i == 23 {
            assert(id[i] == '-');
        } else {
            assert(is_hex_char(id[i]));
        }
    }
    lemma_ascii_utf8(id);
    lemma_ascii_utf8_prefix(id, 8);
}

/// A release tag is the current version: the tag without its leading
/// `v`s equals the version.
pub open spec fn spec_is_current(tag: Seq<char>, current: Seq<char>) -> bool {
    spec_trim_start_char(tag, 'v') == current
}

/// Whether a release tag names the current version.
pub fn is_current_release(tag: &str, current: &str) -> (res: bool)
    ensures
        res == spec_is_current(tag@, current@),
{
    let tc = chars_of(tag);
    let t = trim_start_char(tc.as_slice(), 'v');
    let ts = string_from_chars(t.as_slice());
    str_eq(ts.as_str(), current)
}

/// The tag of the latest release, or "unknown" when the reply names none.
pub fn release_tag(tag: Option<&str>) -> (res: String)
    ensures
        match tag {
            Some(t) => res@ == t@,
            None => res@ == "unknown"@,
        },
{
    match tag {
        Some(t) => to_owned_string(t),
        None => to_owned_string("unknown"),
    }
}

} // verus!
