//! Unreal Engine import settings.

use vstd::prelude::*;
use crate::config::TargetConfig;
use crate::engines::EngineExport;
use crate::paths::{extension_or_empty, spec_extension_or_empty, spec_with_extension, with_extension};
use crate::text::{concat2, spec_to_lowercase, str_eq, to_lowercase, to_owned_string};

verus! {

/// A value in an import settings document.
#[derive(Debug, Clone, PartialEq, Eq)]
pub enum UnrealValue {
    /// A JSON string.
    Text(String),
    /// A JSON number.
    Number(u32),
    /// A JSON boolean.
    Flag(bool),
}

/// A settings value as plain text, number or flag.
pub enum ValueView {
    Text(Seq<char>),
    Number(u32),
    Flag(bool),
}

impl View for UnrealValue {
    type V = ValueView;

    open spec fn view(&self) -> ValueView {
        match self {
            UnrealValue::Text(s) => ValueView::Text(s@),
            UnrealValue::Number(n) => ValueView::Number(*n),
            UnrealValue::Flag(b) => ValueView::Flag(*b),
        }
    }
}

/// An Unreal import settings document. With a section `s` and fields
/// `k1: v1, ...` it is the JSON object
/// `{"AssetImportSettings": {s: {k1: v1, ...}}}`; without a section it is
/// the empty object `{}`.
#[derive(Debug, Clone, PartialEq, Eq)]
pub struct UnrealDocument {
    pub section: Option<String>,
    pub fields: Vec<(String, UnrealValue)>,
}

/// The fields as (name, value) views.
pub open spec fn field_views(fields: Seq<(String, UnrealValue)>) -> Seq<(Seq<char>, ValueView)> {
    fields.map_values(|f: (String, UnrealValue)| (f.0@, f.1@))
}

/// A texture extension Unreal imports with texture settings.
pub open spec fn is_texture_ext(ext: Seq<char>) -> bool {
    ext == "png"@ || ext == "jpg"@ || ext == "jpeg"@ || ext == "tga"@ || ext == "bmp"@ || ext
        == "webp"@
}

/// A model extension.
pub open spec fn is_model_ext(ext: Seq<char>) -> bool {
    ext == "fbx"@ || ext == "obj"@
}

/// A sound extension.
pub open spec fn is_sound_ext(ext: Seq<char>) -> bool {
    ext == "wav"@ || ext == "ogg"@ || ext == "flac"@
}

/// The mip generation setting for a target.
pub open spec fn spec_mip_gen(generate_mipmaps: bool) -> Seq<char> {
    if generate_mipmaps {
        "TMGS_FromTextureGroup"@
    } else {
        "TMGS_NoMipmaps"@
    }
}

/// The largest texture size: the larger of the target's maximum width and
/// height.
pub open spec fn spec_max_texture_size(target: TargetConfig) -> u32 {
    if target.textures.max_width >= target.textures.max_height {
        target.textures.max_width
    } else {
        target.textures.max_height
    }
}

/// The settings section for a (lowercase) extension, if any.
pub open spec fn spec_unreal_section(ext: Seq<char>) -> Option<Seq<char>> {
    if is_texture_ext(ext) {
        Some("TextureSettings"@)
    } else if is_model_ext(ext) {
        Some("ModelSettings"@)
    } else if is_sound_ext(ext) {
        Some("SoundSettings"@)
    } else {
        None
    }
}

/// The settings fields for a (lowercase) extension and a target, in order.
pub open spec fn spec_unreal_fields(ext: Seq<char>, target: TargetConfig) -> Seq<(Seq<char>, ValueView)> {
    if is_texture_ext(ext) {
        seq![
            ("CompressionSettings"@, ValueView::Text("Default"@)),
            ("MaxTextureSize"@, ValueView::Number(spec_max_texture_size(target))),
            ("TextureGroup"@, ValueView::Text("TEXTUREGROUP_World"@)),
            ("sRGB"@, ValueView::Flag(true)),
            ("MipGenSettings"@, ValueView::Text(spec_mip_gen(target.textures.generate_mipmaps))),
        ]
    } else if is_model_ext(ext) {
        seq![
            ("ImportContentType"@, ValueView::Text("All"@)),
            ("GenerateLightmapUVs"@, ValueView::Flag(true)),
            ("AutoComputeLODs"@, ValueView::Flag(true)),
            ("NumberOfLODs"@, ValueView::Number(4)),
        ]
    } else if is_sound_ext(ext) {
        seq![
            ("LoadingBehavior"@, ValueView::Text("LoadOnDemand"@)),
            ("CompressionQuality"@, ValueView::Number(80)),
        ]
    } else {
        seq![]
    }
}

/// The document is the settings document for the (lowercase) extension of
/// `output_path` and for `target`.
pub open spec fn is_unreal_document(doc: UnrealDocument, output_path: Seq<char>, target: TargetConfig) -> bool {
    let ext = spec_to_lowercase(spec_extension_or_empty(output_path));
    &&& (match (doc.section, spec_unreal_section(ext)) {
        (Some(s), Some(want)) => s@ == want,
        (None, None) => true,
        _ => false,
    })
    &&& field_views(doc.fields@) == spec_unreal_fields(ext, target)
}

/// The export is the Unreal settings file for `output_path`: at the asset's
/// path with `.json` after the lowercased extension, holding the settings
/// document for that extension.
pub open spec fn is_unreal_settings(e: EngineExport, output_path: Seq<char>, target: TargetConfig) -> bool {
    let ext = spec_to_lowercase(spec_extension_or_empty(output_path));
    e matches EngineExport::Unreal { path, document } && path@ == spec_with_extension(
        output_path,
        ext + ".json"@,
    ) && is_unreal_document(document, output_path, target)
}

fn text_field(name: &str, value: &str) -> (res: (String, UnrealValue))
    ensures
        res.0@ == name@,
        res.1@ == ValueView::Text(value@),
{
    (to_owned_string(name), UnrealValue::Text(to_owned_string(value)))
}

fn field(name: &str, value: UnrealValue) -> (res: (String, UnrealValue))
    ensures
        res.0@ == name@,
        res.1 == value,
{
    (to_owned_string(name), value)
}

/// The Unreal import settings document for a converted asset: texture,
/// model or sound settings by its lowercased extension, or none.
pub fn unreal_settings_document(output_path: &str, target: &TargetConfig) -> (res: UnrealDocument)
    ensures
        is_unreal_document(res, output_path@, *target),
{
    let raw = extension_or_empty(output_path);
    let ext = to_lowercase(raw.as_str());
    let e = ext.as_str();
    let mut fields: Vec<(String, UnrealValue)> = Vec::new();
    let ghost want = spec_unreal_fields(e@, *target);
    if str_eq(e, "png") || str_eq(e, "jpg") || str_eq(e, "jpeg") || str_eq(e, "tga") || str_eq(
        e,
        "bmp",
    ) || str_eq(e, "webp") {
        let w = target.textures.max_width;
        let h = target.textures.max_height;
        let mip = if target.textures.generate_mipmaps {
            "TMGS_FromTextureGroup"
        } else {
            "TMGS_NoMipmaps"
        };
        fields.push(text_field("CompressionSettings", "Default"));
        fields.push(
            field(
                "MaxTextureSize",
                UnrealValue::Number(
                    if w >= h {
                        w
                    } else {
                        h
                    },
                ),
            ),
        );
        fields.push(text_field("TextureGroup", "TEXTUREGROUP_World"));
        fields.push(field("sRGB", UnrealValue::Flag(true)));
        fields.push(text_field("MipGenSettings", mip));
        proof {
            assert(field_views(fields@) =~= want);
        }
        UnrealDocument { section: Some(to_owned_string("TextureSettings")), fields }
    } else if str_eq(e, "fbx") || str_eq(e, "obj") {
        fields.push(text_field("ImportContentType", "All"));
        fields.push(field("GenerateLightmapUVs", UnrealValue::Flag(true)));
        fields.push(field("AutoComputeLODs", UnrealValue::Flag(true)));
        fields.push(field("NumberOfLODs", UnrealValue::Number(4)));
        proof {
            assert(field_views(fields@) =~= want);
        }
        UnrealDocument { section: Some(to_owned_string("ModelSettings")), fields }
    } else if str_eq(e, "wav") || str_eq(e, "ogg") || str_eq(e, "flac") {
        fields.push(text_field("LoadingBehavior", "LoadOnDemand"));
        fields.push(field("CompressionQuality", UnrealValue::Number(80)));
        proof {
            assert(field_views(fields@) =~= want);
        }
        UnrealDocument { section: Some(to_owned_string("SoundSettings")), fields }
    } else {
        proof {
            assert(field_views(fields@) =~= want);
        }
        UnrealDocument { section: None, fields }
    }
}

/// Unreal import settings for a converted asset: the settings document and
/// where it is written.
pub fn generate_import_settings(output_path: &str, target: &TargetConfig) -> (res: EngineExport)
    ensures
        is_unreal_settings(res, output_path@, *target),
{
    let raw = extension_or_empty(output_path);
    let ext = to_lowercase(raw.as_str());
    let json_ext = concat2(ext.as_str(), ".json");
    let settings_path = with_extension(output_path, json_ext.as_str());
    let document = unreal_settings_document(output_path, target);
    EngineExport::Unreal { path: settings_path, document }
}

/// What the Unreal settings document holds, by the asset's lowercased
/// extension: for every texture (png, jpg, jpeg, tga, bmp, webp) the
/// texture section with its five fields (default compression, the larger of
/// the target's maximum sizes, the world texture group, sRGB, and mip
/// generation from the texture group only when the target asks for
/// mipmaps); for fbx and obj the model section (all content, lightmap UVs,
/// automatic LODs, four LODs); for wav, ogg and flac the sound section
/// (loaded on demand, quality 80); for anything else an empty document.
pub proof fn law_unreal_document_by_type(doc: UnrealDocument, output_path: Seq<char>, target: TargetConfig)
    requires
        is_unreal_document(doc, output_path, target),
    ensures
        ({
            let e = spec_to_lowercase(spec_extension_or_empty(output_path));
            (e == "png"@ || e == "jpg"@ || e == "jpeg"@ || e == "tga"@ || e == "bmp"@ || e == "webp"@)
                ==> (doc.section matches Some(sec) && sec@ == "TextureSettings"@)
        }),
        ({
            let e = spec_to_lowercase(spec_extension_or_empty(output_path));
            (e == "png"@ || e == "jpg"@ || e == "jpeg"@ || e == "tga"@ || e == "bmp"@ || e == "webp"@)
                ==> field_views(doc.fields@) == seq![
                ("CompressionSettings"@, ValueView::Text("Default"@)),
                ("MaxTextureSize"@, ValueView::Number(if target.textures.max_width >= target.textures.max_height {
                    target.textures.max_width
                } else {
                    target.textures.max_height
                })),
                ("TextureGroup"@, ValueView::Text("TEXTUREGROUP_World"@)),
                ("sRGB"@, ValueView::Flag(true)),
                ("MipGenSettings"@, ValueView::Text(if target.textures.generate_mipmaps {
                    "TMGS_FromTextureGroup"@
                } else {
                    "TMGS_NoMipmaps"@
                })),
            ]
        }),
        ({
            let e = spec_to_lowercase(spec_extension_or_empty(output_path));
            (e == "fbx"@ || e == "obj"@) ==> (doc.section matches Some(sec) && sec@ == "ModelSettings"@
                && field_views(doc.fields@) == seq![
                ("ImportContentType"@, ValueView::Text("All"@)),
                ("GenerateLightmapUVs"@, ValueView::Flag(true)),
                ("AutoComputeLODs"@, ValueView::Flag(true)),
                ("NumberOfLODs"@, ValueView::Number(4)),
            ])
        }),
        ({
            let e = spec_to_lowercase(spec_extension_or_empty(output_path));
            (e == "wav"@ || e == "ogg"@ || e == "flac"@) ==> (doc.section matches Some(sec) && sec@
                == "SoundSettings"@ && field_views(doc.fields@) == seq![
                ("LoadingBehavior"@, ValueView::Text("LoadOnDemand"@)),
                ("CompressionQuality"@, ValueView::Number(80)),
            ])
        }),
        ({
            let e = spec_to_lowercase(spec_extension_or_empty(output_path));
            !(e == "png"@ || e == "jpg"@ || e == "jpeg"@ || e == "tga"@ || e == "bmp"@ || e == "webp"@
                || e == "fbx"@ || e == "obj"@ || e == "wav"@ || e == "ogg"@ || e == "flac"@) ==> (doc.section
                is None && doc.fields@.len() == 0)
        }),
{
    let e = spec_to_lowercase(spec_extension_or_empty(output_path));
    assert(field_views(doc.fields@).len() == doc.fields@.len());
    reveal_strlit("png");
    reveal_strlit("jpg");
    reveal_strlit("jpeg");
    reveal_strlit("tga");
    reveal_strlit("bmp");
    reveal_strlit("webp");
    reveal_strlit("fbx");
    reveal_strlit("obj");
    reveal_strlit("wav");
    reveal_strlit("ogg");
    reveal_strlit("flac");
    if e == "fbx"@ || e == "obj"@ || e == "wav"@ || e == "ogg"@ || e == "flac"@ {
        assert(e[0] == 'f' || e[0] == 'o' || e[0] == 'w');
        assert(!is_texture_ext(e)) by {
            if e == "png"@ || e == "jpg"@ || e == "jpeg"@ || e == "tga"@ || e == "bmp"@ || e == "webp"@ {
                assert(e[0] == 'p' || e[0] == 'j' || e[0] == 't' || e[0] == 'b' || e[0] == 'w');
                if e[0] == 'w' {
                    assert(e.len() == 4);
                    assert(e[1] == 'e');
                }
            }
        }
    }
    if e == "wav"@ || e == "ogg"@ || e == "flac"@ {
        assert(!is_model_ext(e)) by {
            if e == "fbx"@ || e == "obj"@ {
                assert(e[0] == 'f' || e[0] == 'o');
                if e[0] == 'f' {
                    assert(e[1] == 'b');
                    assert(e == "flac"@ ==> e[1] == 'l');
                }
                if e[0] == 'o' {
                    assert(e[1] == 'b');
                    assert(e == "ogg"@ ==> e[1] == 'g');
                }
            }
        }
    }
}

} // verus!
