//! Godot `.import` files.

use vstd::prelude::*;
use vstd::utf8::encode_utf8;
use crate::config::TargetConfig;
use crate::digest::{is_lower_hex, spec_sha256_hex};
use crate::engines::EngineExport;
use crate::engines::unity::path_digest_prefix;
use crate::paths::{extension_or_empty, file_name, spec_extension_or_empty, spec_file_name, spec_with_extension, with_extension};
use crate::text::{concat2, spec_to_lowercase, str_eq, to_lowercase};

verus! {

/// What kind of resource Godot imports an asset as.
#[derive(Debug, Clone, Copy, PartialEq, Eq)]
pub enum GodotImport {
    Texture,
    Audio,
    Scene,
}

/// The import kind for a (lowercase) extension, if Godot needs one.
pub open spec fn spec_godot_kind(ext: Seq<char>) -> Option<GodotImport> {
    if ext == "png"@ || ext == "jpg"@ || ext == "jpeg"@ || ext == "webp"@ || ext == "tga"@ {
        Some(GodotImport::Texture)
    } else if ext == "wav"@ || ext == "ogg"@ || ext == "mp3"@ {
        Some(GodotImport::Audio)
    } else if ext == "fbx"@ || ext == "gltf"@ || ext == "glb"@ || ext == "obj"@ {
        Some(GodotImport::Scene)
    } else {
        None
    }
}

fn godot_kind(ext: &str) -> (res: Option<GodotImport>)
    ensures
        res == spec_godot_kind(ext@),
{
    if str_eq(ext, "png") || str_eq(ext, "jpg") || str_eq(ext, "jpeg") || str_eq(ext, "webp")
        || str_eq(ext, "tga") {
        Some(GodotImport::Texture)
    } else if str_eq(ext, "wav") || str_eq(ext, "ogg") || str_eq(ext, "mp3") {
        Some(GodotImport::Audio)
    } else if str_eq(ext, "fbx") || str_eq(ext, "gltf") || str_eq(ext, "glb") || str_eq(
        ext,
        "obj",
    ) {
        Some(GodotImport::Scene)
    } else {
        None
    }
}

/// A Godot UID for a path: the first `length` hexadecimal digits of the
/// SHA-256 digest of its UTF-8 bytes.
pub open spec fn spec_uid(path: Seq<char>, length: nat) -> Seq<char> {
    spec_sha256_hex(encode_utf8(path)).subrange(0, length as int)
}

/// A Godot-compatible UID (shorter than Unity's GUID).
pub fn generate_uid(path: &str, length: usize) -> (res: String)
    requires
        length <= 64,
    ensures
        res@ == spec_uid(path@, length as nat),
        res@.len() == length,
        is_lower_hex(res@),
{
    path_digest_prefix(path, length)
}

/// The first lines of an import file.
pub open spec fn import_head(kind: GodotImport) -> Seq<char> {
    match kind {
        GodotImport::Texture => "#[remap]\nimporter=\"texture\"\ntype=\"CompressedTexture2D\"\nuid=\"uid://"@,
        GodotImport::Audio => "#[remap]\nimporter=\"wav\"\ntype=\"AudioStreamWAV\"\nuid=\"uid://"@,
        GodotImport::Scene => "#[remap]\nimporter=\"scene\"\ntype=\"PackedScene\"\nuid=\"uid://"@,
    }
}

/// The import parameters of an import file.
pub open spec fn import_params(kind: GodotImport) -> Seq<char> {
    match kind {
        GodotImport::Texture => "compress/mode=0\ncompress/high_quality=true\ndetect_3d=true\nsvg/scale=1.0\n"@,
        GodotImport::Audio => "force/8_bit=false\nforce/mono=false\nforce/max_rate=false\nforce/max_rate_hz=44100\nedit/trim=false\nedit/normalize=true\n"@,
        GodotImport::Scene => "import/import_as=SINGLE_SCENE\n"@,
    }
}

/// The content of an import file for an asset named `name` with UID `uid`.
pub open spec fn spec_import_content(kind: GodotImport, uid: Seq<char>, name: Seq<char>) -> Seq<
    char,
> {
    import_head(kind) + uid + "\"\npath=\"res://"@ + name + "\"\n\n[deps]\n\nsource_file=\"res://"@
        + name + "\"\n\n[params]\n\n"@ + import_params(kind)
}

/// `res` is the Godot import file for the asset at `output_path`: none for
/// an extension Godot imports without one; otherwise a file at the asset's
/// path with `.import` after the lowercased extension, whose content names
/// the import kind, a six-digit UID of the path and the asset's file name.
pub open spec fn is_godot_import(res: Option<EngineExport>, output_path: Seq<char>) -> bool {
    let ext = spec_to_lowercase(spec_extension_or_empty(output_path));
    match spec_godot_kind(ext) {
        None => res is None,
        Some(kind) => res matches Some(EngineExport::Text { path, content }) && path@
            == spec_with_extension(output_path, ext + ".import"@) && spec_file_name(output_path) is Some
            && content@ == spec_import_content(
            kind,
            spec_uid(output_path, 6),
            spec_file_name(output_path)->0,
        ),
    }
}

fn head_text(kind: GodotImport) -> (res: &'static str)
    ensures
        res@ == import_head(kind),
{
    match kind {
        GodotImport::Texture => "#[remap]\nimporter=\"texture\"\ntype=\"CompressedTexture2D\"\nuid=\"uid://",
        GodotImport::Audio => "#[remap]\nimporter=\"wav\"\ntype=\"AudioStreamWAV\"\nuid=\"uid://",
        GodotImport::Scene => "#[remap]\nimporter=\"scene\"\ntype=\"PackedScene\"\nuid=\"uid://",
    }
}

fn params_text(kind: GodotImport) -> (res: &'static str)
    ensures
        res@ == import_params(kind),
{
    match kind {
        GodotImport::Texture => "compress/mode=0\ncompress/high_quality=true\ndetect_3d=true\nsvg/scale=1.0\n",
        GodotImport::Audio => "force/8_bit=false\nforce/mono=false\nforce/max_rate=false\nforce/max_rate_hz=44100\nedit/trim=false\nedit/normalize=true\n",
        GodotImport::Scene => "import/import_as=SINGLE_SCENE\n",
    }
}

/// The Godot `.import` file for a converted asset, if its type needs one.
pub fn generate_import(output_path: &str, _target: &TargetConfig) -> (res: Option<EngineExport>)
    ensures
        is_godot_import(res, output_path@),
{
    let raw = extension_or_empty(output_path);
    let ext = to_lowercase(raw.as_str());
    match godot_kind(ext.as_str()) {
        None => None,
        Some(kind) => {
            let import_ext = concat2(ext.as_str(), ".import");
            let import_path = with_extension(output_path, import_ext.as_str());
            let uid = generate_uid(output_path, 6);
            let name = match file_name(output_path) {
                Some(n) => n,
                None => {
                    proof {
                        // A path with no file name has no extension, and the
                        // empty extension is imported without a file.
                        assert(raw@.len() == 0);
                        assert(ext@ =~= Seq::<char>::empty());
                        reveal_strlit("png");
                        reveal_strlit("jpg");
                        reveal_strlit("jpeg");
                        reveal_strlit("webp");
                        reveal_strlit("tga");
                        reveal_strlit("wav");
                        reveal_strlit("ogg");
                        reveal_strlit("mp3");
                        reveal_strlit("fbx");
                        reveal_strlit("gltf");
                        reveal_strlit("glb");
                        reveal_strlit("obj");
                        assert(false);
                    }
                    String::new()
                },
            };
            let mut content = concat2(head_text(kind), uid.as_str());
            content.append("\"\npath=\"res://");
            content.append(name.as_str());
            content.append("\"\n\n[deps]\n\nsource_file=\"res://");
            content.append(name.as_str());
            content.append("\"\n\n[params]\n\n");
            content.append(params_text(kind));
            Some(EngineExport::Text { path: import_path, content })
        },
    }
}

/// Which assets get a Godot import file, by their lowercased extension:
/// textures (png, jpg, jpeg, webp, tga) get a texture import, audio (wav,
/// ogg, mp3) an audio import, models (fbx, gltf, glb, obj) a scene import,
/// each naming the asset's six-digit UID and file name; any other asset gets
/// none.
pub proof fn law_godot_import_by_type(res: Option<EngineExport>, output_path: Seq<char>)
    requires
        is_godot_import(res, output_path),
    ensures
        ({
            let x = spec_to_lowercase(spec_extension_or_empty(output_path));
            let content = match res {
                Some(EngineExport::Text { content, .. }) => content@,
                _ => Seq::empty(),
            };
            let name = spec_file_name(output_path)->0;
            let uid = spec_uid(output_path, 6);
            &&& (x == "png"@ || x == "jpg"@ || x == "jpeg"@ || x == "webp"@ || x == "tga"@) ==> (res is Some
                && content == spec_import_content(GodotImport::Texture, uid, name))
            &&& (x == "wav"@ || x == "ogg"@ || x == "mp3"@) ==> (res is Some && content == spec_import_content(
                GodotImport::Audio,
                uid,
                name,
            ))
            &&& (x == "fbx"@ || x == "gltf"@ || x == "glb"@ || x == "obj"@) ==> (res is Some && content
                == spec_import_content(GodotImport::Scene, uid, name))
            &&& !(x == "png"@ || x == "jpg"@ || x == "jpeg"@ || x == "webp"@ || x == "tga"@ || x == "wav"@ || x
                == "ogg"@ || x == "mp3"@ || x == "fbx"@ || x == "gltf"@ || x == "glb"@ || x == "obj"@) ==> res is None
        }),
{
    let x = spec_to_lowercase(spec_extension_or_empty(output_path));
    reveal_strlit("png");
    reveal_strlit("jpg");
    reveal_strlit("jpeg");
    reveal_strlit("webp");
    reveal_strlit("tga");
    reveal_strlit("wav");
    reveal_strlit("ogg");
    reveal_strlit("mp3");
    reveal_strlit("fbx");
    reveal_strlit("gltf");
    reveal_strlit("glb");
    reveal_strlit("obj");
    if x == "wav"@ || x == "ogg"@ || x == "mp3"@ || x == "fbx"@ || x == "gltf"@ || x == "glb"@ || x == "obj"@ {
        assert(x[0] == 'w' ==> x[1] == 'a');
        assert(x[0] == 'o' ==> x[1] == 'g' || x[1] == 'b');
        assert(x[0] != 'p' && x[0] != 'j' && x[0] != 't');
    }
    if x == "fbx"@ || x == "gltf"@ || x == "glb"@ || x == "obj"@ {
        assert(x[0] == 'o' ==> x[1] == 'b');
        assert(x[0] != 'w' && x[0] != 'm');
    }
}

} // verus!
