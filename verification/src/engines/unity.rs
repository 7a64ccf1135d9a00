//! Unity `.meta` files.

use vstd::prelude::*;
use vstd::utf8::encode_utf8;
use crate::config::TargetConfig;
use crate::digest::{is_lower_hex, sha256_hex, spec_sha256_hex};
use crate::engines::EngineExport;
use crate::paths::{extension_or_empty, lemma_with_own_extension, spec_extension, spec_extension_or_empty, spec_with_extension, trim_tail, with_extension};
use crate::text::{chars_of, concat2, spec_to_lowercase, str_eq, string_from_chars, take_chars, to_lowercase};

verus! {

/// The importer Unity uses for a (lowercase) extension.
pub open spec fn spec_unity_importer(ext: Seq<char>) -> Seq<char> {
    if ext == "png"@ || ext == "jpg"@ || ext == "jpeg"@ || ext == "tga"@ || ext == "psd"@ || ext
        == "tiff"@ || ext == "bmp"@ || ext == "webp"@ {
        "TextureImporter"@
    } else if ext == "fbx"@ || ext == "obj"@ || ext == "blend"@ || ext == "dae"@ || ext == "3ds"@
        || ext == "dxf"@ {
        "ModelImporter"@
    } else if ext == "wav"@ || ext == "mp3"@ || ext == "ogg"@ || ext == "aiff"@ || ext
        == "flac"@ {
        "AudioImporter"@
    } else if ext == "mat"@ {
        "Material"@
    } else if ext == "prefab"@ {
        "PrefabInstance"@
    } else {
        "NativeFormatImporter"@
    }
}

/// The importer Unity uses for a lowercase extension.
fn importer_type(ext: &str) -> (res: &'static str)
    ensures
        res@ == spec_unity_importer(ext@),
{
    if str_eq(ext, "png") || str_eq(ext, "jpg") || str_eq(ext, "jpeg") || str_eq(ext, "tga")
        || str_eq(ext, "psd") || str_eq(ext, "tiff") || str_eq(ext, "bmp") || str_eq(ext, "webp") {
        "TextureImporter"
    } else if str_eq(ext, "fbx") || str_eq(ext, "obj") || str_eq(ext, "blend") || str_eq(
        ext,
        "dae",
    ) || str_eq(ext, "3ds") || str_eq(ext, "dxf") {
        "ModelImporter"
    } else if str_eq(ext, "wav") || str_eq(ext, "mp3") || str_eq(ext, "ogg") || str_eq(
        ext,
        "aiff",
    ) || str_eq(ext, "flac") {
        "AudioImporter"
    } else if str_eq(ext, "mat") {
        "Material"
    } else if str_eq(ext, "prefab") {
        "PrefabInstance"
    } else {
        "NativeFormatImporter"
    }
}

/// A GUID that depends only on the path: the first 32 hexadecimal digits of
/// the SHA-256 digest of the path's UTF-8 bytes.
pub open spec fn spec_stable_guid(path: Seq<char>) -> Seq<char> {
    spec_sha256_hex(encode_utf8(path)).subrange(0, 32)
}

/// The first `n` hexadecimal digits of the SHA-256 digest of a path.
pub(crate) fn path_digest_prefix(path: &str, n: usize) -> (res: String)
    requires
        n <= 64,
    ensures
        res@ == spec_sha256_hex(encode_utf8(path@)).subrange(0, n as int),
        res@.len() == n,
        is_lower_hex(res@),
{
    let hex = sha256_hex(path.as_bytes());
    let hc = chars_of(hex.as_str());
    let pre = take_chars(hc.as_slice(), n);
    string_from_chars(pre.as_slice())
}

/// A deterministic GUID for a path: 32 lowercase hexadecimal digits.
pub fn generate_stable_guid(path: &str) -> (res: String)
    ensures
        res@ == spec_stable_guid(path@),
        res@.len() == 32,
        is_lower_hex(res@),
{
    path_digest_prefix(path, 32)
}

/// The content of a Unity `.meta` file.
pub open spec fn spec_meta_content(guid: Seq<char>, importer: Seq<char>) -> Seq<char> {
    "fileFormatVersion: 2\nguid: "@ + guid + "\n"@ + importer
        + ":\n  externalObjects: {}\n  userData: \n  assetBundleName: \n  assetBundleVariant: \n"@
}

/// The path of the `.meta` file.
pub open spec fn spec_meta_path(output_path: Seq<char>) -> Seq<char> {
    spec_with_extension(output_path, spec_extension_or_empty(output_path) + ".meta"@)
}

/// The content of the `.meta` file.
pub open spec fn spec_unity_meta_content(output_path: Seq<char>) -> Seq<char> {
    spec_meta_content(
        spec_stable_guid(output_path),
        spec_unity_importer(spec_to_lowercase(spec_extension_or_empty(output_path))),
    )
}

/// The export is the Unity `.meta` file for the asset at `output_path`.
pub open spec fn is_unity_meta(e: EngineExport, output_path: Seq<char>) -> bool {
    e matches EngineExport::Text { path, content } && path@ == spec_meta_path(output_path)
        && content@ == spec_unity_meta_content(output_path)
}

/// The Unity `.meta` file for a converted asset: its path is the asset's
/// path with `.meta` added after the extension as written; it names the
/// importer for the lowercased extension and the path's stable GUID.
pub fn generate_meta(output_path: &str, _target: &TargetConfig) -> (res: EngineExport)
    ensures
        is_unity_meta(res, output_path@),
{
    let ext = extension_or_empty(output_path);
    let meta_ext = concat2(ext.as_str(), ".meta");
    let meta_path = with_extension(output_path, meta_ext.as_str());
    let guid = generate_stable_guid(output_path);
    let lower = to_lowercase(ext.as_str());
    let importer = importer_type(lower.as_str());
    let mut content = concat2("fileFormatVersion: 2\nguid: ", guid.as_str());
    content.append("\n");
    content.append(importer);
    content.append(
        ":\n  externalObjects: {}\n  userData: \n  assetBundleName: \n  assetBundleVariant: \n",
    );
    EngineExport::Text { path: meta_path, content }
}


/// A `.meta` file sits beside its asset: for an asset path with an
/// extension and no trailing `/` or `/.`, the `.meta` path is the asset's
/// path followed by `.meta`.
pub proof fn law_meta_path_appends(p: Seq<char>)
    requires
        spec_extension(p) is Some,
        trim_tail(p) == p,
    ensures
        spec_meta_path(p) == p + ".meta"@,
{
    reveal_strlit(".meta");
    lemma_with_own_extension(p, ".meta"@);
}

/// The importer a Unity `.meta` file names, by the asset's lowercased
/// extension: textures (png, jpg, jpeg, tga, psd, tiff, bmp, webp) get
/// `TextureImporter`, models (fbx, obj, blend, dae, 3ds, dxf)
/// `ModelImporter`, audio (wav, mp3, ogg, aiff, flac) `AudioImporter`,
/// `mat` `Material`, `prefab` `PrefabInstance`, anything else
/// `NativeFormatImporter`; the file always carries the path's stable GUID.
pub proof fn law_unity_importer_by_type(e: EngineExport, p: Seq<char>)
    requires
        is_unity_meta(e, p),
    ensures
        ({
            let x = spec_to_lowercase(spec_extension_or_empty(p));
            let content = match e {
                EngineExport::Text { content, .. } => content@,
                _ => Seq::empty(),
            };
            let imp = if x == "png"@ || x == "jpg"@ || x == "jpeg"@ || x == "tga"@ || x == "psd"@ || x
                == "tiff"@ || x == "bmp"@ || x == "webp"@ {
                "TextureImporter"@
            } else if x == "fbx"@ || x == "obj"@ || x == "blend"@ || x == "dae"@ || x == "3ds"@ || x
                == "dxf"@ {
                "ModelImporter"@
            } else if x == "wav"@ || x == "mp3"@ || x == "ogg"@ || x == "aiff"@ || x == "flac"@ {
                "AudioImporter"@
            } else if x == "mat"@ {
                "Material"@
            } else if x == "prefab"@ {
                "PrefabInstance"@
            } else {
                "NativeFormatImporter"@
            };
            content == spec_meta_content(spec_stable_guid(p), imp)
        }),
{
}

} // verus!
