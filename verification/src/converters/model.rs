//! 3D model validation: file-level sanity checks on FBX, glTF and OBJ files.

use vstd::prelude::*;
use crate::error::RiftError;
use crate::paths::{extension_or_empty, spec_extension_or_empty};
use crate::text::{chars_contains, chars_of, chars_occur_at, concat2, decimal_string, seq_contains, occurs_at, spec_decimal, spec_to_lowercase, str_eq, to_lowercase};

verus! {

/// The largest FBX file accepted, in bytes.
pub const FBX_SIZE_LIMIT: u64 = 500_000_000;

/// The model formats that are checked.
#[derive(Debug, Clone, Copy, PartialEq, Eq)]
pub enum ModelKind {
    Fbx,
    Gltf,
    Obj,
}

/// The format a path is checked as, by its lowercased extension.
pub open spec fn spec_model_kind(path: Seq<char>) -> Option<ModelKind> {
    let ext = spec_to_lowercase(spec_extension_or_empty(path));
    if ext == "fbx"@ {
        Some(ModelKind::Fbx)
    } else if ext == "gltf"@ || ext == "glb"@ {
        Some(ModelKind::Gltf)
    } else if ext == "obj"@ {
        Some(ModelKind::Obj)
    } else {
        None
    }
}

/// The format a path is checked as.
pub fn model_kind(path: &str) -> (res: Option<ModelKind>)
    ensures
        res == spec_model_kind(path@),
{
    let raw = extension_or_empty(path);
    let ext = to_lowercase(raw.as_str());
    if str_eq(ext.as_str(), "fbx") {
        Some(ModelKind::Fbx)
    } else if str_eq(ext.as_str(), "gltf") || str_eq(ext.as_str(), "glb") {
        Some(ModelKind::Gltf)
    } else if str_eq(ext.as_str(), "obj") {
        Some(ModelKind::Obj)
    } else {
        None
    }
}

/// What must be read of a model file before it can be checked.
#[derive(Debug, Clone, Copy, PartialEq, Eq)]
pub enum ModelRead {
    /// Nothing: the format is not checked.
    Nothing,
    /// The file's size only.
    Size,
    /// The size and the first (up to 20) bytes.
    SizeAndHead,
    /// The size and the whole file as text.
    SizeAndText,
}

/// What must be read of the file at `path`: FBX files are checked by their
/// first bytes, `.gltf` and OBJ files by their text, `.glb` files (and
/// glTF files whose extension is not written `gltf`) by size alone.
pub open spec fn spec_needed_read(path: Seq<char>) -> ModelRead {
    match spec_model_kind(path) {
        Some(ModelKind::Fbx) => ModelRead::SizeAndHead,
        Some(ModelKind::Gltf) => if spec_extension_or_empty(path) == "gltf"@ {
            ModelRead::SizeAndText
        } else {
            ModelRead::Size
        },
        Some(ModelKind::Obj) => ModelRead::SizeAndText,
        None => ModelRead::Nothing,
    }
}

/// What must be read of a model file before it can be checked.
pub fn needed_read(path: &str) -> (res: ModelRead)
    ensures
        res == spec_needed_read(path@),
{
    match model_kind(path) {
        Some(ModelKind::Fbx) => ModelRead::SizeAndHead,
        Some(ModelKind::Gltf) => {
            let raw = extension_or_empty(path);
            if str_eq(raw.as_str(), "gltf") {
                ModelRead::SizeAndText
            } else {
                ModelRead::Size
            }
        },
        Some(ModelKind::Obj) => ModelRead::SizeAndText,
        None => ModelRead::Nothing,
    }
}

/// What was read of a model file. A part that was not read may hold
/// anything; it is only looked at where `needed_read` asks for it.
#[derive(Debug)]
pub struct ModelContents {
    /// The file's size in bytes.
    pub size: u64,
    /// The first bytes of the file (one read into a 20-byte buffer), or
    /// the I/O error's message.
    pub head: Result<Vec<u8>, String>,
    /// The whole file as UTF-8 text, or the I/O error's message.
    pub text: Result<String, String>,
}

/// The bytes begin with the ASCII text `p`.
pub open spec fn bytes_start_with(h: Seq<u8>, p: Seq<char>) -> bool {
    p.len() <= h.len() && forall|i: int| 0 <= i < p.len() ==> h[i] as u32 == p[i] as u32
}

/// The second byte of the header buffer (zero when only one byte was read).
pub open spec fn second_byte(h: Seq<u8>) -> u8 {
    if h.len() >= 2 {
        h[1]
    } else {
        0
    }
}

/// An FBX header is accepted: nothing was read, or it begins with
/// `; FBX` (ASCII FBX) or `Kaydara FBX`, or its first two bytes are `Ka`.
pub open spec fn fbx_header_ok(h: Seq<u8>) -> bool {
    h.len() == 0 || bytes_start_with(h, "; FBX"@) || bytes_start_with(h, "Kaydara FBX"@) || (h[0]
        == 0x4B && second_byte(h) == 0x61)
}

/// The error is a validation error with exactly this message.
pub open spec fn is_validation_error(e: RiftError, msg: Seq<char>) -> bool {
    e matches RiftError::Validation(m) && m@ == msg
}

/// The error is an I/O error with exactly this message.
pub open spec fn is_io_error(e: RiftError, msg: Seq<char>) -> bool {
    e matches RiftError::Io(m) && m@ == msg
}

/// `res` is the outcome of checking an FBX file: empty files and files
/// whose header is not FBX's are refused, and so are files over 500 MB;
/// a failed read of the header is reported as the I/O error.
pub open spec fn fbx_outcome(res: Result<(), RiftError>, path: Seq<char>, size: u64, head: Result<Vec<u8>, String>) -> bool {
    if size == 0 {
        res matches Err(e) && is_validation_error(e, "FBX file is empty: "@ + path)
    } else {
        match head {
            Err(m) => res matches Err(e) && is_io_error(e, m@),
            Ok(h) => if !fbx_header_ok(h@) {
                res matches Err(e) && is_validation_error(e, "FBX file has invalid header: "@ + path)
            } else if size > FBX_SIZE_LIMIT {
                res matches Err(e) && is_validation_error(
                    e,
                    "FBX file is very large ("@ + spec_decimal((size / 1_000_000) as nat)
                        + "MB). Consider simplifying: "@ + path,
                )
            } else {
                res is Ok
            },
        }
    }
}

fn bytes_begin_with(h: &[u8], p: &str) -> (res: bool)
    ensures
        res == bytes_start_with(h@, p@),
{
    let pc = chars_of(p);
    if pc.len() > h.len() {
        return false;
    }
    let n = pc.len();
    for i in 0..n
        invariant
            n == p@.len(),
            n == pc@.len(),
            pc@ == p@,
            n <= h@.len(),
            forall|j: int| 0 <= j < i ==> h@[j] as u32 == p@[j] as u32,
    {
        if h[i] as u32 != pc[i] as u32 {
            return false;
        }
    }
    true
}

/// Checks an FBX file by its size and first bytes.
pub fn validate_fbx(path: &str, size: u64, head: &Result<Vec<u8>, String>) -> (res: Result<(), RiftError>)
    ensures
        fbx_outcome(res, path@, size, *head),
{
    if size == 0 {
        return Err(RiftError::Validation(concat2("FBX file is empty: ", path)));
    }
    let h = match head {
        Err(m) => {
            return Err(RiftError::Io(m.clone()));
        },
        Ok(h) => h,
    };
    if h.len() > 0 {
        let b1: u8 = if h.len() >= 2 {
            h[1]
        } else {
            0
        };
        if !bytes_begin_with(h.as_slice(), "; FBX") && !bytes_begin_with(h.as_slice(), "Kaydara FBX")
            && !(h[0] == 0x4B && b1 == 0x61) {
            return Err(RiftError::Validation(concat2("FBX file has invalid header: ", path)));
        }
    }
    if size > FBX_SIZE_LIMIT {
        let mut m = concat2("FBX file is very large (", decimal_string(size / 1_000_000).as_str());
        m.append("MB). Consider simplifying: ");
        m.append(path);
        return Err(RiftError::Validation(m));
    }
    Ok(())
}

/// `res` is the outcome of checking a glTF file: empty files are refused;
/// a file whose extension is written `gltf` is read as text, and refused
/// when the text has no `"asset"` key.
pub open spec fn gltf_outcome(res: Result<(), RiftError>, path: Seq<char>, size: u64, text: Result<String, String>) -> bool {
    if size == 0 {
        res matches Err(e) && is_validation_error(e, "GLTF file is empty: "@ + path)
    } else if spec_extension_or_empty(path) == "gltf"@ {
        match text {
            Err(m) => res matches Err(e) && is_io_error(e, m@),
            Ok(t) => if seq_contains(t@, "\"asset\""@) {
                res is Ok
            } else {
                res matches Err(e) && is_validation_error(
                    e,
                    "GLTF file missing required 'asset' field: "@ + path,
                )
            },
        }
    } else {
        res is Ok
    }
}

/// Checks a glTF file by its size and, for `.gltf`, its text.
pub fn validate_gltf(path: &str, size: u64, text: &Result<String, String>) -> (res: Result<(), RiftError>)
    ensures
        gltf_outcome(res, path@, size, *text),
{
    if size == 0 {
        return Err(RiftError::Validation(concat2("GLTF file is empty: ", path)));
    }
    let raw = extension_or_empty(path);
    if str_eq(raw.as_str(), "gltf") {
        match text {
            Err(m) => {
                return Err(RiftError::Io(m.clone()));
            },
            Ok(t) => {
                let tc = chars_of(t.as_str());
                let key = chars_of("\"asset\"");
                if !chars_contains(tc.as_slice(), key.as_slice()) {
                    return Err(
                        RiftError::Validation(
                            concat2("GLTF file missing required 'asset' field: ", path),
                        ),
                    );
                }
            },
        }
    }
    Ok(())
}

/// Some line of the text begins with `v ` (a vertex).
pub open spec fn has_vertex_line(t: Seq<char>) -> bool {
    exists|i: int| (i == 0 || t[i - 1] == '\n') && #[trigger] occurs_at(t, "v "@, i)
}

/// `res` is the outcome of checking an OBJ file: empty files and files
/// with no vertex line are refused.
pub open spec fn obj_outcome(res: Result<(), RiftError>, path: Seq<char>, size: u64, text: Result<String, String>) -> bool {
    if size == 0 {
        res matches Err(e) && is_validation_error(e, "OBJ file is empty: "@ + path)
    } else {
        match text {
            Err(m) => res matches Err(e) && is_io_error(e, m@),
            Ok(t) => if has_vertex_line(t@) {
                res is Ok
            } else {
                res matches Err(e) && is_validation_error(e, "OBJ file has no vertex data: "@ + path)
            },
        }
    }
}

fn find_vertex_line(t: &[char]) -> (res: bool)
    ensures
        res == has_vertex_line(t@),
{
    let v = chars_of("v ");
    let n = t.len();
    for i in 0..n
        invariant
            n == t@.len(),
            v@ == "v "@,
            forall|j: int| 0 <= j < i ==> !((j == 0 || t@[j - 1] == '\n') && occurs_at(t@, "v "@, j)),
    {
        if (i == 0 || t[i - 1] == '\n') && chars_occur_at(t, v.as_slice(), i) {
            return true;
        }
    }
    proof {
        assert forall|j: int| !((j == 0 || t@[j - 1] == '\n') && #[trigger] occurs_at(t@, "v "@, j)) by {
            if 0 <= j < n {
            } else if j >= n {
                assert(!occurs_at(t@, "v "@, j)) by {
                    reveal_strlit("v ");
                }
            }
        }
    }
    false
}

/// Checks an OBJ file by its size and text.
pub fn validate_obj(path: &str, size: u64, text: &Result<String, String>) -> (res: Result<(), RiftError>)
    ensures
        obj_outcome(res, path@, size, *text),
{
    if size == 0 {
        return Err(RiftError::Validation(concat2("OBJ file is empty: ", path)));
    }
    match text {
        Err(m) => Err(RiftError::Io(m.clone())),
        Ok(t) => {
            let tc = chars_of(t.as_str());
            if find_vertex_line(tc.as_slice()) {
                Ok(())
            } else {
                Err(RiftError::Validation(concat2("OBJ file has no vertex data: ", path)))
            }
        },
    }
}

/// `res` is the outcome of checking the model at `path` with what was read
/// of it.
pub open spec fn model_outcome(res: Result<(), RiftError>, path: Seq<char>, contents: ModelContents) -> bool {
    match spec_model_kind(path) {
        Some(ModelKind::Fbx) => fbx_outcome(res, path, contents.size, contents.head),
        Some(ModelKind::Gltf) => gltf_outcome(res, path, contents.size, contents.text),
        Some(ModelKind::Obj) => obj_outcome(res, path, contents.size, contents.text),
        None => res is Ok,
    }
}

/// Checks a 3D model file for common issues, by its lowercased extension:
/// FBX, glTF/GLB and OBJ files are checked; other formats (Blender files
/// among them) are accepted as they are.
pub fn validate(path: &str, contents: &ModelContents) -> (res: Result<(), RiftError>)
    ensures
        model_outcome(res, path@, *contents),
{
    match model_kind(path) {
        Some(ModelKind::Fbx) => validate_fbx(path, contents.size, &contents.head),
        Some(ModelKind::Gltf) => validate_gltf(path, contents.size, &contents.text),
        Some(ModelKind::Obj) => validate_obj(path, contents.size, &contents.text),
        None => Ok(()),
    }
}

/// Every line of an OBJ text counts, the first one included: a text whose
/// first line, or any line after a `\n`, starts with `v ` (a vertex) is
/// accepted; a non-empty file whose text has no `v` at all is refused for
/// having no vertex data.
pub proof fn law_obj_vertex_lines(res: Result<(), RiftError>, path: Seq<char>, size: u64, text: String)
    requires
        obj_outcome(res, path, size, Ok(text)),
        size > 0,
    ensures
        (text@.len() >= 2 && text@[0] == 'v' && text@[1] == ' ') ==> res is Ok,
        forall|k: int|
            0 < k && k + 1 < text@.len() && text@[k - 1] == '\n' && #[trigger] text@[k] == 'v' && text@[k + 1]
                == ' ' ==> res is Ok,
        (forall|k: int| 0 <= k < text@.len() ==> #[trigger] text@[k] != 'v') ==> (res matches Err(e)
            && is_validation_error(e, "OBJ file has no vertex data: "@ + path)),
{
    let t = text@;
    reveal_strlit("v ");
    if t.len() >= 2 && t[0] == 'v' && t[1] == ' ' {
        assert(t.subrange(0, 2) =~= "v "@);
        assert(occurs_at(t, "v "@, 0));
    }
    assert forall|k: int|
        0 < k && k + 1 < t.len() && t[k - 1] == '\n' && #[trigger] t[k] == 'v' && t[k + 1] == ' ' implies res is Ok by {
        assert(t.subrange(k, k + 2) =~= "v "@);
        assert(occurs_at(t, "v "@, k));
    }
    if forall|k: int| 0 <= k < t.len() ==> #[trigger] t[k] != 'v' {
        if has_vertex_line(t) {
            let i = choose|i: int| (i == 0 || t[i - 1] == '\n') && #[trigger] occurs_at(t, "v "@, i);
            assert(t.subrange(i, i + 2)[0] == t[i]);
        }
    }
}

/// Which check a model file gets, by its lowercased extension: `fbx` files
/// the FBX check, `gltf` and `glb` files the glTF check, `obj` files the
/// OBJ check; every other file is accepted. An empty FBX, glTF, GLB or OBJ
/// file is always refused.
pub proof fn law_model_check_by_extension(res: Result<(), RiftError>, path: Seq<char>, contents: ModelContents)
    requires
        model_outcome(res, path, contents),
    ensures
        ({
            let x = spec_to_lowercase(spec_extension_or_empty(path));
            &&& x == "fbx"@ ==> fbx_outcome(res, path, contents.size, contents.head)
            &&& (x == "gltf"@ || x == "glb"@) ==> gltf_outcome(res, path, contents.size, contents.text)
            &&& x == "obj"@ ==> obj_outcome(res, path, contents.size, contents.text)
            &&& !(x == "fbx"@ || x == "gltf"@ || x == "glb"@ || x == "obj"@) ==> res is Ok
            &&& ((x == "fbx"@ || x == "gltf"@ || x == "glb"@ || x == "obj"@) && contents.size == 0) ==> res is Err
        }),
{
    let x = spec_to_lowercase(spec_extension_or_empty(path));
    reveal_strlit("fbx");
    reveal_strlit("gltf");
    reveal_strlit("glb");
    reveal_strlit("obj");
    if x == "gltf"@ || x == "glb"@ {
        assert(x[0] == 'g');
    }
    if x == "obj"@ {
        assert(x[0] == 'o');
    }
}

/// The FBX check on a non-empty file whose first bytes were read: a file
/// beginning with the bytes of `Ka` (as `Kaydara FBX Binary` does) or of
/// `; FBX` (an ASCII FBX) is accepted up to 500 MB and refused as very
/// large above it; a file whose first byte is neither `K` nor `;` is
/// refused for its header.
pub proof fn law_fbx_header(res: Result<(), RiftError>, path: Seq<char>, size: u64, head: Vec<u8>)
    requires
        fbx_outcome(res, path, size, Ok(head)),
        size > 0,
    ensures
        ({
            let h = head@;
            let good = (h.len() >= 2 && h[0] == 0x4B && h[1] == 0x61) || (h.len() >= 5 && h[0] == 0x3B
                && h[1] == 0x20 && h[2] == 0x46 && h[3] == 0x42 && h[4] == 0x58);
            &&& (good && size <= 500_000_000) ==> res is Ok
            &&& (good && size > 500_000_000) ==> res is Err
            &&& (h.len() > 0 && h[0] != 0x4B && h[0] != 0x3B) ==> (res matches Err(e) && is_validation_error(
                e,
                "FBX file has invalid header: "@ + path,
            ))
        }),
{
    let h = head@;
    reveal_strlit("; FBX");
    reveal_strlit("Kaydara FBX");
    if h.len() >= 5 && h[0] == 0x3B && h[1] == 0x20 && h[2] == 0x46 && h[3] == 0x42 && h[4] == 0x58 {
        assert(bytes_start_with(h, "; FBX"@));
    }
    if h.len() > 0 && h[0] != 0x4B && h[0] != 0x3B {
        assert(!bytes_start_with(h, "; FBX"@)) by {
            assert("; FBX"@[0] == ';');
        }
        assert(!bytes_start_with(h, "Kaydara FBX"@)) by {
            assert("Kaydara FBX"@[0] == 'K');
        }
    }
}

/// The glTF check on a non-empty `.gltf` file read as text: a text with an
/// `"asset"` key is accepted; a text with no `a` at all is refused for
/// missing it. A `.glb` file is not read and is accepted when not empty.
pub proof fn law_gltf_asset_key(res: Result<(), RiftError>, path: Seq<char>, size: u64, text: String)
    requires
        gltf_outcome(res, path, size, Ok(text)),
        size > 0,
    ensures
        spec_extension_or_empty(path) == "gltf"@ ==> (forall|i: int|
            0 <= i && i + 7 <= text@.len() && #[trigger] text@.subrange(i, i + 7) == "\"asset\""@ ==> res is Ok),
        (spec_extension_or_empty(path) == "gltf"@ && forall|k: int| 0 <= k < text@.len() ==> #[trigger] text@[k]
            != 'a') ==> (res matches Err(e) && is_validation_error(
            e,
            "GLTF file missing required 'asset' field: "@ + path,
        )),
        spec_extension_or_empty(path) != "gltf"@ ==> res is Ok,
{
    let t = text@;
    reveal_strlit("\"asset\"");
    assert forall|i: int|
        0 <= i && i + 7 <= t.len() && #[trigger] t.subrange(i, i + 7) == "\"asset\""@ implies seq_contains(t, "\"asset\""@) by {
        assert(occurs_at(t, "\"asset\""@, i));
    }
    if forall|k: int| 0 <= k < t.len() ==> #[trigger] t[k] != 'a' {
        if seq_contains(t, "\"asset\""@) {
            let i = choose|i: int| occurs_at(t, "\"asset\""@, i);
            assert(t.subrange(i, i + 7)[1] == t[i + 1]);
        }
    }
}

} // verus!
