use rift::converters::model::{needed_read, validate, validate_fbx, validate_gltf, validate_obj, ModelContents, ModelRead};

fn head_of(bytes: &[u8]) -> Result<Vec<u8>, String> {
    Ok(bytes[..bytes.len().min(20)].to_vec())
}

fn text_of(s: &str) -> Result<String, String> {
    Ok(s.to_string())
}

fn contents(bytes: &[u8]) -> ModelContents {
    ModelContents {
        size: bytes.len() as u64,
        head: head_of(bytes),
        text: match std::str::from_utf8(bytes) {
            Ok(s) => Ok(s.to_string()),
            Err(_) => Err("stream did not contain valid UTF-8".to_string()),
        },
    }
}

#[test]
fn test_validate_fbx_valid_ascii() {
    let data = b"; FBX 1.0 format test file\n";
    assert!(validate_fbx("test.fbx", data.len() as u64, &head_of(data)).is_ok());
}

#[test]
fn test_validate_fbx_valid_binary() {
    let data = b"Kaydara FBX Binary  ";
    assert!(validate_fbx("test.fbx", data.len() as u64, &head_of(data)).is_ok());
}

#[test]
fn test_validate_fbx_bad_header() {
    let data = b"NOT A VALID FBX";
    let result = validate_fbx("bad.fbx", data.len() as u64, &head_of(data));
    assert!(result.is_err());
    assert!(result.unwrap_err().message().contains("header"));
}

#[test]
fn test_validate_gltf_valid() {
    let data = r#"{"asset": {"version": "2.0"}}"#;
    assert!(validate_gltf("model.gltf", data.len() as u64, &text_of(data)).is_ok());
}

#[test]
fn test_validate_gltf_missing_asset() {
    let data = r#"{"meshes": []}"#;
    let result = validate_gltf("bad.gltf", data.len() as u64, &text_of(data));
    assert!(result.is_err());
    assert!(result.unwrap_err().message().contains("asset"));
}

#[test]
fn test_validate_gltf_empty() {
    let result = validate_gltf("empty.gltf", 0, &text_of(""));
    assert!(result.is_err());
}

#[test]
fn test_validate_obj_valid() {
    let data = "# Simple cube\nv 0.0 0.0 0.0\nv 1.0 0.0 0.0\nf 1 2 3\n";
    assert!(validate_obj("model.obj", data.len() as u64, &text_of(data)).is_ok());
}

#[test]
fn test_validate_obj_no_vertices() {
    let data = "# Just a comment\n";
    let result = validate_obj("bad.obj", data.len() as u64, &text_of(data));
    assert!(result.is_err());
    assert!(result.unwrap_err().message().contains("vertex"));
}

#[test]
fn test_validate_obj_empty() {
    let result = validate_obj("empty.obj", 0, &text_of(""));
    assert!(result.is_err());
}

#[test]
fn test_validate_blend_skipped() {
    assert!(validate("model.blend", &contents(b"BLENDER")).is_ok());
}

#[test]
fn fbx_messages_and_limits() {
    let e = validate_fbx("a/empty.fbx", 0, &head_of(b"")).unwrap_err();
    assert_eq!(e.message(), "Validation error: FBX file is empty: a/empty.fbx");
    let e = validate_fbx("bad.fbx", 15, &head_of(b"NOT A VALID FBX")).unwrap_err();
    assert_eq!(e.message(), "Validation error: FBX file has invalid header: bad.fbx");
    // "Ka" alone is accepted as the start of a binary header.
    assert!(validate_fbx("k.fbx", 2, &head_of(b"Ka")).is_ok());
    // A single byte leaves the second header byte zero.
    assert!(validate_fbx("k.fbx", 1, &head_of(b"K")).is_err());
    let e = validate_fbx("big.fbx", 600_000_000, &head_of(b"; FBX 7.4")).unwrap_err();
    assert_eq!(
        e.message(),
        "Validation error: FBX file is very large (600MB). Consider simplifying: big.fbx"
    );
    assert!(validate_fbx("edge.fbx", 500_000_000, &head_of(b"; FBX 7.4")).is_ok());
    let e = validate_fbx("x.fbx", 10, &Err("permission denied".to_string())).unwrap_err();
    assert_eq!(e.message(), "IO error: permission denied");
}

#[test]
fn gltf_and_obj_details() {
    // Binary glTF is checked by size only.
    assert!(validate("m.glb", &contents(b"glTF\x02\x00\x00\x00")).is_ok());
    // An extension written in capitals selects the glTF check but not the text check.
    assert!(validate("M.GLTF", &contents(b"{}")).is_ok());
    let e = validate("m.gltf", &contents(b"{}")).unwrap_err();
    assert_eq!(e.message(), "Validation error: GLTF file missing required 'asset' field: m.gltf");
    let e = validate("m.obj", &contents(b"\xff\xfe")).unwrap_err();
    assert_eq!(e.message(), "IO error: stream did not contain valid UTF-8");
    // A vertex line may follow a carriage return line ending.
    assert!(validate_obj("m.obj", 8, &text_of("o x\r\nv 1")).is_ok());
    // "v" must start the line.
    assert!(validate_obj("m.obj", 8, &text_of(" v 1 2 3")).is_err());
    assert!(validate_obj("m.obj", 8, &text_of("vt 1 2")).is_err());
}

#[test]
fn reads_needed_by_format() {
    assert_eq!(needed_read("a.fbx"), ModelRead::SizeAndHead);
    assert_eq!(needed_read("a.gltf"), ModelRead::SizeAndText);
    assert_eq!(needed_read("a.GLTF"), ModelRead::Size);
    assert_eq!(needed_read("a.glb"), ModelRead::Size);
    assert_eq!(needed_read("a.obj"), ModelRead::SizeAndText);
    assert_eq!(needed_read("a.blend"), ModelRead::Nothing);
    assert_eq!(needed_read("noext"), ModelRead::Nothing);
}
