use material_updater::bytes::{contains_bytes, find, replace_bytes};
use material_updater::material::{Material, Pass, ShaderCode, ShaderStage, Variant};
use material_updater::patch::{
    handle_lightmaps, needs_lightmap_fix, patch_source, ShaderPatch, NEWEST_FIX, PRIOR_FIX,
};
use material_updater::pipeline::file_update;
use material_updater::version::{BinaryFormat, LightmapFix, MVersion};

const SHADER: &str = "attribute vec2 a_texcoord1;\nv_lightmapUV = a_texcoord1;\nvoid main() { gl_Position = pos; }";

fn shader(stage: ShaderStage, text: &str) -> ShaderCode {
    ShaderCode { stage, platform_name: "ESSL_300".to_string(), code: text.as_bytes().to_vec() }
}

fn material(name: &str, codes: Vec<ShaderCode>) -> Material {
    Material {
        name: name.to_string(),
        passes: vec![Pass { name: "Opaque".to_string(), variants: vec![Variant { shader_codes: codes }] }],
    }
}

fn code_of(m: &Material, i: usize) -> String {
    String::from_utf8(m.passes[0].variants[0].shader_codes[i].code.clone()).unwrap()
}

#[test]
fn find_returns_first_occurrence() {
    assert_eq!(find(b"abcabc", b"bc"), Some(1));
    assert_eq!(find(b"abcabc", b"cb"), None);
    assert_eq!(find(b"abc", b""), Some(0));
    assert!(contains_bytes(b"xx void main", b"void main"));
    assert!(!contains_bytes(b"void mai", b"void main"));
}

#[test]
fn replace_bytes_replaces_only_the_first() {
    let mut buf = b"one two one".to_vec();
    assert!(replace_bytes(&mut buf, b"one", b"1"));
    assert_eq!(buf, b"1 two one".to_vec());
    let mut buf2 = b"none here".to_vec();
    assert!(!replace_bytes(&mut buf2, b"zzz", b"1"));
    assert_eq!(buf2, b"none here".to_vec());
}

#[test]
fn newest_fix_is_inserted_before_void_main() {
    let mut m = material("RenderChunk", vec![shader(ShaderStage::Vertex, SHADER)]);
    let f = file_update(&mut m, MVersion::V26_10_20);
    assert_eq!(f, BinaryFormat::V1_21_110);
    let expected = "attribute vec2 a_texcoord1;\nv_lightmapUV = a_texcoord1;\n\n#define a_texcoord1 fract(a_texcoord1.y * vec2(256.0, 4096.0))\nvoid main() { gl_Position = pos; }";
    assert_eq!(code_of(&m, 0), expected);
}

#[test]
fn prior_fix_is_inserted_for_1_21_110() {
    let mut m = material("RenderChunk", vec![shader(ShaderStage::Vertex, SHADER)]);
    file_update(&mut m, MVersion::V1_21_110);
    let expected = format!(
        "attribute vec2 a_texcoord1;\nv_lightmapUV = a_texcoord1;\n{}() {{ gl_Position = pos; }}",
        PRIOR_FIX
    );
    assert_eq!(code_of(&m, 0), expected);
}

#[test]
fn release_without_fix_leaves_shader_untouched() {
    for v in [MVersion::V1_21_20, MVersion::V1_20_80, MVersion::V1_19_60, MVersion::V1_18_30] {
        let mut m = material("RenderChunk", vec![shader(ShaderStage::Vertex, SHADER)]);
        file_update(&mut m, v);
        assert_eq!(code_of(&m, 0), SHADER);
    }
}

#[test]
fn other_material_names_are_not_patched() {
    let mut m = material("Sky", vec![shader(ShaderStage::Vertex, SHADER)]);
    assert!(!needs_lightmap_fix(&m, MVersion::V26_10_20));
    file_update(&mut m, MVersion::V26_10_20);
    assert_eq!(code_of(&m, 0), SHADER);
}

#[test]
fn fragment_shaders_are_not_patched() {
    let mut m = material(
        "RenderChunk",
        vec![shader(ShaderStage::Fragment, SHADER), shader(ShaderStage::Vertex, SHADER)],
    );
    handle_lightmaps(&mut m, MVersion::V26_10_20);
    assert_eq!(code_of(&m, 0), SHADER);
    assert!(code_of(&m, 1).contains(NEWEST_FIX));
}

#[test]
fn patching_twice_equals_patching_once() {
    let mut m = material("RenderChunk", vec![shader(ShaderStage::Vertex, SHADER)]);
    handle_lightmaps(&mut m, MVersion::V1_21_110);
    let once = code_of(&m, 0);
    handle_lightmaps(&mut m, MVersion::V1_21_110);
    assert_eq!(code_of(&m, 0), once);
}

#[test]
fn missing_anchor_leaves_text_unchanged() {
    let text = "v_lightmapUV = a_texcoord1;\nvoid mian() {}";
    let mut code = text.as_bytes().to_vec();
    assert_eq!(patch_source(&mut code, LightmapFix::PackedY), ShaderPatch::AnchorMissing);
    assert_eq!(code, text.as_bytes().to_vec());
}

#[test]
fn unspaced_assignment_is_eligible() {
    let mut code = b"v_lightmapUV=a_texcoord1;\nvoid main(){}".to_vec();
    assert_eq!(patch_source(&mut code, LightmapFix::PackedX), ShaderPatch::Applied);
    assert!(String::from_utf8(code).unwrap().starts_with("v_lightmapUV=a_texcoord1;\n\n#define a_texcoord1 vec2("));
}

#[test]
fn shader_without_assignment_is_skipped() {
    let text = "v_lightmapUV = a_texcoord0;\nvoid main(){}";
    let mut code = text.as_bytes().to_vec();
    assert_eq!(patch_source(&mut code, LightmapFix::PackedY), ShaderPatch::Skipped);
    assert_eq!(code, text.as_bytes().to_vec());
}

#[test]
fn already_patched_shader_is_skipped() {
    let text = "#define a_texcoord1 x\nv_lightmapUV = a_texcoord1;\nvoid main(){}";
    let mut code = text.as_bytes().to_vec();
    assert_eq!(patch_source(&mut code, LightmapFix::PackedX), ShaderPatch::Skipped);
    assert_eq!(code, text.as_bytes().to_vec());
}

#[test]
fn newest_packing_already_present_is_current() {
    let text = "uv = fract(t.y * vec2(256.0, 4096.0));\nvoid main(){}";
    let mut code = text.as_bytes().to_vec();
    assert_eq!(patch_source(&mut code, LightmapFix::PackedY), ShaderPatch::AlreadyCurrent);
    assert_eq!(code, text.as_bytes().to_vec());
    let mut code2 = text.as_bytes().to_vec();
    assert_eq!(patch_source(&mut code2, LightmapFix::PackedX), ShaderPatch::Skipped);
}
