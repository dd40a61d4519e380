use vstd::prelude::*;
use vstd::string::StringSliceAdditionalSpecFns;
use crate::bytes::{contains, first_index, lemma_first_index, occurs_at, contains_bytes, replace_bytes, replace_first};
use crate::material::{Material, MaterialView, Pass, PassView, ShaderCode, ShaderCodeView, ShaderStage, Variant};
use crate::version::{LightmapFix, MVersion};

verus! {

/// Replacement for the anchor under the newest packing scheme.
pub const NEWEST_FIX: &'static str = "\n#define a_texcoord1 fract(a_texcoord1.y * vec2(256.0, 4096.0))\nvoid main";

/// Replacement for the anchor under the earlier packing scheme.
pub const PRIOR_FIX: &'static str = "\n#define a_texcoord1 vec2(fract(a_texcoord1.x*15.9375)+0.0001,floor(a_texcoord1.x*15.9375)*0.0625+0.0001)\nvoid main";

/// The text in front of which the fix is inserted.
pub const ANCHOR: &'static str = "void main";

/// Present in every shader that already carries a fix.
pub const PATCH_MARKER: &'static str = "#define a_texcoord1 ";

/// The lightmap assignment that makes a shader eligible, spaced.
pub const ASSIGN_SPACED: &'static str = "v_lightmapUV = a_texcoord1;";

/// The lightmap assignment that makes a shader eligible, unspaced.
pub const ASSIGN_TIGHT: &'static str = "v_lightmapUV=a_texcoord1;";

/// Present in shaders that already use the newest packing scheme.
pub const NEWEST_MARKER: &'static str = "vec2(256.0, 4096.0)";

/// The material whose shaders need the lightmap fix.
pub const RENDER_CHUNK: &'static str = "RenderChunk";

/// The bytes that replace the anchor for a fix.
pub open spec fn fix_text(fix: LightmapFix) -> Seq<u8> {
    match fix {
        LightmapFix::PackedY => NEWEST_FIX.spec_bytes(),
        LightmapFix::PackedX => PRIOR_FIX.spec_bytes(),
    }
}

/// The shader is left alone: it already carries a fix, or it has no lightmap
/// assignment to fix.
pub open spec fn skips(text: Seq<u8>) -> bool {
    contains(text, PATCH_MARKER.spec_bytes()) || (!contains(text, ASSIGN_SPACED.spec_bytes())
        && !contains(text, ASSIGN_TIGHT.spec_bytes()))
}

/// What the engine did with one vertex shader.
#[derive(Clone, Copy, PartialEq, Eq, Debug, Structural)]
pub enum ShaderPatch {
    /// Skipped: the newest fix was asked for and its packing is already there.
    AlreadyCurrent,
    /// Skipped: already patched, or no lightmap assignment.
    Skipped,
    /// Eligible, but the anchor does not occur: the text is unchanged.
    AnchorMissing,
    /// The fix was inserted before the first anchor.
    Applied,
}

pub open spec fn spec_patch_outcome(text: Seq<u8>, fix: LightmapFix) -> ShaderPatch {
    if skips(text) {
        if fix == LightmapFix::PackedY && contains(text, NEWEST_MARKER.spec_bytes()) {
            ShaderPatch::AlreadyCurrent
        } else {
            ShaderPatch::Skipped
        }
    } else if contains(text, ANCHOR.spec_bytes()) {
        ShaderPatch::Applied
    } else {
        ShaderPatch::AnchorMissing
    }
}

/// The shader text after the fix.
pub open spec fn patched_text(text: Seq<u8>, fix: LightmapFix) -> Seq<u8> {
    if skips(text) {
        text
    } else {
        replace_first(text, ANCHOR.spec_bytes(), fix_text(fix))
    }
}

pub open spec fn patched_code(c: ShaderCodeView, fix: LightmapFix) -> ShaderCodeView {
    if c.stage == ShaderStage::Vertex {
        ShaderCodeView { code: patched_text(c.code, fix), ..c }
    } else {
        c
    }
}

pub open spec fn patched_variant(v: Seq<ShaderCodeView>, fix: LightmapFix) -> Seq<ShaderCodeView> {
    v.map_values(|c: ShaderCodeView| patched_code(c, fix))
}

pub open spec fn patched_pass(p: PassView, fix: LightmapFix) -> PassView {
    PassView {
        name: p.name,
        variants: p.variants.map_values(|v: Seq<ShaderCodeView>| patched_variant(v, fix)),
    }
}

/// The material after the lightmap fix of `target`; unchanged where the
/// release needs none.
pub open spec fn patched_material(m: MaterialView, target: MVersion) -> MaterialView {
    match target.spec_lightmap_fix() {
        Some(fix) => MaterialView {
            name: m.name,
            passes: m.passes.map_values(|p: PassView| patched_pass(p, fix)),
        },
        None => m,
    }
}

/// The material goes through the patch engine: it is the render-chunk
/// material and the release needs a lightmap fix.
pub open spec fn spec_needs_lightmap_fix(m: MaterialView, target: MVersion) -> bool {
    m.name == RENDER_CHUNK@ && target.spec_lightmap_fix() is Some
}

pub fn fix_bytes(fix: LightmapFix) -> (r: &'static [u8])
    ensures
        r@ == fix_text(fix),
{
    match fix {
        LightmapFix::PackedY => NEWEST_FIX.as_bytes(),
        LightmapFix::PackedX => PRIOR_FIX.as_bytes(),
    }
}

/// Applies the fix to one vertex shader's text, unless it is already patched,
/// has no lightmap assignment, or lacks the anchor.
pub fn patch_source(code: &mut Vec<u8>, fix: LightmapFix) -> (r: ShaderPatch)
    ensures
        r == spec_patch_outcome(old(code)@, fix),
        final(code)@ == patched_text(old(code)@, fix),
{
    let text = code.as_slice();
    let skip = contains_bytes(text, PATCH_MARKER.as_bytes()) || (!contains_bytes(
        text,
        ASSIGN_SPACED.as_bytes(),
    ) && !contains_bytes(text, ASSIGN_TIGHT.as_bytes()));
    if skip {
        if fix == LightmapFix::PackedY && contains_bytes(text, NEWEST_MARKER.as_bytes()) {
            return ShaderPatch::AlreadyCurrent;
        }
        return ShaderPatch::Skipped;
    }
    let rep = fix_bytes(fix);
    if replace_bytes(code, ANCHOR.as_bytes(), rep) {
        ShaderPatch::Applied
    } else {
        ShaderPatch::AnchorMissing
    }
}

/// The material goes through the patch engine: it is the render-chunk
/// material and the release needs a lightmap fix.
pub fn needs_lightmap_fix(material: &Material, target: MVersion) -> (r: bool)
    ensures
        r == spec_needs_lightmap_fix(material@, target),
{
    material.name == RENDER_CHUNK.to_owned() && target.lightmap_fix().is_some()
}

fn patch_code(c: &ShaderCode, fix: LightmapFix) -> (r: ShaderCode)
    ensures
        r@ == patched_code(c@, fix),
{
    let mut code = c.code.clone();
    if c.stage == ShaderStage::Vertex {
        let _ = patch_source(&mut code, fix);
    }
    ShaderCode { stage: c.stage, platform_name: c.platform_name.clone(), code }
}

fn patch_variant(v: &Variant, fix: LightmapFix) -> (r: Variant)
    ensures
        r@ == patched_variant(v@, fix),
{
    let mut out: Vec<ShaderCode> = Vec::new();
    let mut i: usize = 0;
    while i < v.shader_codes.len()
        invariant
            i <= v.shader_codes@.len(),
            out@.len() == i,
            forall|k: int| 0 <= k < i ==> (#[trigger] out@[k])@ == patched_code(v.shader_codes@[k]@, fix),
        decreases v.shader_codes@.len() - i,
    {
        out.push(patch_code(&v.shader_codes[i], fix));
        i = i + 1;
    }
    let r = Variant { shader_codes: out };
    assert(r@ =~= patched_variant(v@, fix));
    r
}

fn patch_pass(p: &Pass, fix: LightmapFix) -> (r: Pass)
    ensures
        r@ == patched_pass(p@, fix),
{
    let mut out: Vec<Variant> = Vec::new();
    let mut i: usize = 0;
    while i < p.variants.len()
        invariant
            i <= p.variants@.len(),
            out@.len() == i,
            forall|k: int| 0 <= k < i ==> (#[trigger] out@[k])@ == patched_variant(p.variants@[k]@, fix),
        decreases p.variants@.len() - i,
    {
        out.push(patch_variant(&p.variants[i], fix));
        i = i + 1;
    }
    let r = Pass { name: p.name.clone(), variants: out };
    assert(r@.variants =~= patched_pass(p@, fix).variants);
    r
}

/// Applies the lightmap fix of `target` to every vertex shader of the
/// material; everything else is kept. Nothing changes for a release that
/// needs no fix.
pub fn handle_lightmaps(material: &mut Material, target: MVersion)
    ensures
        final(material)@ == patched_material(old(material)@, target),
{
    let fix = match target.lightmap_fix() {
        Some(f) => f,
        None => return ,
    };
    let mut out: Vec<Pass> = Vec::new();
    let mut i: usize = 0;
    while i < material.passes.len()
        invariant
            i <= material.passes@.len(),
            out@.len() == i,
            forall|k: int| 0 <= k < i ==> (#[trigger] out@[k])@ == patched_pass(material.passes@[k]@, fix),
        decreases material.passes@.len() - i,
    {
        out.push(patch_pass(&material.passes[i], fix));
        i = i + 1;
    }
    let ghost before = material@;
    material.passes = out;
    assert(material@.passes =~= patched_material(before, target).passes);
}

/// Each fix text carries the patch marker right after its leading newline.
pub proof fn lemma_fix_has_marker(fix: LightmapFix)
    ensures
        occurs_at(fix_text(fix), PATCH_MARKER.spec_bytes(), 1),
{
    broadcast use vstd::string::group_string_axioms;
    broadcast use vstd::string::is_ascii_spec_bytes;
    reveal_strlit("#define a_texcoord1 ");
    reveal_strlit("\n#define a_texcoord1 fract(a_texcoord1.y * vec2(256.0, 4096.0))\nvoid main");
    reveal_strlit("\n#define a_texcoord1 vec2(fract(a_texcoord1.x*15.9375)+0.0001,floor(a_texcoord1.x*15.9375)*0.0625+0.0001)\nvoid main");
    assert(vstd::string::is_ascii(PATCH_MARKER));
    match fix {
        LightmapFix::PackedY => {
            assert(vstd::string::is_ascii(NEWEST_FIX));
            assert(NEWEST_FIX.spec_bytes().subrange(1, 21) =~= PATCH_MARKER.spec_bytes());
        },
        LightmapFix::PackedX => {
            assert(vstd::string::is_ascii(PRIOR_FIX));
            assert(PRIOR_FIX.spec_bytes().subrange(1, 21) =~= PATCH_MARKER.spec_bytes());
        },
    }
}

/// A shader text with a lightmap assignment but no anchor is left as it is.
pub proof fn lemma_anchor_missing_keeps_text(text: Seq<u8>, fix: LightmapFix)
    requires
        !contains(text, ANCHOR.spec_bytes()),
    ensures
        patched_text(text, fix) == text,
        spec_patch_outcome(text, fix) != ShaderPatch::Applied,
{
}

/// Patching a shader text a second time with the same fix changes nothing.
pub proof fn lemma_patch_text_idempotent(text: Seq<u8>, fix: LightmapFix)
    ensures
        patched_text(patched_text(text, fix), fix) == patched_text(text, fix),
{
    let anchor = ANCHOR.spec_bytes();
    let marker = PATCH_MARKER.spec_bytes();
    if !skips(text) && contains(text, anchor) {
        let i = first_index(text, anchor);
        lemma_first_index(text, anchor);
        lemma_fix_has_marker(fix);
        let f = fix_text(fix);
        let new = text.subrange(0, i) + f + text.subrange(i + anchor.len() as int, text.len() as int);
        assert(new.subrange(i + 1, i + 1 + marker.len() as int) =~= f.subrange(1, 1 + marker.len() as int));
        assert(occurs_at(new, marker, i + 1));
        assert(skips(new));
    }
}

/// Patching a material a second time for the same release changes nothing.
pub proof fn lemma_patch_idempotent(m: MaterialView, target: MVersion)
    ensures
        patched_material(patched_material(m, target), target) == patched_material(m, target),
{
    if let Some(fix) = target.spec_lightmap_fix() {
        let once = patched_material(m, target);
        let twice = patched_material(once, target);
        assert forall|a: int| 0 <= a < m.passes.len() implies twice.passes[a] == once.passes[a] by {
            let p = once.passes[a];
            assert forall|b: int| 0 <= b < p.variants.len() implies patched_variant(
                p.variants[b],
                fix,
            ) == p.variants[b] by {
                let v = p.variants[b];
                assert forall|c: int| 0 <= c < v.len() implies patched_code(v[c], fix) == v[c] by {
                    let orig = m.passes[a].variants[b][c];
                    lemma_patch_text_idempotent(orig.code, fix);
                }
                assert(patched_variant(v, fix) =~= v);
            }
            assert(patched_pass(p, fix).variants =~= p.variants);
        }
        assert(twice.passes =~= once.passes);
    }
}

/// A release that needs no fix leaves the material as it is.
pub proof fn lemma_no_fix_keeps_material(m: MaterialView, target: MVersion)
    requires
        target.spec_lightmap_fix() is None,
    ensures
        patched_material(m, target) == m,
{
}

} // verus!
