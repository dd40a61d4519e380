use vstd::prelude::*;

verus! {

/// The pipeline stage a shader entry belongs to.
#[derive(Clone, Copy, PartialEq, Eq, Debug, Structural)]
pub enum ShaderStage {
    Vertex,
    Fragment,
    Compute,
    Unknown,
}

/// One shader entry of a variant: its stage, its platform tag and the source
/// text held in its embedded sub-blob.
pub struct ShaderCode {
    pub stage: ShaderStage,
    pub platform_name: String,
    pub code: Vec<u8>,
}

/// A group of shader entries.
pub struct Variant {
    pub shader_codes: Vec<ShaderCode>,
}

/// The variants of one render pass.
pub struct Pass {
    pub name: String,
    pub variants: Vec<Variant>,
}

/// A decoded material: its name and its passes in order.
pub struct Material {
    pub name: String,
    pub passes: Vec<Pass>,
}

pub ghost struct ShaderCodeView {
    pub stage: ShaderStage,
    pub platform_name: Seq<char>,
    pub code: Seq<u8>,
}

pub ghost struct PassView {
    pub name: Seq<char>,
    pub variants: Seq<Seq<ShaderCodeView>>,
}

pub ghost struct MaterialView {
    pub name: Seq<char>,
    pub passes: Seq<PassView>,
}

impl View for ShaderCode {
    type V = ShaderCodeView;

    open spec fn view(&self) -> ShaderCodeView {
        ShaderCodeView { stage: self.stage, platform_name: self.platform_name@, code: self.code@ }
    }
}

impl View for Variant {
    type V = Seq<ShaderCodeView>;

    open spec fn view(&self) -> Seq<ShaderCodeView> {
        self.shader_codes@.map_values(|c: ShaderCode| c@)
    }
}

impl View for Pass {
    type V = PassView;

    open spec fn view(&self) -> PassView {
        PassView { name: self.name@, variants: self.variants@.map_values(|v: Variant| v@) }
    }
}

impl View for Material {
    type V = MaterialView;

    open spec fn view(&self) -> MaterialView {
        MaterialView { name: self.name@, passes: self.passes@.map_values(|p: Pass| p@) }
    }
}

} // verus!
