//! The fixed-function render state of a material and its OpenGL values.
use vstd::prelude::*;
use std::sync::Arc;
use crate::asset_loader::LoadedAsset;
use crate::graphics::texture::Texture;
use crate::serialization::SerializedResource;

verus! {

/// Which faces are culled.
#[derive(Clone, Copy, Debug, PartialEq, Eq, Structural)]
pub enum CullMode {
    Off,
    Front,
    Back,
}

impl Default for CullMode {
    fn default() -> (r: Self)
        ensures
            r == CullMode::Back,
    {
        CullMode::Back
    }
}

/// The depth comparison function.
#[derive(Clone, Copy, Debug, PartialEq, Eq, Structural)]
pub enum DepthCompare {
    Always,
    Never,
    Equal,
    NotEqual,
    Less,
    Greater,
    LessOrEqual,
    GreaterOrEqual,
}

impl Default for DepthCompare {
    fn default() -> (r: Self)
        ensures
            r == DepthCompare::LessOrEqual,
    {
        DepthCompare::LessOrEqual
    }
}

/// How source and destination colors are combined when blending.
#[derive(Clone, Copy, Debug, PartialEq, Eq, Structural)]
pub enum BlendEquation {
    Add,
    Subtract,
    ReverseSubtract,
}

impl Default for BlendEquation {
    fn default() -> (r: Self)
        ensures
            r == BlendEquation::Add,
    {
        BlendEquation::Add
    }
}

/// A blend factor.
#[derive(Clone, Copy, Debug, PartialEq, Eq, Structural)]
pub enum BlendFunction {
    Zero,
    One,
    SrcColor,
    SrcAlpha,
    DstColor,
    DstAlpha,
    OneMinusSrcColor,
    OneMinusSrcAlpha,
    OneMinusDstColor,
    OneMinusDstAlpha,
}

/// The OpenGL enum of a blend factor (`GL_ZERO`, `GL_ONE`, `GL_SRC_COLOR`, ...).
pub open spec fn spec_blend_gl(f: BlendFunction) -> u32 {
    match f {
        BlendFunction::Zero => 0,
        BlendFunction::One => 1,
        BlendFunction::SrcColor => 0x0300,
        BlendFunction::SrcAlpha => 0x0302,
        BlendFunction::DstColor => 0x0306,
        BlendFunction::DstAlpha => 0x0304,
        BlendFunction::OneMinusSrcColor => 0x0301,
        BlendFunction::OneMinusSrcAlpha => 0x0303,
        BlendFunction::OneMinusDstColor => 0x0307,
        BlendFunction::OneMinusDstAlpha => 0x0305,
    }
}

impl BlendFunction {
    /// The OpenGL enum of the blend factor.
    pub fn to_gl(&self) -> (r: u32)
        ensures
            r == spec_blend_gl(*self),
    {
        match self {
            BlendFunction::Zero => 0,
            BlendFunction::One => 1,
            BlendFunction::SrcColor => 0x0300,
            BlendFunction::SrcAlpha => 0x0302,
            BlendFunction::DstColor => 0x0306,
            BlendFunction::DstAlpha => 0x0304,
            BlendFunction::OneMinusSrcColor => 0x0301,
            BlendFunction::OneMinusSrcAlpha => 0x0303,
            BlendFunction::OneMinusDstColor => 0x0307,
            BlendFunction::OneMinusDstAlpha => 0x0305,
        }
    }
}

/// The OpenGL enum of a depth comparison (`GL_ALWAYS`, `GL_NEVER`, ...).
pub open spec fn spec_depth_gl(c: DepthCompare) -> u32 {
    match c {
        DepthCompare::Always => 0x0207,
        DepthCompare::Never => 0x0200,
        DepthCompare::Equal => 0x0202,
        DepthCompare::NotEqual => 0x0205,
        DepthCompare::Less => 0x0201,
        DepthCompare::Greater => 0x0204,
        DepthCompare::LessOrEqual => 0x0203,
        DepthCompare::GreaterOrEqual => 0x0206,
    }
}

/// The OpenGL enum of a blend equation (`GL_FUNC_ADD`, ...).
pub open spec fn spec_equation_gl(e: BlendEquation) -> u32 {
    match e {
        BlendEquation::Add => 0x8006,
        BlendEquation::Subtract => 0x800A,
        BlendEquation::ReverseSubtract => 0x800B,
    }
}

/// `GL_FRONT`.
pub const GL_FRONT: u32 = 0x0404;
/// `GL_BACK`.
pub const GL_BACK: u32 = 0x0405;

/// The face that a cull mode culls, or `None` when culling is off.
pub open spec fn spec_cull_gl(c: CullMode) -> Option<u32> {
    match c {
        CullMode::Off => None,
        CullMode::Front => Some(GL_FRONT),
        CullMode::Back => Some(GL_BACK),
    }
}

/// The source blend factor of a material that names none.
pub fn blend_func_default_src() -> (r: BlendFunction)
    ensures
        r == BlendFunction::One,
{
    BlendFunction::One
}

/// The destination blend factor of a material that names none.
pub fn blend_func_default_dst() -> (r: BlendFunction)
    ensures
        r == BlendFunction::Zero,
{
    BlendFunction::Zero
}

/// Whether a material that does not say tests depth.
pub fn default_depth_test() -> (r: bool)
    ensures
        r == true,
{
    true
}

/// Whether a material that does not say writes depth.
pub fn default_depth_write() -> (r: bool)
    ensures
        r == true,
{
    true
}

/// The fixed-function settings of a material.
#[derive(Clone, Copy, Debug, PartialEq, Eq, Structural)]
pub struct MaterialState {
    pub transparent: bool,
    pub cull: CullMode,
    pub depth_test: bool,
    pub depth_write: bool,
    pub depth_cmp: DepthCompare,
    pub blend: bool,
    pub blend_equation: BlendEquation,
    pub blend_src: BlendFunction,
    pub blend_dst: BlendFunction,
}

/// The OpenGL state that a material sets before drawing.
#[derive(Clone, Copy, Debug, PartialEq, Eq, Structural)]
pub struct GlRenderState {
    /// The face culled (`GL_FRONT` or `GL_BACK`), or `None` to disable culling.
    pub cull_face: Option<u32>,
    pub depth_test: bool,
    pub depth_mask: bool,
    pub depth_func: u32,
    pub blend: bool,
    pub blend_equation: u32,
    pub blend_src: u32,
    pub blend_dst: u32,
}

impl MaterialState {
    /// The settings of a new material: opaque, back faces culled, depth
    /// tested with less-or-equal and written, no blending (add, one, zero).
    pub fn new() -> (m: MaterialState)
        ensures
            m == (MaterialState {
                transparent: false,
                cull: CullMode::Back,
                depth_test: true,
                depth_write: true,
                depth_cmp: DepthCompare::LessOrEqual,
                blend: false,
                blend_equation: BlendEquation::Add,
                blend_src: BlendFunction::One,
                blend_dst: BlendFunction::Zero,
            }),
    {
        MaterialState {
            transparent: false,
            cull: CullMode::Back,
            depth_test: true,
            depth_write: true,
            depth_cmp: DepthCompare::LessOrEqual,
            blend: false,
            blend_equation: BlendEquation::Add,
            blend_src: BlendFunction::One,
            blend_dst: BlendFunction::Zero,
        }
    }

    /// The OpenGL state of the settings.
    pub open spec fn spec_gl_state(self) -> GlRenderState {
        GlRenderState {
            cull_face: spec_cull_gl(self.cull),
            depth_test: self.depth_test,
            depth_mask: self.depth_write,
            depth_func: spec_depth_gl(self.depth_cmp),
            blend: self.blend,
            blend_equation: spec_equation_gl(self.blend_equation),
            blend_src: spec_blend_gl(self.blend_src),
            blend_dst: spec_blend_gl(self.blend_dst),
        }
    }

    /// The OpenGL state to set before drawing with the material.
    pub fn gl_state(&self) -> (r: GlRenderState)
        ensures
            r == self.spec_gl_state(),
    {
        let cull_face = match self.cull {
            CullMode::Off => None,
            CullMode::Front => Some(GL_FRONT),
            CullMode::Back => Some(GL_BACK),
        };
        let depth_func: u32 = match self.depth_cmp {
            DepthCompare::Always => 0x0207,
            DepthCompare::Never => 0x0200,
            DepthCompare::Equal => 0x0202,
            DepthCompare::NotEqual => 0x0205,
            DepthCompare::Less => 0x0201,
            DepthCompare::Greater => 0x0204,
            DepthCompare::LessOrEqual => 0x0203,
            DepthCompare::GreaterOrEqual => 0x0206,
        };
        let blend_equation: u32 = match self.blend_equation {
            BlendEquation::Add => 0x8006,
            BlendEquation::Subtract => 0x800A,
            BlendEquation::ReverseSubtract => 0x800B,
        };
        GlRenderState {
            cull_face,
            depth_test: self.depth_test,
            depth_mask: self.depth_write,
            depth_func,
            blend: self.blend,
            blend_equation,
            blend_src: self.blend_src.to_gl(),
            blend_dst: self.blend_dst.to_gl(),
        }
    }
}

/// `GL_NEAREST`.
pub const GL_NEAREST: u32 = 0x2600;
/// `GL_LINEAR`.
pub const GL_LINEAR: u32 = 0x2601;
/// `GL_REPEAT`.
pub const GL_REPEAT: u32 = 0x2901;
/// `GL_CLAMP_TO_EDGE`.
pub const GL_CLAMP_TO_EDGE: u32 = 0x812F;

/// A texture bound by a material, with how it is sampled.
pub struct TextureSampler {
    pub texture: SerializedResource<LoadedAsset<Texture>>,
    /// Bilinear filtering (else nearest texel).
    pub filter: bool,
    /// Repeat horizontally (else clamp to the edge).
    pub wrap_s: bool,
    /// Repeat vertically (else clamp to the edge).
    pub wrap_t: bool,
}

/// The OpenGL sampling parameters of a sampler: minifying filter,
/// magnifying filter, horizontal wrap and vertical wrap.
pub open spec fn spec_sampler_gl(filter: bool, wrap_s: bool, wrap_t: bool) -> (u32, u32, u32, u32) {
    let f = if filter { GL_LINEAR } else { GL_NEAREST };
    (f, f, if wrap_s { GL_REPEAT } else { GL_CLAMP_TO_EDGE }, if wrap_t { GL_REPEAT } else { GL_CLAMP_TO_EDGE })
}

impl TextureSampler {
    /// The OpenGL sampling parameters of the sampler.
    pub fn gl_params(&self) -> (r: (u32, u32, u32, u32))
        ensures
            r == spec_sampler_gl(self.filter, self.wrap_s, self.wrap_t),
    {
        let f = if self.filter { GL_LINEAR } else { GL_NEAREST };
        let s = if self.wrap_s { GL_REPEAT } else { GL_CLAMP_TO_EDGE };
        let t = if self.wrap_t { GL_REPEAT } else { GL_CLAMP_TO_EDGE };
        (f, f, s, t)
    }
}

/// `GL_TEXTURE0`, the first texture unit.
pub const GL_TEXTURE0: u32 = 0x84C0;

/// The number of `true` flags among the first `n` of `flags`.
pub open spec fn spec_count_true(flags: Seq<bool>, n: int) -> int
    decreases n,
{
    if n <= 0 {
        0
    } else {
        spec_count_true(flags, n - 1) + if flags[n - 1] { 1int } else { 0int }
    }
}

/// The texture unit of each material parameter, in the order the parameters
/// are applied: the texture parameters (`is_texture`) get units 0, 1, 2, ...
/// in turn, and the others none. A unit `u` is bound as `GL_TEXTURE0 + u`
/// and is the value given to the parameter's sampler uniform.
pub fn texture_units(is_texture: &Vec<bool>) -> (r: Vec<Option<u32>>)
    requires
        is_texture@.len() < u32::MAX,
    ensures
        r@.len() == is_texture@.len(),
        forall|i: int| 0 <= i < r@.len() ==> #[trigger] r@[i] == (if is_texture@[i] {
            Some(spec_count_true(is_texture@, i) as u32)
        } else {
            None
        }),
{
    let mut r: Vec<Option<u32>> = Vec::new();
    let mut slot: u32 = 0;
    let mut i: usize = 0;
    while i < is_texture.len()
        invariant
            is_texture@.len() < u32::MAX,
            i <= is_texture@.len(),
            r@.len() == i,
            slot == spec_count_true(is_texture@, i as int),
            slot <= i,
            forall|j: int| 0 <= j < i ==> #[trigger] r@[j] == (if is_texture@[j] {
                Some(spec_count_true(is_texture@, j) as u32)
            } else {
                None
            }),
        decreases is_texture@.len() - i,
    {
        if is_texture[i] {
            r.push(Some(slot));
            slot = slot + 1;
        } else {
            r.push(None);
        }
        i = i + 1;
    }
    r
}

/// The cull state of a material tells its cull mode: front faces culled is
/// `GL_FRONT` (0x0404), back faces `GL_BACK` (0x0405), and no culling none, so
/// two materials with the same cull state have the same cull mode.
pub proof fn law_cull_state_tells_cull_mode(m1: MaterialState, m2: MaterialState)
    ensures
        m1.spec_gl_state().cull_face == m2.spec_gl_state().cull_face ==> m1.cull == m2.cull,
        m1.cull == CullMode::Front ==> m1.spec_gl_state().cull_face == Some(0x0404u32),
        m1.cull == CullMode::Back ==> m1.spec_gl_state().cull_face == Some(0x0405u32),
        m1.cull == CullMode::Off ==> m1.spec_gl_state().cull_face is None,
{
}

/// The depth function and blend equation of a material's GL state tell its
/// depth comparison and blend equation: different settings give different
/// GL enums, each one of the GL depth functions (0x0200 ..= 0x0207) and
/// blend equations (`GL_FUNC_ADD` 0x8006, `GL_FUNC_SUBTRACT` 0x800A,
/// `GL_FUNC_REVERSE_SUBTRACT` 0x800B).
pub proof fn law_depth_and_equation_states_are_distinct(m1: MaterialState, m2: MaterialState)
    ensures
        m1.spec_gl_state().depth_func == m2.spec_gl_state().depth_func ==> m1.depth_cmp == m2.depth_cmp,
        0x0200 <= m1.spec_gl_state().depth_func <= 0x0207,
        m1.depth_cmp == DepthCompare::Never ==> m1.spec_gl_state().depth_func == 0x0200,
        m1.depth_cmp == DepthCompare::Always ==> m1.spec_gl_state().depth_func == 0x0207,
        m1.depth_cmp == DepthCompare::Less ==> m1.spec_gl_state().depth_func == 0x0201,
        m1.depth_cmp == DepthCompare::LessOrEqual ==> m1.spec_gl_state().depth_func == 0x0203,
        m1.depth_cmp == DepthCompare::Equal ==> m1.spec_gl_state().depth_func == 0x0202,
        m1.depth_cmp == DepthCompare::Greater ==> m1.spec_gl_state().depth_func == 0x0204,
        m1.depth_cmp == DepthCompare::NotEqual ==> m1.spec_gl_state().depth_func == 0x0205,
        m1.depth_cmp == DepthCompare::GreaterOrEqual ==> m1.spec_gl_state().depth_func == 0x0206,
        m1.spec_gl_state().blend_equation == m2.spec_gl_state().blend_equation ==> m1.blend_equation == m2.blend_equation,
        m1.blend_equation == BlendEquation::Add ==> m1.spec_gl_state().blend_equation == 0x8006,
        m1.blend_equation == BlendEquation::Subtract ==> m1.spec_gl_state().blend_equation == 0x800A,
        m1.blend_equation == BlendEquation::ReverseSubtract ==> m1.spec_gl_state().blend_equation == 0x800B,
{
}

/// The blend factors of a material's GL state are its own: the source and
/// destination factors are the GL enums of its source and destination blend
/// functions, and different blend functions have different GL enums
/// (`GL_ZERO` 0, `GL_ONE` 1, the colour and alpha factors 0x0300 ..= 0x0307);
/// the depth test, depth write and blending switches are passed on as they
/// are.
pub proof fn law_blend_factors_are_distinct(m: MaterialState, f1: BlendFunction, f2: BlendFunction)
    ensures
        spec_blend_gl(f1) == spec_blend_gl(f2) ==> f1 == f2,
        m.spec_gl_state().blend_src == spec_blend_gl(m.blend_src),
        m.spec_gl_state().blend_dst == spec_blend_gl(m.blend_dst),
        m.spec_gl_state().depth_test == m.depth_test,
        m.spec_gl_state().depth_mask == m.depth_write,
        m.spec_gl_state().blend == m.blend,
        f1 == BlendFunction::Zero ==> spec_blend_gl(f1) == 0,
        f1 == BlendFunction::One ==> spec_blend_gl(f1) == 1,
        f1 == BlendFunction::SrcColor ==> spec_blend_gl(f1) == 0x0300,
        f1 == BlendFunction::OneMinusSrcColor ==> spec_blend_gl(f1) == 0x0301,
        f1 == BlendFunction::SrcAlpha ==> spec_blend_gl(f1) == 0x0302,
        f1 == BlendFunction::OneMinusSrcAlpha ==> spec_blend_gl(f1) == 0x0303,
        f1 == BlendFunction::DstAlpha ==> spec_blend_gl(f1) == 0x0304,
        f1 == BlendFunction::OneMinusDstAlpha ==> spec_blend_gl(f1) == 0x0305,
        f1 == BlendFunction::DstColor ==> spec_blend_gl(f1) == 0x0306,
        f1 == BlendFunction::OneMinusDstColor ==> spec_blend_gl(f1) == 0x0307,
{
}

/// Sampling parameters: the minifying and magnifying filters are the same,
/// `GL_LINEAR` (0x2601) exactly when filtering and `GL_NEAREST` (0x2600)
/// otherwise; each wrap is `GL_REPEAT` (0x2901) exactly when that direction
/// repeats and `GL_CLAMP_TO_EDGE` (0x812F) otherwise, and depends on that
/// direction's setting alone.
pub proof fn law_sampler_params(filter: bool, wrap_s: bool, wrap_t: bool, other: bool)
    ensures
        spec_sampler_gl(filter, wrap_s, wrap_t).0 == spec_sampler_gl(filter, wrap_s, wrap_t).1,
        spec_sampler_gl(filter, wrap_s, wrap_t).0 == (if filter { 0x2601u32 } else { 0x2600u32 }),
        spec_sampler_gl(filter, wrap_s, wrap_t).2 == (if wrap_s { 0x2901u32 } else { 0x812Fu32 }),
        spec_sampler_gl(filter, wrap_s, wrap_t).3 == (if wrap_t { 0x2901u32 } else { 0x812Fu32 }),
        spec_sampler_gl(filter, wrap_s, wrap_t).2 == spec_sampler_gl(other, wrap_s, other).2,
        spec_sampler_gl(filter, wrap_s, wrap_t).3 == spec_sampler_gl(other, other, wrap_t).3,
{
}

/// Texture units are handed out in order without gaps: the first texture
/// parameter gets unit 0, each later texture parameter the unit after the
/// previous one's, so two texture parameters never share a unit.
pub proof fn law_texture_units_in_order(flags: Seq<bool>, i: int, j: int)
    requires
        0 <= i < j <= flags.len(),
    ensures
        spec_count_true(flags, 0) == 0,
        0 <= spec_count_true(flags, i) <= i,
        flags[i] ==> spec_count_true(flags, j) >= spec_count_true(flags, i) + 1,
        spec_count_true(flags, i + 1) == spec_count_true(flags, i) + (if flags[i] { 1int } else { 0int }),
    decreases j - i,
{
    lemma_count_true_bounds(flags, i);
    if j > i + 1 {
        law_texture_units_in_order(flags, i, j - 1);
        lemma_count_true_mono(flags, j - 1);
    }
}

proof fn lemma_count_true_bounds(flags: Seq<bool>, i: int)
    requires
        0 <= i,
    ensures
        0 <= spec_count_true(flags, i) <= i,
    decreases i,
{
    if i > 0 {
        lemma_count_true_bounds(flags, i - 1);
    }
}

proof fn lemma_count_true_mono(flags: Seq<bool>, i: int)
    requires
        0 <= i,
    ensures
        spec_count_true(flags, i + 1) >= spec_count_true(flags, i),
{
}

} // verus!
