//! The scene-graph document: assets, scenes, nodes, materials, meshes,
//! accessors, buffer views and buffers, together with the format-defined
//! default of every optional field and the typed-buffer packer that
//! appends element data to the document's shared binary blob.
//!
//! Text fields hold UTF-8 bytes; numeric fields of the format that carry
//! floating-point values hold a [`Real`] or [`Real32`] (bit pattern plus
//! rendered JSON number text).
use vstd::prelude::*;

use crate::scalar::Real;
use crate::scalar::Real32;
use crate::scalar::is_f64_zero;
use crate::scalar::is_f64_one;
use crate::scalar::is_f64_half;
use crate::scalar::F64_ZERO;
use crate::scalar::F64_ONE;
use crate::scalar::F64_HALF;
use vstd::string::StrSliceExecFns;
use vstd::string::StringSliceAdditionalSpecFns;

verus! {

/// The component types the format's accessors can carry, each with a fixed
/// numeric code and byte width.
#[derive(Clone, Copy, PartialEq, Eq, Structural, Debug)]
pub enum ComponentType {
    Byte,
    UnsignedByte,
    Short,
    UnsignedShort,
    UnsignedInt,
    Float,
}

impl ComponentType {
    /// The numeric code under which the format serializes this component type.
    pub open spec fn spec_code(self) -> u32 {
        match self {
            ComponentType::Byte => 5120,
            ComponentType::UnsignedByte => 5121,
            ComponentType::Short => 5122,
            ComponentType::UnsignedShort => 5123,
            ComponentType::UnsignedInt => 5125,
            ComponentType::Float => 5126,
        }
    }

    pub fn code(&self) -> (r: u32)
        ensures
            r == self.spec_code(),
    {
        match self {
            ComponentType::Byte => 5120,
            ComponentType::UnsignedByte => 5121,
            ComponentType::Short => 5122,
            ComponentType::UnsignedShort => 5123,
            ComponentType::UnsignedInt => 5125,
            ComponentType::Float => 5126,
        }
    }

    /// The width in bytes of one component of this type.
    pub open spec fn spec_byte_count(self) -> u32 {
        match self {
            ComponentType::Byte => 1,
            ComponentType::UnsignedByte => 1,
            ComponentType::Short => 2,
            ComponentType::UnsignedShort => 2,
            ComponentType::UnsignedInt => 4,
            ComponentType::Float => 4,
        }
    }

    pub fn byte_count(&self) -> (r: u32)
        ensures
            r == self.spec_byte_count(),
    {
        match self {
            ComponentType::Byte => 1,
            ComponentType::UnsignedByte => 1,
            ComponentType::Short => 2,
            ComponentType::UnsignedShort => 2,
            ComponentType::UnsignedInt => 4,
            ComponentType::Float => 4,
        }
    }
}

/// The element shapes the format's accessors can carry, each with a fixed
/// component count.
#[derive(Clone, Copy, PartialEq, Eq, Structural, Debug)]
#[allow(non_camel_case_types)]
pub enum Type {
    SCALAR,
    VEC2,
    VEC3,
    VEC4,
    MAT2,
    MAT3,
    MAT4,
}

impl Type {
    /// How many components one element of this shape has.
    pub open spec fn spec_component_count(self) -> u32 {
        match self {
            Type::SCALAR => 1,
            Type::VEC2 => 2,
            Type::VEC3 => 3,
            Type::VEC4 => 4,
            Type::MAT2 => 4,
            Type::MAT3 => 9,
            Type::MAT4 => 16,
        }
    }

    pub fn component_count(&self) -> (r: u32)
        ensures
            r == self.spec_component_count(),
    {
        match self {
            Type::SCALAR => 1,
            Type::VEC2 => 2,
            Type::VEC3 => 3,
            Type::VEC4 => 4,
            Type::MAT2 => 4,
            Type::MAT3 => 9,
            Type::MAT4 => 16,
        }
    }
}

/// The usage hints a buffer view can carry, serialized as numeric codes.
#[derive(Clone, Copy, PartialEq, Eq, Structural, Debug)]
pub enum Target {
    ArrayBuffer,
    ElementArrayBuffer,
}

impl Target {
    pub open spec fn spec_code(self) -> u32 {
        match self {
            Target::ArrayBuffer => 34962,
            Target::ElementArrayBuffer => 34963,
        }
    }

    pub fn code(&self) -> (r: u32)
        ensures
            r == self.spec_code(),
    {
        match self {
            Target::ArrayBuffer => 34962,
            Target::ElementArrayBuffer => 34963,
        }
    }
}

/// The draw modes of a mesh primitive, serialized as numeric codes; the
/// format's default is `Triangles`.
#[derive(Clone, Copy, PartialEq, Eq, Structural, Debug)]
pub enum Mode {
    Points,
    Lines,
    LineLoop,
    LineStrip,
    Triangles,
    TriangleStrip,
    TriangleFan,
}

impl Mode {
    pub open spec fn spec_code(self) -> u32 {
        match self {
            Mode::Points => 0,
            Mode::Lines => 1,
            Mode::LineLoop => 2,
            Mode::LineStrip => 3,
            Mode::Triangles => 4,
            Mode::TriangleStrip => 5,
            Mode::TriangleFan => 6,
        }
    }

    pub fn code(&self) -> (r: u32)
        ensures
            r == self.spec_code(),
    {
        match self {
            Mode::Points => 0,
            Mode::Lines => 1,
            Mode::LineLoop => 2,
            Mode::LineStrip => 3,
            Mode::Triangles => 4,
            Mode::TriangleStrip => 5,
            Mode::TriangleFan => 6,
        }
    }
}

/// The alpha modes a material can declare, serialized as quoted names; the
/// format's default is `OPAQUE`.
#[derive(Clone, Copy, PartialEq, Eq, Structural, Debug)]
pub enum AlphaMode {
    OPAQUE,
    MASK,
    BLEND,
}

/// The mandatory asset header of a document.
pub struct Asset {
    pub copyright: Vec<u8>,
    pub generator: Vec<u8>,
    pub version: Vec<u8>,
    pub min_version: Vec<u8>,
}

impl Asset {
    pub fn new() -> (r: Asset)
        ensures
            r.copyright@ == Seq::<u8>::empty(),
            r.generator@ == "emg v0.1.0".spec_bytes(),
            r.version@ == "2.0".spec_bytes(),
            r.min_version@ == "2.0".spec_bytes(),
    {
        Asset {
            copyright: Vec::new(),
            generator: "emg v0.1.0".as_bytes_vec(),
            version: "2.0".as_bytes_vec(),
            min_version: "2.0".as_bytes_vec(),
        }
    }
}

/// One scene: a name and the indices of its root nodes.
pub struct Scene {
    pub name: Vec<u8>,
    pub nodes: Vec<u32>,
}

impl Scene {
    pub fn new() -> (r: Scene)
        ensures
            r.name@ == Seq::<u8>::empty(),
            r.nodes@ == Seq::<u32>::empty(),
    {
        Scene { name: Vec::new(), nodes: Vec::new() }
    }
}

/// A node's translation, serialized as a three-element array; the default
/// is (0, 0, 0).
pub struct Translation {
    pub x: Real,
    pub y: Real,
    pub z: Real,
}

/// True exactly when every component compares equal to 0.0 under the
/// floating-point comparison.
pub open spec fn spec_translation_is_default(t: &Translation) -> bool {
    is_f64_zero(t.x.bits) && is_f64_zero(t.y.bits) && is_f64_zero(t.z.bits)
}

impl Translation {
    pub fn new() -> (r: Translation)
        ensures
            r.x.bits == F64_ZERO && r.x.text@ == "0.0".spec_bytes(),
            r.y.bits == F64_ZERO && r.y.text@ == "0.0".spec_bytes(),
            r.z.bits == F64_ZERO && r.z.text@ == "0.0".spec_bytes(),
            spec_translation_is_default(&r),
    {
        Translation {
            x: Real::new(F64_ZERO, "0.0".as_bytes_vec()),
            y: Real::new(F64_ZERO, "0.0".as_bytes_vec()),
            z: Real::new(F64_ZERO, "0.0".as_bytes_vec()),
        }
    }

    pub fn is_default(&self) -> (r: bool)
        ensures
            r == spec_translation_is_default(self),
    {
        self.x.is_zero() && self.y.is_zero() && self.z.is_zero()
    }
}

/// A node's rotation quaternion, serialized as a four-element array; the
/// default is (0, 0, 0, 1).
pub struct Rotation {
    pub x: Real,
    pub y: Real,
    pub z: Real,
    pub w: Real,
}

/// True exactly when the quaternion compares equal to the identity
/// (0, 0, 0, 1) under the floating-point comparison.
pub open spec fn spec_rotation_is_default(t: &Rotation) -> bool {
    is_f64_zero(t.x.bits) && is_f64_zero(t.y.bits) && is_f64_zero(t.z.bits) && is_f64_one(
        t.w.bits,
    )
}

impl Rotation {
    pub fn new() -> (r: Rotation)
        ensures
            r.x.bits == F64_ZERO && r.x.text@ == "0.0".spec_bytes(),
            r.y.bits == F64_ZERO && r.y.text@ == "0.0".spec_bytes(),
            r.z.bits == F64_ZERO && r.z.text@ == "0.0".spec_bytes(),
            r.w.bits == F64_ONE && r.w.text@ == "1.0".spec_bytes(),
            spec_rotation_is_default(&r),
    {
        Rotation {
            x: Real::new(F64_ZERO, "0.0".as_bytes_vec()),
            y: Real::new(F64_ZERO, "0.0".as_bytes_vec()),
            z: Real::new(F64_ZERO, "0.0".as_bytes_vec()),
            w: Real::new(F64_ONE, "1.0".as_bytes_vec()),
        }
    }

    pub fn is_default(&self) -> (r: bool)
        ensures
            r == spec_rotation_is_default(self),
    {
        self.x.is_zero() && self.y.is_zero() && self.z.is_zero() && self.w.is_one()
    }
}

/// A node's scale, serialized as a three-element array; the default is
/// (1, 1, 1).
pub struct Scale {
    pub x: Real,
    pub y: Real,
    pub z: Real,
}

/// True exactly when every component compares equal to 1.0 under the
/// floating-point comparison.
pub open spec fn spec_scale_is_default(t: &Scale) -> bool {
    is_f64_one(t.x.bits) && is_f64_one(t.y.bits) && is_f64_one(t.z.bits)
}

impl Scale {
    pub fn new() -> (r: Scale)
        ensures
            r.x.bits == F64_ONE && r.x.text@ == "1.0".spec_bytes(),
            r.y.bits == F64_ONE && r.y.text@ == "1.0".spec_bytes(),
            r.z.bits == F64_ONE && r.z.text@ == "1.0".spec_bytes(),
            spec_scale_is_default(&r),
    {
        Scale {
            x: Real::new(F64_ONE, "1.0".as_bytes_vec()),
            y: Real::new(F64_ONE, "1.0".as_bytes_vec()),
            z: Real::new(F64_ONE, "1.0".as_bytes_vec()),
        }
    }

    pub fn is_default(&self) -> (r: bool)
        ensures
            r == spec_scale_is_default(self),
    {
        self.x.is_one() && self.y.is_one() && self.z.is_one()
    }
}

/// One node of the scene hierarchy, with an optional mesh reference and a
/// translation/rotation/scale transform, each component omitted from the
/// serialized form when it equals its identity default.
pub struct Node {
    pub name: Vec<u8>,
    pub mesh: Option<u32>,
    pub t: Translation,
    pub r: Rotation,
    pub s: Scale,
    pub children: Vec<u32>,
}

impl Node {
    pub fn new() -> (r: Node)
        ensures
            r.name@ == Seq::<u8>::empty(),
            r.mesh is None,
            spec_translation_is_default(&r.t),
            spec_rotation_is_default(&r.r),
            spec_scale_is_default(&r.s),
            r.children@ == Seq::<u32>::empty(),
    {
        Node {
            name: Vec::new(),
            mesh: None,
            t: Translation::new(),
            r: Rotation::new(),
            s: Scale::new(),
            children: Vec::new(),
        }
    }
}

/// An RGBA color factor, serialized as a four-element array; the default
/// is (1, 1, 1, 1).
pub struct Color4 {
    pub r: Real,
    pub g: Real,
    pub b: Real,
    pub a: Real,
}

/// True exactly when every channel compares equal to 1.0 under the
/// floating-point comparison.
pub open spec fn spec_color4_is_default(c: &Color4) -> bool {
    is_f64_one(c.r.bits) && is_f64_one(c.g.bits) && is_f64_one(c.b.bits) && is_f64_one(c.a.bits)
}

impl Color4 {
    pub fn new() -> (res: Color4)
        ensures
            res.r.bits == F64_ONE && res.r.text@ == "1.0".spec_bytes(),
            res.g.bits == F64_ONE && res.g.text@ == "1.0".spec_bytes(),
            res.b.bits == F64_ONE && res.b.text@ == "1.0".spec_bytes(),
            res.a.bits == F64_ONE && res.a.text@ == "1.0".spec_bytes(),
            spec_color4_is_default(&res),
    {
        Color4 {
            r: Real::new(F64_ONE, "1.0".as_bytes_vec()),
            g: Real::new(F64_ONE, "1.0".as_bytes_vec()),
            b: Real::new(F64_ONE, "1.0".as_bytes_vec()),
            a: Real::new(F64_ONE, "1.0".as_bytes_vec()),
        }
    }

    pub fn is_default(&self) -> (res: bool)
        ensures
            res == spec_color4_is_default(self),
    {
        self.r.is_one() && self.g.is_one() && self.b.is_one() && self.a.is_one()
    }
}

/// A material's emissive factor, serialized as a three-element array; the
/// default is (0, 0, 0).
pub struct EmissiveFactor {
    pub e0: Real,
    pub e1: Real,
    pub e2: Real,
}

/// True exactly when every component compares equal to 0.0 under the
/// floating-point comparison.
pub open spec fn spec_emissive_is_default(e: &EmissiveFactor) -> bool {
    is_f64_zero(e.e0.bits) && is_f64_zero(e.e1.bits) && is_f64_zero(e.e2.bits)
}

/// The metallic-roughness description of a material; both factors default
/// to 1.0.
pub struct PBRMetallicRoughness {
    pub base_color_factor: Color4,
    pub metallic_factor: Real,
    pub roughness_factor: Real,
}

impl PBRMetallicRoughness {
    pub fn new() -> (r: PBRMetallicRoughness)
        ensures
            spec_color4_is_default(&r.base_color_factor),
            is_f64_one(r.metallic_factor.bits),
            r.metallic_factor.text@ == "1.0".spec_bytes(),
            is_f64_one(r.roughness_factor.bits),
            r.roughness_factor.text@ == "1.0".spec_bytes(),
    {
        PBRMetallicRoughness {
            base_color_factor: Color4::new(),
            metallic_factor: Real::new(F64_ONE, "1.0".as_bytes_vec()),
            roughness_factor: Real::new(F64_ONE, "1.0".as_bytes_vec()),
        }
    }
}

pub fn is_default_metallic_factor(value: &Real) -> (r: bool)
    ensures
        r == is_f64_one(value.bits),
{
    value.is_one()
}

pub fn is_default_roughness_factor(value: &Real) -> (r: bool)
    ensures
        r == is_f64_one(value.bits),
{
    value.is_one()
}

pub fn is_default_emissive_factor(value: &EmissiveFactor) -> (r: bool)
    ensures
        r == spec_emissive_is_default(value),
{
    value.e0.is_zero() && value.e1.is_zero() && value.e2.is_zero()
}

pub fn is_default_alpha_mode(value: &AlphaMode) -> (r: bool)
    ensures
        r == (*value == AlphaMode::OPAQUE),
{
    match value {
        AlphaMode::OPAQUE => true,
        _ => false,
    }
}

pub fn is_default_alpha_cutoff(value: &Real) -> (r: bool)
    ensures
        r == is_f64_half(value.bits),
{
    value.bits == F64_HALF
}

pub fn is_default_double_sided(value: &bool) -> (r: bool)
    ensures
        r == (*value == false),
{
    !*value
}

/// One material; every optional field is omitted from the serialized form
/// when it equals its format-defined default, while the metallic-roughness
/// description is always serialized.
pub struct Material {
    pub name: Vec<u8>,
    pub emissive_factor: EmissiveFactor,
    pub alpha_mode: AlphaMode,
    pub alpha_cutoff: Real,
    pub double_sided: bool,
    pub pbr_metallic_roughness: PBRMetallicRoughness,
}

impl Material {
    pub fn new() -> (r: Material)
        ensures
            r.name@ == Seq::<u8>::empty(),
            spec_emissive_is_default(&r.emissive_factor),
            r.alpha_mode == AlphaMode::OPAQUE,
            is_f64_half(r.alpha_cutoff.bits),
            r.alpha_cutoff.text@ == "0.5".spec_bytes(),
            r.double_sided == false,
            spec_color4_is_default(&r.pbr_metallic_roughness.base_color_factor),
            is_f64_one(r.pbr_metallic_roughness.metallic_factor.bits),
            is_f64_one(r.pbr_metallic_roughness.roughness_factor.bits),
    {
        Material {
            name: Vec::new(),
            emissive_factor: EmissiveFactor {
                e0: Real::new(F64_ZERO, "0.0".as_bytes_vec()),
                e1: Real::new(F64_ZERO, "0.0".as_bytes_vec()),
                e2: Real::new(F64_ZERO, "0.0".as_bytes_vec()),
            },
            alpha_mode: AlphaMode::OPAQUE,
            alpha_cutoff: Real::new(F64_HALF, "0.5".as_bytes_vec()),
            double_sided: false,
            pbr_metallic_roughness: PBRMetallicRoughness::new(),
        }
    }
}

/// The attribute-name to accessor-index map of a mesh primitive, with the
/// attribute names the format defines.
pub struct Attributes {
    pub color_0: Option<u32>,
    pub joints_0: Option<u32>,
    pub normal: Option<u32>,
    pub position: Option<u32>,
    pub tangent: Option<u32>,
    pub texcoord_0: Option<u32>,
    pub texcoord_1: Option<u32>,
    pub texcoord_2: Option<u32>,
    pub texcoord_3: Option<u32>,
    pub weights_0: Option<u32>,
}

impl Attributes {
    pub fn new() -> (r: Attributes)
        ensures
            r.color_0 is None,
            r.joints_0 is None,
            r.normal is None,
            r.position is None,
            r.tangent is None,
            r.texcoord_0 is None,
            r.texcoord_1 is None,
            r.texcoord_2 is None,
            r.texcoord_3 is None,
            r.weights_0 is None,
    {
        Attributes {
            color_0: None,
            joints_0: None,
            normal: None,
            position: None,
            tangent: None,
            texcoord_0: None,
            texcoord_1: None,
            texcoord_2: None,
            texcoord_3: None,
            weights_0: None,
        }
    }
}

pub fn is_default_mode(value: &Mode) -> (r: bool)
    ensures
        r == (*value == Mode::Triangles),
{
    match value {
        Mode::Triangles => true,
        _ => false,
    }
}

/// One primitive of a mesh: its attributes, an optional indices accessor,
/// an optional material, and a draw mode defaulting to `Triangles`.
pub struct MeshPrimitive {
    pub attributes: Attributes,
    pub indices: Option<u32>,
    pub material: Option<u32>,
    pub mode: Mode,
}

impl MeshPrimitive {
    pub fn new() -> (r: MeshPrimitive)
        ensures
            r.attributes.position is None,
            r.attributes.normal is None,
            r.attributes.color_0 is None,
            r.attributes.joints_0 is None,
            r.attributes.tangent is None,
            r.attributes.texcoord_0 is None,
            r.attributes.texcoord_1 is None,
            r.attributes.texcoord_2 is None,
            r.attributes.texcoord_3 is None,
            r.attributes.weights_0 is None,
            r.indices is None,
            r.material is None,
            r.mode == Mode::Triangles,
    {
        MeshPrimitive {
            attributes: Attributes::new(),
            indices: None,
            material: None,
            mode: Mode::Triangles,
        }
    }
}

/// One mesh: a list of primitives, always serialized, and optional
/// morph-target weights.
pub struct Mesh {
    pub name: Vec<u8>,
    pub primitives: Vec<MeshPrimitive>,
    pub weights: Vec<Real>,
}

impl Mesh {
    pub fn new() -> (r: Mesh)
        ensures
            r.name@ == Seq::<u8>::empty(),
            r.primitives@ == Seq::<MeshPrimitive>::empty(),
            r.weights@ == Seq::<Real>::empty(),
    {
        Mesh { name: Vec::new(), primitives: Vec::new(), weights: Vec::new() }
    }
}

pub fn is_default_byte_offset(value: &u32) -> (r: bool)
    ensures
        r == (*value == 0),
{
    *value == 0
}

pub fn is_default_normalized(value: &bool) -> (r: bool)
    ensures
        r == (*value == false),
{
    !*value
}

/// One accessor: how a span of a buffer view is read as typed elements.
pub struct Accessor {
    pub name: Vec<u8>,
    pub buffer_view: Option<u32>,
    pub byte_offset: u32,
    pub component_type: ComponentType,
    pub normalized: bool,
    pub count: u32,
    pub type_: Type,
    pub max: Vec<Real32>,
    pub min: Vec<Real32>,
}

impl Accessor {
    pub fn new() -> (r: Accessor)
        ensures
            r.name@ == Seq::<u8>::empty(),
            r.buffer_view is None,
            r.byte_offset == 0,
            r.component_type == ComponentType::Byte,
            r.normalized == false,
            r.count == 0,
            r.type_ == Type::SCALAR,
            r.max@ == Seq::<Real32>::empty(),
            r.min@ == Seq::<Real32>::empty(),
    {
        Accessor {
            name: Vec::new(),
            buffer_view: None,
            byte_offset: 0,
            component_type: ComponentType::Byte,
            normalized: false,
            count: 0,
            type_: Type::SCALAR,
            max: Vec::new(),
            min: Vec::new(),
        }
    }
}

/// One buffer view: a contiguous byte range of a buffer, with an optional
/// usage hint.
pub struct BufferView {
    pub name: Vec<u8>,
    pub buffer: u32,
    pub byte_length: u32,
    pub byte_offset: u32,
    pub byte_stride: Option<u32>,
    pub target: Option<Target>,
}

impl BufferView {
    pub fn new() -> (r: BufferView)
        ensures
            r.name@ == Seq::<u8>::empty(),
            r.buffer == 0,
            r.byte_length == 0,
            r.byte_offset == 0,
            r.byte_stride is None,
            r.target is None,
    {
        BufferView {
            name: Vec::new(),
            buffer: 0,
            byte_length: 0,
            byte_offset: 0,
            byte_stride: None,
            target: None,
        }
    }
}

/// One buffer entry: its serialized form carries only the byte length and
/// an optional URI; the bytes themselves live in the document's blob.
pub struct Buffer {
    pub name: Vec<u8>,
    pub byte_length: u32,
    pub uri: Vec<u8>,
}

impl Buffer {
    pub fn new() -> (r: Buffer)
        ensures
            r.name@ == Seq::<u8>::empty(),
            r.byte_length == 0,
            r.uri@ == Seq::<u8>::empty(),
    {
        Buffer { name: Vec::new(), byte_length: 0, uri: Vec::new() }
    }
}

/// A whole document: the serializable scene graph plus the shared binary
/// blob that packed geometry data is appended to.
pub struct GLTF {
    pub asset: Asset,
    pub scene: Option<u32>,
    pub scenes: Vec<Scene>,
    pub nodes: Vec<Node>,
    pub materials: Vec<Material>,
    pub meshes: Vec<Mesh>,
    pub accessors: Vec<Accessor>,
    pub buffer_views: Vec<BufferView>,
    pub buffers: Vec<Buffer>,
    pub glb_bin: Vec<u8>,
}

impl GLTF {
    pub fn new() -> (r: GLTF)
        ensures
            r.asset.copyright@ == Seq::<u8>::empty(),
            r.asset.generator@ == "emg v0.1.0".spec_bytes(),
            r.asset.version@ == "2.0".spec_bytes(),
            r.asset.min_version@ == "2.0".spec_bytes(),
            r.scene is None,
            r.scenes@ == Seq::<Scene>::empty(),
            r.nodes@ == Seq::<Node>::empty(),
            r.materials@ == Seq::<Material>::empty(),
            r.meshes@ == Seq::<Mesh>::empty(),
            r.accessors@ == Seq::<Accessor>::empty(),
            r.buffer_views@ == Seq::<BufferView>::empty(),
            r.buffers@.len() == 1,
            r.buffers@[0].name@ == Seq::<u8>::empty(),
            r.buffers@[0].byte_length == 0,
            r.buffers@[0].uri@ == Seq::<u8>::empty(),
            r.glb_bin@ == Seq::<u8>::empty(),
    {
        let mut buffers: Vec<Buffer> = Vec::new();
        buffers.push(Buffer::new());
        GLTF {
            asset: Asset::new(),
            scene: None,
            scenes: Vec::new(),
            nodes: Vec::new(),
            materials: Vec::new(),
            meshes: Vec::new(),
            accessors: Vec::new(),
            buffer_views: Vec::new(),
            buffers,
            glb_bin: Vec::new(),
        }
    }

    /// Appends one packed element sequence, already encoded little-endian,
    /// to the document's blob, and records a buffer view spanning exactly
    /// the appended bytes and an accessor over that view whose count is the
    /// number of elements.  Min/max bounds and the view's usage hint are
    /// the caller's responsibility, as only the caller knows the data's
    /// semantic role.
    pub fn append_to_glb_bin(&mut self, buffer: Vec<u8>, type_: Type, component_type: ComponentType)
        requires
            old(self).buffers@.len() >= 1,
            buffer@.len() as int % (type_.spec_component_count()
                * component_type.spec_byte_count()) as int == 0,
            old(self).glb_bin@.len() + buffer@.len() <= u32::MAX,
            old(self).buffers@[0].byte_length + buffer@.len() <= u32::MAX,
            old(self).buffer_views@.len() + 1 <= u32::MAX,
        ensures
            final(self).glb_bin@ == old(self).glb_bin@ + buffer@,
            final(self).buffer_views@.len() == old(self).buffer_views@.len() + 1,
            final(self).buffer_views@.drop_last() == old(self).buffer_views@,
            final(self).buffer_views@.last().name@ == Seq::<u8>::empty(),
            final(self).buffer_views@.last().buffer == 0,
            final(self).buffer_views@.last().byte_length == buffer@.len(),
            final(self).buffer_views@.last().byte_offset == old(self).glb_bin@.len(),
            final(self).buffer_views@.last().byte_stride is None,
            final(self).buffer_views@.last().target is None,
            final(self).accessors@.len() == old(self).accessors@.len() + 1,
            final(self).accessors@.drop_last() == old(self).accessors@,
            final(self).accessors@.last().name@ == Seq::<u8>::empty(),
            final(self).accessors@.last().buffer_view == Some(
                (final(self).buffer_views@.len() - 1) as u32,
            ),
            final(self).accessors@.last().byte_offset == 0,
            final(self).accessors@.last().component_type == component_type,
            final(self).accessors@.last().normalized == false,
            final(self).accessors@.last().count == buffer@.len() as int / (
            type_.spec_component_count() * component_type.spec_byte_count()) as int,
            final(self).accessors@.last().type_ == type_,
            final(self).accessors@.last().max@ == Seq::<Real32>::empty(),
            final(self).accessors@.last().min@ == Seq::<Real32>::empty(),
            final(self).buffers@.len() == old(self).buffers@.len(),
            final(self).buffers@[0].byte_length == old(self).buffers@[0].byte_length
                + buffer@.len(),
            final(self).buffers@[0].name == old(self).buffers@[0].name,
            final(self).buffers@[0].uri == old(self).buffers@[0].uri,
            forall|i: int|
                1 <= i < old(self).buffers@.len() ==> final(self).buffers@[i] == old(
                    self,
                ).buffers@[i],
            final(self).asset == old(self).asset,
            final(self).scene == old(self).scene,
            final(self).scenes == old(self).scenes,
            final(self).nodes == old(self).nodes,
            final(self).materials == old(self).materials,
            final(self).meshes == old(self).meshes,
    {
        let bytes: u32 = buffer.len() as u32;
        let mut buffer_moved = buffer;
        let offset: u32 = self.glb_bin.len() as u32;
        self.glb_bin.append(&mut buffer_moved);

        let mut first = self.buffers.remove(0);
        first.byte_length = first.byte_length + bytes;
        self.buffers.insert(0, first);

        let mut buffer_view = BufferView::new();
        buffer_view.buffer = 0;
        buffer_view.byte_length = bytes;
        buffer_view.byte_offset = offset;
        self.buffer_views.push(buffer_view);

        proof {
            assert(1 <= type_.spec_component_count() <= 16) by {
                match type_ {
                    Type::SCALAR => {},
                    Type::VEC2 => {},
                    Type::VEC3 => {},
                    Type::VEC4 => {},
                    Type::MAT2 => {},
                    Type::MAT3 => {},
                    Type::MAT4 => {},
                }
            }
            assert(1 <= component_type.spec_byte_count() <= 4) by {
                match component_type {
                    ComponentType::Byte => {},
                    ComponentType::UnsignedByte => {},
                    ComponentType::Short => {},
                    ComponentType::UnsignedShort => {},
                    ComponentType::UnsignedInt => {},
                    ComponentType::Float => {},
                }
            }
        }
        let element_size: u32 = type_.component_count() * component_type.byte_count();
        let mut accessor = Accessor::new();
        accessor.buffer_view = Some((self.buffer_views.len() - 1) as u32);
        accessor.type_ = type_;
        accessor.component_type = component_type;
        accessor.count = bytes / element_size;
        self.accessors.push(accessor);

        proof {
            assert(self.buffer_views@.drop_last() =~= old(self).buffer_views@);
            assert(self.accessors@.drop_last() =~= old(self).accessors@);
        }
    }
}

/// Divides a whole number of elements back out of a byte total: for any
/// element count `n` and positive element size `s`, `n * s` bytes hold
/// exactly `n` elements and no remainder.
pub proof fn lemma_packer_arithmetic(n: int, s: int)
    requires
        n >= 0,
        s > 0,
    ensures
        (n * s) % s == 0,
        (n * s) / s == n,
{
    assert((n * s) % s == 0 && (n * s) / s == n) by (nonlinear_arith)
        requires
            n >= 0 && s > 0,
    ;
}

} // verus!
