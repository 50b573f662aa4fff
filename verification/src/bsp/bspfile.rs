//! Parsing of IBSP (version 38) map files with the BSPX extension lumps.
//!
//! Every parser works on the whole file held in memory as bytes. Fields that
//! the file stores as IEEE-754 floats are kept as their raw 32-bit patterns.
use vstd::prelude::*;
use crate::le_bytes::{spec_u16_le, spec_u32_le, spec_i16_le, spec_i32_le, read_u16_le, read_u32_le, read_i16_le, read_i32_le};
use crate::misc::Color32;
use crate::text::{spec_cstr, spec_cstr_len, read_cstr, lemma_cstr_len, str_eq};
use vstd::utf8::{valid_utf8, encode_utf8, decode_utf8};

verus! {

/// Why a BSP file (or one of its lumps) could not be read.
#[derive(Debug, Clone, Copy, PartialEq, Eq)]
pub enum BspError {
    /// A read went past the end of the data.
    UnexpectedEof,
    /// The file does not start with the `IBSP` magic number.
    BadMagic,
    /// The file is not version 38.
    BadVersion,
    /// The `BSPX` extension header is missing.
    NoBspx,
    /// A required `BSPX` lump is missing.
    MissingBspxLump,
    /// A name stored in the file is not valid UTF-8 or has no terminator.
    InvalidName,
    /// A static prop names a topology other than triangles or a triangle strip.
    InvalidTopology,
    /// Visibility offsets or the light grid size are inconsistent with the lump.
    InvalidLayout,
}

/// Location of a lump inside the file.
#[derive(Debug, Clone, Copy, PartialEq, Eq)]
pub struct BspLumpInfo {
    pub offset: u32,
    pub length: u32,
}

/// Whether `count` records of `rec` bytes starting at `offset` lie inside `len` bytes.
pub open spec fn spec_records_fit(len: int, offset: int, count: int, rec: int) -> bool {
    offset + count * rec <= len
}

/// Number of whole `rec`-byte records in a lump.
pub open spec fn spec_record_count(info: BspLumpInfo, rec: int) -> int {
    info.length as int / rec
}

/// Checks that `count` records of `rec` bytes starting at `offset` fit in `len` bytes.
fn records_fit(len: usize, offset: u64, count: u32, rec: u32) -> (r: bool)
    requires
        offset <= 0xffff_ffff_ffff,
        rec <= 256,
    ensures
        r == spec_records_fit(len as int, offset as int, count as int, rec as int),
{
    assert(count as int * rec as int <= 0xffff_ffff * 256) by (nonlinear_arith)
        requires count <= 0xffff_ffff, rec <= 256;
    let end: u64 = offset + (count as u64) * (rec as u64);
    end <= len as u64
}

/// Record `i` of a run that fits lies wholly inside the data.
proof fn lemma_record_in_bounds(len: int, offset: int, count: int, rec: int, i: int)
    requires
        spec_records_fit(len, offset, count, rec),
        0 <= i < count,
        rec >= 0,
        offset >= 0,
    ensures
        offset + i * rec + rec <= len,
        0 <= i * rec,
{
    assert(i * rec + rec <= count * rec) by (nonlinear_arith)
        requires 0 <= i < count, rec >= 0;
    assert(0 <= i * rec) by (nonlinear_arith)
        requires 0 <= i, rec >= 0;
}


pub const SURF_LIGHT: u32 = 0x1;
pub const SURF_SLICK: u32 = 0x2;
pub const SURF_SKY: u32 = 0x4;
pub const SURF_WARP: u32 = 0x8;
pub const SURF_TRANS33: u32 = 0x10;
pub const SURF_TRANS66: u32 = 0x20;
pub const SURF_FLOW: u32 = 0x40;
pub const SURF_NODRAW: u32 = 0x80;
/// Surfaces that carry no lightmap.
pub const SURF_NOLM: u32 = 0xbc;

pub const CONTENTS_SOLID: u32 = 1;
pub const CONTENTS_WINDOW: u32 = 2;
pub const CONTENTS_AUX: u32 = 4;
pub const CONTENTS_LAVA: u32 = 8;
pub const CONTENTS_SLIME: u32 = 16;
pub const CONTENTS_WATER: u32 = 32;
pub const CONTENTS_MIST: u32 = 64;
/// Contents that block movement.
pub const MASK_SOLID: u32 = 3;

/// Whether the whole lump, as `length / rec` records of `rec` bytes, lies in the data.
pub open spec fn spec_lump_fits(data: Seq<u8>, info: BspLumpInfo, rec: int) -> bool {
    spec_records_fit(data.len() as int, info.offset as int, spec_record_count(info, rec), rec)
}

/// The error of a lump made of fixed-size records: only a short read can fail.
pub open spec fn spec_records_error(data: Seq<u8>, info: BspLumpInfo, rec: int) -> Option<BspError> {
    if spec_lump_fits(data, info, rec) { None } else { Some(BspError::UnexpectedEof) }
}

/// A float vector of three components, each kept as its IEEE-754 bit pattern.
#[derive(Debug, Clone, Copy, PartialEq, Eq, Structural)]
pub struct RawVector3 {
    pub x: u32,
    pub y: u32,
    pub z: u32,
}

/// A float vector of four components, each kept as its IEEE-754 bit pattern.
#[derive(Debug, Clone, Copy, PartialEq, Eq, Structural)]
pub struct RawVector4 {
    pub x: u32,
    pub y: u32,
    pub z: u32,
    pub w: u32,
}

/// A float vector of two components, each kept as its IEEE-754 bit pattern.
#[derive(Debug, Clone, Copy, PartialEq, Eq, Structural)]
pub struct RawVector2 {
    pub x: u32,
    pub y: u32,
}

/// A vector of three 16-bit integers (node and leaf bounds).
#[derive(Debug, Clone, Copy, PartialEq, Eq, Structural)]
pub struct ShortVector3 {
    pub x: i16,
    pub y: i16,
    pub z: i16,
}

/// A vector of three 32-bit integers (light grid dimensions).
#[derive(Debug, Clone, Copy, PartialEq, Eq, Structural)]
pub struct IntVector3 {
    pub x: i32,
    pub y: i32,
    pub z: i32,
}

pub open spec fn spec_vec3f_at(s: Seq<u8>, p: int) -> RawVector3 {
    RawVector3 {
        x: spec_u32_le(s, p) as u32,
        y: spec_u32_le(s, p + 4) as u32,
        z: spec_u32_le(s, p + 8) as u32,
    }
}

pub open spec fn spec_vec4f_at(s: Seq<u8>, p: int) -> RawVector4 {
    RawVector4 {
        x: spec_u32_le(s, p) as u32,
        y: spec_u32_le(s, p + 4) as u32,
        z: spec_u32_le(s, p + 8) as u32,
        w: spec_u32_le(s, p + 12) as u32,
    }
}

pub open spec fn spec_vec2f_at(s: Seq<u8>, p: int) -> RawVector2 {
    RawVector2 { x: spec_u32_le(s, p) as u32, y: spec_u32_le(s, p + 4) as u32 }
}

pub open spec fn spec_vec3s_at(s: Seq<u8>, p: int) -> ShortVector3 {
    ShortVector3 {
        x: spec_i16_le(s, p) as i16,
        y: spec_i16_le(s, p + 2) as i16,
        z: spec_i16_le(s, p + 4) as i16,
    }
}

pub open spec fn spec_vec3i_at(s: Seq<u8>, p: int) -> IntVector3 {
    IntVector3 {
        x: spec_i32_le(s, p) as i32,
        y: spec_i32_le(s, p + 4) as i32,
        z: spec_i32_le(s, p + 8) as i32,
    }
}

pub open spec fn spec_color24_at(s: Seq<u8>, p: int) -> Color32 {
    Color32 { r: s[p], g: s[p + 1], b: s[p + 2], a: 255 }
}

pub open spec fn spec_color32_at(s: Seq<u8>, p: int) -> Color32 {
    Color32 { r: s[p], g: s[p + 1], b: s[p + 2], a: s[p + 3] }
}

fn read_vec2f(data: &[u8], p: usize) -> (v: RawVector2)
    requires
        p + 8 <= data.len(),
    ensures
        v == spec_vec2f_at(data@, p as int),
{
    RawVector2 { x: read_u32_le(data, p), y: read_u32_le(data, p + 4) }
}

fn read_vec3f(data: &[u8], p: usize) -> (v: RawVector3)
    requires
        p + 12 <= data.len(),
    ensures
        v == spec_vec3f_at(data@, p as int),
{
    RawVector3 { x: read_u32_le(data, p), y: read_u32_le(data, p + 4), z: read_u32_le(data, p + 8) }
}

fn read_vec4f(data: &[u8], p: usize) -> (v: RawVector4)
    requires
        p + 16 <= data.len(),
    ensures
        v == spec_vec4f_at(data@, p as int),
{
    RawVector4 {
        x: read_u32_le(data, p),
        y: read_u32_le(data, p + 4),
        z: read_u32_le(data, p + 8),
        w: read_u32_le(data, p + 12),
    }
}

fn read_vec3s(data: &[u8], p: usize) -> (v: ShortVector3)
    requires
        p + 6 <= data.len(),
    ensures
        v == spec_vec3s_at(data@, p as int),
{
    ShortVector3 { x: read_i16_le(data, p), y: read_i16_le(data, p + 2), z: read_i16_le(data, p + 4) }
}

fn read_vec3i(data: &[u8], p: usize) -> (v: IntVector3)
    requires
        p + 12 <= data.len(),
    ensures
        v == spec_vec3i_at(data@, p as int),
{
    IntVector3 { x: read_i32_le(data, p), y: read_i32_le(data, p + 4), z: read_i32_le(data, p + 8) }
}

fn read_color24(data: &[u8], p: usize) -> (c: Color32)
    requires
        p + 3 <= data.len(),
    ensures
        c == spec_color24_at(data@, p as int),
{
    Color32::new(data[p], data[p + 1], data[p + 2], 255)
}

fn read_color32(data: &[u8], p: usize) -> (c: Color32)
    requires
        p + 4 <= data.len(),
    ensures
        c == spec_color32_at(data@, p as int),
{
    Color32::new(data[p], data[p + 1], data[p + 2], data[p + 3])
}

/// Checks `spec_lump_fits` and gives the record count.
fn lump_record_count(data: &[u8], info: &BspLumpInfo, rec: u32) -> (r: Option<u32>)
    requires
        0 < rec <= 256,
    ensures
        r is Some <==> spec_lump_fits(data@, *info, rec as int),
        r matches Some(n) ==> n == spec_record_count(*info, rec as int),
{
    let count = info.length / rec;
    if records_fit(data.len(), info.offset as u64, count, rec) {
        Some(count)
    } else {
        None
    }
}

/// An edge between two vertex indices.
#[derive(Debug, Clone, Copy, PartialEq, Eq, Structural)]
pub struct Edge {
    pub a: u16,
    pub b: u16,
}

pub open spec fn spec_edge_at(s: Seq<u8>, p: int) -> Edge {
    Edge { a: spec_u16_le(s, p) as u16, b: spec_u16_le(s, p + 2) as u16 }
}

pub struct EdgeLump {
    pub edges: Vec<Edge>,
}

impl EdgeLump {
    pub open spec fn spec_error(data: Seq<u8>, info: BspLumpInfo) -> Option<BspError> {
        spec_records_error(data, info, 4)
    }

    pub open spec fn spec_parsed_from(self, data: Seq<u8>, info: BspLumpInfo) -> bool {
        &&& self.edges@.len() == spec_record_count(info, 4)
        &&& forall|i: int| 0 <= i < self.edges@.len() ==>
            #[trigger] self.edges@[i] == spec_edge_at(data, info.offset + 4 * i)
    }

    /// Reads `length / 4` edges (two little-endian `u16` vertex indices each).
    pub fn new(data: &[u8], info: &BspLumpInfo) -> (r: Result<EdgeLump, BspError>)
        ensures
            r is Err <==> Self::spec_error(data@, *info) is Some,
            r matches Err(e) ==> Self::spec_error(data@, *info) == Some(e),
            r matches Ok(l) ==> l.spec_parsed_from(data@, *info),
    {
        let count = match lump_record_count(data, info, 4) {
            Some(n) => n,
            None => return Err(BspError::UnexpectedEof),
        };
        let mut edges: Vec<Edge> = Vec::new();
        let mut i: u32 = 0;
        while i < count
            invariant
                i <= count,
                count == spec_record_count(*info, 4),
                spec_lump_fits(data@, *info, 4),
                edges@.len() == i,
                forall|j: int| 0 <= j < i ==> #[trigger] edges@[j] == spec_edge_at(data@, info.offset + 4 * j),
            decreases count - i,
        {
            proof {
                lemma_record_in_bounds(data@.len() as int, info.offset as int, count as int, 4, i as int);
                assert(info.offset + 4 * i + 4 <= data.len());
            }
            let p: usize = info.offset as usize + 4 * (i as usize);
            let a = read_u16_le(data, p);
            let b = read_u16_le(data, p + 2);
            edges.push(Edge { a, b });
            i = i + 1;
        }
        Ok(EdgeLump { edges })
    }
}


pub struct VertexLump {
    pub vertices: Vec<RawVector3>,
}

impl VertexLump {
    pub open spec fn spec_error(data: Seq<u8>, info: BspLumpInfo) -> Option<BspError> {
        spec_records_error(data, info, 12)
    }

    pub open spec fn spec_parsed_from(self, data: Seq<u8>, info: BspLumpInfo) -> bool {
        &&& self.vertices@.len() == spec_record_count(info, 12)
        &&& forall|i: int| 0 <= i < self.vertices@.len() ==>
            #[trigger] self.vertices@[i] == spec_vec3f_at(data, info.offset + 12 * i)
    }

    /// Reads `length / 12` vertex positions (three floats each).
    pub fn new(data: &[u8], info: &BspLumpInfo) -> (r: Result<VertexLump, BspError>)
        ensures
            r is Err <==> Self::spec_error(data@, *info) is Some,
            r matches Err(e) ==> Self::spec_error(data@, *info) == Some(e),
            r matches Ok(l) ==> l.spec_parsed_from(data@, *info),
    {
        let count = match lump_record_count(data, info, 12) {
            Some(n) => n,
            None => return Err(BspError::UnexpectedEof),
        };
        let mut vertices: Vec<RawVector3> = Vec::new();
        let mut i: u32 = 0;
        while i < count
            invariant
                i <= count,
                count == spec_record_count(*info, 12),
                spec_lump_fits(data@, *info, 12),
                vertices@.len() == i,
                forall|j: int| 0 <= j < i ==> #[trigger] vertices@[j] == spec_vec3f_at(data@, info.offset + 12 * j),
            decreases count - i,
        {
            proof {
                lemma_record_in_bounds(data@.len() as int, info.offset as int, count as int, 12, i as int);
                assert(info.offset + 12 * i + 12 <= data.len());
            }
            let p: usize = info.offset as usize + 12 * (i as usize);
            vertices.push(read_vec3f(data, p));
            i = i + 1;
        }
        Ok(VertexLump { vertices })
    }
}


/// A map face: a polygon given by a run of face edges, with its lightmap data.
#[derive(Debug, Clone, Copy)]
pub struct BspFace {
    pub _plane: u16,
    pub _plane_side: u16,
    pub first_edge: u32,
    pub num_edges: u16,
    pub texture_info: u16,
    pub lightmap_styles: [u8; 4],
    pub num_lightmaps: usize,
    pub lightmap_offset: u32,
}

/// Number of lightmap styles before the first unused (255) slot.
pub open spec fn spec_num_lightmaps(s0: u8, s1: u8, s2: u8, s3: u8) -> usize {
    if s0 == 255 { 0 } else if s1 == 255 { 1 } else if s2 == 255 { 2 } else if s3 == 255 { 3 } else { 4 }
}

/// A face uses the light styles before its first unused (255) slot: the
/// count is at most 4, every style it counts is in use, and the slot after
/// the last one counted is unused.
pub proof fn law_num_lightmaps_counts_leading_styles(s0: u8, s1: u8, s2: u8, s3: u8)
    ensures
        ({
            let n = spec_num_lightmaps(s0, s1, s2, s3) as int;
            let s = seq![s0, s1, s2, s3];
            &&& 0 <= n <= 4
            &&& forall|j: int| 0 <= j < n ==> s[j] != 255
            &&& n < 4 ==> s[n] == 255
        }),
{
}

pub open spec fn spec_face_at(s: Seq<u8>, p: int) -> BspFace {
    BspFace {
        _plane: spec_u16_le(s, p) as u16,
        _plane_side: spec_u16_le(s, p + 2) as u16,
        first_edge: spec_u32_le(s, p + 4) as u32,
        num_edges: spec_u16_le(s, p + 8) as u16,
        texture_info: spec_u16_le(s, p + 10) as u16,
        lightmap_styles: [s[p + 12], s[p + 13], s[p + 14], s[p + 15]],
        num_lightmaps: spec_num_lightmaps(s[p + 12], s[p + 13], s[p + 14], s[p + 15]),
        lightmap_offset: spec_u32_le(s, p + 16) as u32,
    }
}

/// Counts the lightmap styles in use: those before the first 255.
fn count_lightmaps(styles: &[u8; 4]) -> (n: usize)
    ensures
        n == spec_num_lightmaps(styles[0], styles[1], styles[2], styles[3]),
{
    let mut n: usize = 0;
    while n < 4 && styles[n] != 255
        invariant
            n <= 4,
            forall|j: int| 0 <= j < n ==> styles[j] != 255,
        decreases 4 - n,
    {
        n = n + 1;
    }
    n
}

pub struct FaceLump {
    pub faces: Vec<BspFace>,
}

impl FaceLump {
    pub open spec fn spec_error(data: Seq<u8>, info: BspLumpInfo) -> Option<BspError> {
        spec_records_error(data, info, 20)
    }

    pub open spec fn spec_parsed_from(self, data: Seq<u8>, info: BspLumpInfo) -> bool {
        &&& self.faces@.len() == spec_record_count(info, 20)
        &&& forall|i: int| 0 <= i < self.faces@.len() ==>
            #[trigger] self.faces@[i] == spec_face_at(data, info.offset + 20 * i)
    }

    /// Reads `length / 20` faces; `num_lightmaps` counts the styles before the first 255.
    pub fn new(data: &[u8], info: &BspLumpInfo) -> (r: Result<FaceLump, BspError>)
        ensures
            r is Err <==> Self::spec_error(data@, *info) is Some,
            r matches Err(e) ==> Self::spec_error(data@, *info) == Some(e),
            r matches Ok(l) ==> l.spec_parsed_from(data@, *info),
    {
        let count = match lump_record_count(data, info, 20) {
            Some(n) => n,
            None => return Err(BspError::UnexpectedEof),
        };
        let mut faces: Vec<BspFace> = Vec::new();
        let mut i: u32 = 0;
        while i < count
            invariant
                i <= count,
                count == spec_record_count(*info, 20),
                spec_lump_fits(data@, *info, 20),
                faces@.len() == i,
                forall|j: int| 0 <= j < i ==> #[trigger] faces@[j] == spec_face_at(data@, info.offset + 20 * j),
            decreases count - i,
        {
            proof {
                lemma_record_in_bounds(data@.len() as int, info.offset as int, count as int, 20, i as int);
                assert(info.offset + 20 * i + 20 <= data.len());
            }
            let p: usize = info.offset as usize + 20 * (i as usize);
            let styles: [u8; 4] = [data[p + 12], data[p + 13], data[p + 14], data[p + 15]];
            let num_lightmaps = count_lightmaps(&styles);
            faces.push(BspFace {
                _plane: read_u16_le(data, p),
                _plane_side: read_u16_le(data, p + 2),
                first_edge: read_u32_le(data, p + 4),
                num_edges: read_u16_le(data, p + 8),
                texture_info: read_u16_le(data, p + 10),
                lightmap_styles: styles,
                num_lightmaps,
                lightmap_offset: read_u32_le(data, p + 16),
            });
            i = i + 1;
        }
        Ok(FaceLump { faces })
    }
}


pub open spec fn spec_i32_at(s: Seq<u8>, p: int) -> i32 {
    spec_i32_le(s, p) as i32
}

pub struct FaceEdgeLump {
    pub edges: Vec<i32>,
}

impl FaceEdgeLump {
    pub open spec fn spec_error(data: Seq<u8>, info: BspLumpInfo) -> Option<BspError> {
        spec_records_error(data, info, 4)
    }

    pub open spec fn spec_parsed_from(self, data: Seq<u8>, info: BspLumpInfo) -> bool {
        &&& self.edges@.len() == spec_record_count(info, 4)
        &&& forall|i: int| 0 <= i < self.edges@.len() ==>
            #[trigger] self.edges@[i] == spec_i32_at(data, info.offset + 4 * i)
    }

    /// Reads `length / 4` signed edge references (negative means the edge is reversed).
    pub fn new(data: &[u8], info: &BspLumpInfo) -> (r: Result<FaceEdgeLump, BspError>)
        ensures
            r is Err <==> Self::spec_error(data@, *info) is Some,
            r matches Err(e) ==> Self::spec_error(data@, *info) == Some(e),
            r matches Ok(l) ==> l.spec_parsed_from(data@, *info),
    {
        let count = match lump_record_count(data, info, 4) {
            Some(n) => n,
            None => return Err(BspError::UnexpectedEof),
        };
        let mut edges: Vec<i32> = Vec::new();
        let mut i: u32 = 0;
        while i < count
            invariant
                i <= count,
                count == spec_record_count(*info, 4),
                spec_lump_fits(data@, *info, 4),
                edges@.len() == i,
                forall|j: int| 0 <= j < i ==> #[trigger] edges@[j] == spec_i32_at(data@, info.offset + 4 * j),
            decreases count - i,
        {
            proof {
                lemma_record_in_bounds(data@.len() as int, info.offset as int, count as int, 4, i as int);
                assert(info.offset + 4 * i + 4 <= data.len());
            }
            let p: usize = info.offset as usize + 4 * (i as usize);
            edges.push(read_i32_le(data, p));
            i = i + 1;
        }
        Ok(FaceEdgeLump { edges })
    }
}


/// A splitting plane: normal, distance (both as float bits) and axis type.
#[derive(Debug, Clone, Copy, PartialEq, Eq, Structural)]
pub struct Plane {
    pub normal: RawVector3,
    pub distance: u32,
    pub plane_type: u32,
}

pub open spec fn spec_plane_at(s: Seq<u8>, p: int) -> Plane {
    Plane {
        normal: spec_vec3f_at(s, p),
        distance: spec_u32_le(s, p + 12) as u32,
        plane_type: spec_u32_le(s, p + 16) as u32,
    }
}

pub struct PlaneLump {
    pub planes: Vec<Plane>,
}

impl PlaneLump {
    pub open spec fn spec_error(data: Seq<u8>, info: BspLumpInfo) -> Option<BspError> {
        spec_records_error(data, info, 20)
    }

    pub open spec fn spec_parsed_from(self, data: Seq<u8>, info: BspLumpInfo) -> bool {
        &&& self.planes@.len() == spec_record_count(info, 20)
        &&& forall|i: int| 0 <= i < self.planes@.len() ==>
            #[trigger] self.planes@[i] == spec_plane_at(data, info.offset + 20 * i)
    }

    /// Reads `length / 20` planes.
    pub fn new(data: &[u8], info: &BspLumpInfo) -> (r: Result<PlaneLump, BspError>)
        ensures
            r is Err <==> Self::spec_error(data@, *info) is Some,
            r matches Err(e) ==> Self::spec_error(data@, *info) == Some(e),
            r matches Ok(l) ==> l.spec_parsed_from(data@, *info),
    {
        let count = match lump_record_count(data, info, 20) {
            Some(n) => n,
            None => return Err(BspError::UnexpectedEof),
        };
        let mut planes: Vec<Plane> = Vec::new();
        let mut i: u32 = 0;
        while i < count
            invariant
                i <= count,
                count == spec_record_count(*info, 20),
                spec_lump_fits(data@, *info, 20),
                planes@.len() == i,
                forall|j: int| 0 <= j < i ==> #[trigger] planes@[j] == spec_plane_at(data@, info.offset + 20 * j),
            decreases count - i,
        {
            proof {
                lemma_record_in_bounds(data@.len() as int, info.offset as int, count as int, 20, i as int);
                assert(info.offset + 20 * i + 20 <= data.len());
            }
            let p: usize = info.offset as usize + 20 * (i as usize);
            planes.push(Plane {
                normal: read_vec3f(data, p),
                distance: read_u32_le(data, p + 12),
                plane_type: read_u32_le(data, p + 16),
            });
            i = i + 1;
        }
        Ok(PlaneLump { planes })
    }
}


/// An interior node of the BSP tree. A negative child `c` is the leaf `-(c + 1)`.
#[derive(Debug, Clone, Copy, PartialEq, Eq, Structural)]
pub struct Node {
    pub plane: u32,
    pub front_child: i32,
    pub back_child: i32,
    pub _bbox_min: ShortVector3,
    pub _bbox_max: ShortVector3,
    pub _first_face: u16,
    pub _num_faces: u16,
}

pub open spec fn spec_node_at(s: Seq<u8>, p: int) -> Node {
    Node {
        plane: spec_u32_le(s, p) as u32,
        front_child: spec_i32_le(s, p + 4) as i32,
        back_child: spec_i32_le(s, p + 8) as i32,
        _bbox_min: spec_vec3s_at(s, p + 12),
        _bbox_max: spec_vec3s_at(s, p + 18),
        _first_face: spec_u16_le(s, p + 24) as u16,
        _num_faces: spec_u16_le(s, p + 26) as u16,
    }
}

pub struct NodeLump {
    pub nodes: Vec<Node>,
}

impl NodeLump {
    pub open spec fn spec_error(data: Seq<u8>, info: BspLumpInfo) -> Option<BspError> {
        spec_records_error(data, info, 28)
    }

    pub open spec fn spec_parsed_from(self, data: Seq<u8>, info: BspLumpInfo) -> bool {
        &&& self.nodes@.len() == spec_record_count(info, 28)
        &&& forall|i: int| 0 <= i < self.nodes@.len() ==>
            #[trigger] self.nodes@[i] == spec_node_at(data, info.offset + 28 * i)
    }

    /// Reads `length / 28` nodes.
    pub fn new(data: &[u8], info: &BspLumpInfo) -> (r: Result<NodeLump, BspError>)
        ensures
            r is Err <==> Self::spec_error(data@, *info) is Some,
            r matches Err(e) ==> Self::spec_error(data@, *info) == Some(e),
            r matches Ok(l) ==> l.spec_parsed_from(data@, *info),
    {
        let count = match lump_record_count(data, info, 28) {
            Some(n) => n,
            None => return Err(BspError::UnexpectedEof),
        };
        let mut nodes: Vec<Node> = Vec::new();
        let mut i: u32 = 0;
        while i < count
            invariant
                i <= count,
                count == spec_record_count(*info, 28),
                spec_lump_fits(data@, *info, 28),
                nodes@.len() == i,
                forall|j: int| 0 <= j < i ==> #[trigger] nodes@[j] == spec_node_at(data@, info.offset + 28 * j),
            decreases count - i,
        {
            proof {
                lemma_record_in_bounds(data@.len() as int, info.offset as int, count as int, 28, i as int);
                assert(info.offset + 28 * i + 28 <= data.len());
            }
            let p: usize = info.offset as usize + 28 * (i as usize);
            nodes.push(Node {
                plane: read_u32_le(data, p),
                front_child: read_i32_le(data, p + 4),
                back_child: read_i32_le(data, p + 8),
                _bbox_min: read_vec3s(data, p + 12),
                _bbox_max: read_vec3s(data, p + 18),
                _first_face: read_u16_le(data, p + 24),
                _num_faces: read_u16_le(data, p + 26),
            });
            i = i + 1;
        }
        Ok(NodeLump { nodes })
    }
}


/// A leaf of the BSP tree: its contents, visibility cluster, bounds and
/// the runs of leaf faces and leaf brushes it owns.
#[derive(Debug, Clone, Copy, PartialEq, Eq, Structural)]
pub struct Leaf {
    pub contents: u32,
    pub cluster: u16,
    pub _area: u16,
    pub bbox_min: ShortVector3,
    pub bbox_max: ShortVector3,
    pub first_leaf_face: u16,
    pub num_leaf_faces: u16,
    pub first_leaf_brush: u16,
    pub num_leaf_brushes: u16,
}

pub open spec fn spec_leaf_at(s: Seq<u8>, p: int) -> Leaf {
    Leaf {
        contents: spec_u32_le(s, p) as u32,
        cluster: spec_u16_le(s, p + 4) as u16,
        _area: spec_u16_le(s, p + 6) as u16,
        bbox_min: spec_vec3s_at(s, p + 8),
        bbox_max: spec_vec3s_at(s, p + 14),
        first_leaf_face: spec_u16_le(s, p + 20) as u16,
        num_leaf_faces: spec_u16_le(s, p + 22) as u16,
        first_leaf_brush: spec_u16_le(s, p + 24) as u16,
        num_leaf_brushes: spec_u16_le(s, p + 26) as u16,
    }
}

pub struct LeafLump {
    pub leaves: Vec<Leaf>,
}

impl LeafLump {
    pub open spec fn spec_error(data: Seq<u8>, info: BspLumpInfo) -> Option<BspError> {
        spec_records_error(data, info, 28)
    }

    pub open spec fn spec_parsed_from(self, data: Seq<u8>, info: BspLumpInfo) -> bool {
        &&& self.leaves@.len() == spec_record_count(info, 28)
        &&& forall|i: int| 0 <= i < self.leaves@.len() ==>
            #[trigger] self.leaves@[i] == spec_leaf_at(data, info.offset + 28 * i)
    }

    /// Reads `length / 28` leaves.
    pub fn new(data: &[u8], info: &BspLumpInfo) -> (r: Result<LeafLump, BspError>)
        ensures
            r is Err <==> Self::spec_error(data@, *info) is Some,
            r matches Err(e) ==> Self::spec_error(data@, *info) == Some(e),
            r matches Ok(l) ==> l.spec_parsed_from(data@, *info),
    {
        let count = match lump_record_count(data, info, 28) {
            Some(n) => n,
            None => return Err(BspError::UnexpectedEof),
        };
        let mut leaves: Vec<Leaf> = Vec::new();
        let mut i: u32 = 0;
        while i < count
            invariant
                i <= count,
                count == spec_record_count(*info, 28),
                spec_lump_fits(data@, *info, 28),
                leaves@.len() == i,
                forall|j: int| 0 <= j < i ==> #[trigger] leaves@[j] == spec_leaf_at(data@, info.offset + 28 * j),
            decreases count - i,
        {
            proof {
                lemma_record_in_bounds(data@.len() as int, info.offset as int, count as int, 28, i as int);
                assert(info.offset + 28 * i + 28 <= data.len());
            }
            let p: usize = info.offset as usize + 28 * (i as usize);
            leaves.push(Leaf {
                contents: read_u32_le(data, p),
                cluster: read_u16_le(data, p + 4),
                _area: read_u16_le(data, p + 6),
                bbox_min: read_vec3s(data, p + 8),
                bbox_max: read_vec3s(data, p + 14),
                first_leaf_face: read_u16_le(data, p + 20),
                num_leaf_faces: read_u16_le(data, p + 22),
                first_leaf_brush: read_u16_le(data, p + 24),
                num_leaf_brushes: read_u16_le(data, p + 26),
            });
            i = i + 1;
        }
        Ok(LeafLump { leaves })
    }
}


pub open spec fn spec_u16_at(s: Seq<u8>, p: int) -> u16 {
    spec_u16_le(s, p) as u16
}

pub struct LeafFaceLump {
    pub faces: Vec<u16>,
}

impl LeafFaceLump {
    pub open spec fn spec_error(data: Seq<u8>, info: BspLumpInfo) -> Option<BspError> {
        spec_records_error(data, info, 2)
    }

    pub open spec fn spec_parsed_from(self, data: Seq<u8>, info: BspLumpInfo) -> bool {
        &&& self.faces@.len() == spec_record_count(info, 2)
        &&& forall|i: int| 0 <= i < self.faces@.len() ==>
            #[trigger] self.faces@[i] == spec_u16_at(data, info.offset + 2 * i)
    }

    /// Reads `length / 2` face indices.
    pub fn new(data: &[u8], info: &BspLumpInfo) -> (r: Result<LeafFaceLump, BspError>)
        ensures
            r is Err <==> Self::spec_error(data@, *info) is Some,
            r matches Err(e) ==> Self::spec_error(data@, *info) == Some(e),
            r matches Ok(l) ==> l.spec_parsed_from(data@, *info),
    {
        let count = match lump_record_count(data, info, 2) {
            Some(n) => n,
            None => return Err(BspError::UnexpectedEof),
        };
        let mut faces: Vec<u16> = Vec::new();
        let mut i: u32 = 0;
        while i < count
            invariant
                i <= count,
                count == spec_record_count(*info, 2),
                spec_lump_fits(data@, *info, 2),
                faces@.len() == i,
                forall|j: int| 0 <= j < i ==> #[trigger] faces@[j] == spec_u16_at(data@, info.offset + 2 * j),
            decreases count - i,
        {
            proof {
                lemma_record_in_bounds(data@.len() as int, info.offset as int, count as int, 2, i as int);
                assert(info.offset + 2 * i + 2 <= data.len());
            }
            let p: usize = info.offset as usize + 2 * (i as usize);
            faces.push(read_u16_le(data, p));
            i = i + 1;
        }
        Ok(LeafFaceLump { faces })
    }
}


pub struct LeafBrushLump {
    pub brushes: Vec<u16>,
}

impl LeafBrushLump {
    pub open spec fn spec_error(data: Seq<u8>, info: BspLumpInfo) -> Option<BspError> {
        spec_records_error(data, info, 2)
    }

    pub open spec fn spec_parsed_from(self, data: Seq<u8>, info: BspLumpInfo) -> bool {
        &&& self.brushes@.len() == spec_record_count(info, 2)
        &&& forall|i: int| 0 <= i < self.brushes@.len() ==>
            #[trigger] self.brushes@[i] == spec_u16_at(data, info.offset + 2 * i)
    }

    /// Reads `length / 2` brush indices.
    pub fn new(data: &[u8], info: &BspLumpInfo) -> (r: Result<LeafBrushLump, BspError>)
        ensures
            r is Err <==> Self::spec_error(data@, *info) is Some,
            r matches Err(e) ==> Self::spec_error(data@, *info) == Some(e),
            r matches Ok(l) ==> l.spec_parsed_from(data@, *info),
    {
        let count = match lump_record_count(data, info, 2) {
            Some(n) => n,
            None => return Err(BspError::UnexpectedEof),
        };
        let mut brushes: Vec<u16> = Vec::new();
        let mut i: u32 = 0;
        while i < count
            invariant
                i <= count,
                count == spec_record_count(*info, 2),
                spec_lump_fits(data@, *info, 2),
                brushes@.len() == i,
                forall|j: int| 0 <= j < i ==> #[trigger] brushes@[j] == spec_u16_at(data@, info.offset + 2 * j),
            decreases count - i,
        {
            proof {
                lemma_record_in_bounds(data@.len() as int, info.offset as int, count as int, 2, i as int);
                assert(info.offset + 2 * i + 2 <= data.len());
            }
            let p: usize = info.offset as usize + 2 * (i as usize);
            brushes.push(read_u16_le(data, p));
            i = i + 1;
        }
        Ok(LeafBrushLump { brushes })
    }
}


/// A lightmap channel doubled and clamped to 255.
pub open spec fn spec_double_channel(v: u8) -> u8 {
    if 2 * v > 255 { 255 } else { (2 * v) as u8 }
}

pub open spec fn spec_lightmap_texel_at(s: Seq<u8>, p: int) -> Color32 {
    Color32 {
        r: spec_double_channel(s[p]),
        g: spec_double_channel(s[p + 1]),
        b: spec_double_channel(s[p + 2]),
        a: 255,
    }
}

fn double_channel(v: u8) -> (r: u8)
    ensures
        r == spec_double_channel(v),
{
    let d: u16 = 2 * (v as u16);
    if d > 255 { 255 } else { d as u8 }
}

pub struct LightmapLump {
    pub lm: Vec<Color32>,
}

impl LightmapLump {
    pub open spec fn spec_error(data: Seq<u8>, info: BspLumpInfo) -> Option<BspError> {
        spec_records_error(data, info, 3)
    }

    pub open spec fn spec_parsed_from(self, data: Seq<u8>, info: BspLumpInfo) -> bool {
        &&& self.lm@.len() == spec_record_count(info, 3)
        &&& forall|i: int| 0 <= i < self.lm@.len() ==>
            #[trigger] self.lm@[i] == spec_lightmap_texel_at(data, info.offset + 3 * i)
    }

    /// Reads `length / 3` RGB texels, doubling each channel and clamping it to 255.
    pub fn new(data: &[u8], info: &BspLumpInfo) -> (r: Result<LightmapLump, BspError>)
        ensures
            r is Err <==> Self::spec_error(data@, *info) is Some,
            r matches Err(e) ==> Self::spec_error(data@, *info) == Some(e),
            r matches Ok(l) ==> l.spec_parsed_from(data@, *info),
    {
        let count = match lump_record_count(data, info, 3) {
            Some(n) => n,
            None => return Err(BspError::UnexpectedEof),
        };
        let mut lm: Vec<Color32> = Vec::new();
        let mut i: u32 = 0;
        while i < count
            invariant
                i <= count,
                count == spec_record_count(*info, 3),
                spec_lump_fits(data@, *info, 3),
                lm@.len() == i,
                forall|j: int| 0 <= j < i ==> #[trigger] lm@[j] == spec_lightmap_texel_at(data@, info.offset + 3 * j),
            decreases count - i,
        {
            proof {
                lemma_record_in_bounds(data@.len() as int, info.offset as int, count as int, 3, i as int);
                assert(info.offset + 3 * i + 3 <= data.len());
            }
            let p: usize = info.offset as usize + 3 * (i as usize);
            let c = read_color24(data, p);
            lm.push(Color32::new(double_channel(c.r), double_channel(c.g), double_channel(c.b), c.a));
            i = i + 1;
        }
        Ok(LightmapLump { lm })
    }
}

/// Lightmap texels are stored twice as bright as the lump holds them: each
/// colour channel of texel `i` is twice the lump's byte, or 255 where twice
/// the byte does not fit (bytes from 128 on); alpha is opaque.
pub proof fn law_lightmap_channels_doubled(l: LightmapLump, data: Seq<u8>, info: BspLumpInfo, i: int)
    requires
        l.spec_parsed_from(data, info),
        0 <= i < l.lm@.len(),
    ensures
        ({
            let p = info.offset + 3 * i;
            &&& l.lm@[i].r as int == (if data[p] < 128 { 2 * data[p] as int } else { 255 })
            &&& l.lm@[i].g as int == (if data[p + 1] < 128 { 2 * data[p + 1] as int } else { 255 })
            &&& l.lm@[i].b as int == (if data[p + 2] < 128 { 2 * data[p + 2] as int } else { 255 })
            &&& l.lm@[i].a == 255
        }),
{
    let p = info.offset + 3 * i;
    assert(l.lm@[i] == spec_lightmap_texel_at(data, p));
}


/// A convex brush: a run of brush sides and its contents flags.
#[derive(Debug, Clone, Copy, PartialEq, Eq, Structural)]
pub struct Brush {
    pub first_brush_side: u32,
    pub num_brush_sides: u32,
    pub contents: u32,
}

pub open spec fn spec_brush_at(s: Seq<u8>, p: int) -> Brush {
    Brush {
        first_brush_side: spec_u32_le(s, p) as u32,
        num_brush_sides: spec_u32_le(s, p + 4) as u32,
        contents: spec_u32_le(s, p + 8) as u32,
    }
}

pub struct BrushLump {
    pub brushes: Vec<Brush>,
}

impl BrushLump {
    pub open spec fn spec_error(data: Seq<u8>, info: BspLumpInfo) -> Option<BspError> {
        spec_records_error(data, info, 12)
    }

    pub open spec fn spec_parsed_from(self, data: Seq<u8>, info: BspLumpInfo) -> bool {
        &&& self.brushes@.len() == spec_record_count(info, 12)
        &&& forall|i: int| 0 <= i < self.brushes@.len() ==>
            #[trigger] self.brushes@[i] == spec_brush_at(data, info.offset + 12 * i)
    }

    /// Reads `length / 12` brushes.
    pub fn new(data: &[u8], info: &BspLumpInfo) -> (r: Result<BrushLump, BspError>)
        ensures
            r is Err <==> Self::spec_error(data@, *info) is Some,
            r matches Err(e) ==> Self::spec_error(data@, *info) == Some(e),
            r matches Ok(l) ==> l.spec_parsed_from(data@, *info),
    {
        let count = match lump_record_count(data, info, 12) {
            Some(n) => n,
            None => return Err(BspError::UnexpectedEof),
        };
        let mut brushes: Vec<Brush> = Vec::new();
        let mut i: u32 = 0;
        while i < count
            invariant
                i <= count,
                count == spec_record_count(*info, 12),
                spec_lump_fits(data@, *info, 12),
                brushes@.len() == i,
                forall|j: int| 0 <= j < i ==> #[trigger] brushes@[j] == spec_brush_at(data@, info.offset + 12 * j),
            decreases count - i,
        {
            proof {
                lemma_record_in_bounds(data@.len() as int, info.offset as int, count as int, 12, i as int);
                assert(info.offset + 12 * i + 12 <= data.len());
            }
            let p: usize = info.offset as usize + 12 * (i as usize);
            brushes.push(Brush {
                first_brush_side: read_u32_le(data, p),
                num_brush_sides: read_u32_le(data, p + 4),
                contents: read_u32_le(data, p + 8),
            });
            i = i + 1;
        }
        Ok(BrushLump { brushes })
    }
}


/// One side of a brush: its plane index.
#[derive(Debug, Clone, Copy, PartialEq, Eq, Structural)]
pub struct BrushSide {
    pub plane: u16,
    pub _tex: u16,
}

pub open spec fn spec_brush_side_at(s: Seq<u8>, p: int) -> BrushSide {
    BrushSide { plane: spec_u16_le(s, p) as u16, _tex: spec_u16_le(s, p + 2) as u16 }
}

pub struct BrushSideLump {
    pub brush_sides: Vec<BrushSide>,
}

impl BrushSideLump {
    pub open spec fn spec_error(data: Seq<u8>, info: BspLumpInfo) -> Option<BspError> {
        spec_records_error(data, info, 4)
    }

    pub open spec fn spec_parsed_from(self, data: Seq<u8>, info: BspLumpInfo) -> bool {
        &&& self.brush_sides@.len() == spec_record_count(info, 4)
        &&& forall|i: int| 0 <= i < self.brush_sides@.len() ==>
            #[trigger] self.brush_sides@[i] == spec_brush_side_at(data, info.offset + 4 * i)
    }

    /// Reads `length / 4` brush sides.
    pub fn new(data: &[u8], info: &BspLumpInfo) -> (r: Result<BrushSideLump, BspError>)
        ensures
            r is Err <==> Self::spec_error(data@, *info) is Some,
            r matches Err(e) ==> Self::spec_error(data@, *info) == Some(e),
            r matches Ok(l) ==> l.spec_parsed_from(data@, *info),
    {
        let count = match lump_record_count(data, info, 4) {
            Some(n) => n,
            None => return Err(BspError::UnexpectedEof),
        };
        let mut brush_sides: Vec<BrushSide> = Vec::new();
        let mut i: u32 = 0;
        while i < count
            invariant
                i <= count,
                count == spec_record_count(*info, 4),
                spec_lump_fits(data@, *info, 4),
                brush_sides@.len() == i,
                forall|j: int| 0 <= j < i ==> #[trigger] brush_sides@[j] == spec_brush_side_at(data@, info.offset + 4 * j),
            decreases count - i,
        {
            proof {
                lemma_record_in_bounds(data@.len() as int, info.offset as int, count as int, 4, i as int);
                assert(info.offset + 4 * i + 4 <= data.len());
            }
            let p: usize = info.offset as usize + 4 * (i as usize);
            brush_sides.push(BrushSide { plane: read_u16_le(data, p), _tex: read_u16_le(data, p + 2) });
            i = i + 1;
        }
        Ok(BrushSideLump { brush_sides })
    }
}


/// A submodel (door, platform, ...): bounds, origin and its run of faces.
#[derive(Debug, Clone, Copy, PartialEq, Eq, Structural)]
pub struct SubModel {
    pub mins: RawVector3,
    pub maxs: RawVector3,
    pub origin: RawVector3,
    pub headnode: u32,
    pub first_face: u32,
    pub num_faces: u32,
}

pub open spec fn spec_submodel_at(s: Seq<u8>, p: int) -> SubModel {
    SubModel {
        mins: spec_vec3f_at(s, p),
        maxs: spec_vec3f_at(s, p + 12),
        origin: spec_vec3f_at(s, p + 24),
        headnode: spec_u32_le(s, p + 36) as u32,
        first_face: spec_u32_le(s, p + 40) as u32,
        num_faces: spec_u32_le(s, p + 44) as u32,
    }
}

pub struct SubModelLump {
    pub submodels: Vec<SubModel>,
}

impl SubModelLump {
    pub open spec fn spec_error(data: Seq<u8>, info: BspLumpInfo) -> Option<BspError> {
        spec_records_error(data, info, 48)
    }

    pub open spec fn spec_parsed_from(self, data: Seq<u8>, info: BspLumpInfo) -> bool {
        &&& self.submodels@.len() == spec_record_count(info, 48)
        &&& forall|i: int| 0 <= i < self.submodels@.len() ==>
            #[trigger] self.submodels@[i] == spec_submodel_at(data, info.offset + 48 * i)
    }

    /// Reads `length / 48` submodels.
    pub fn new(data: &[u8], info: &BspLumpInfo) -> (r: Result<SubModelLump, BspError>)
        ensures
            r is Err <==> Self::spec_error(data@, *info) is Some,
            r matches Err(e) ==> Self::spec_error(data@, *info) == Some(e),
            r matches Ok(l) ==> l.spec_parsed_from(data@, *info),
    {
        let count = match lump_record_count(data, info, 48) {
            Some(n) => n,
            None => return Err(BspError::UnexpectedEof),
        };
        let mut submodels: Vec<SubModel> = Vec::new();
        let mut i: u32 = 0;
        while i < count
            invariant
                i <= count,
                count == spec_record_count(*info, 48),
                spec_lump_fits(data@, *info, 48),
                submodels@.len() == i,
                forall|j: int| 0 <= j < i ==> #[trigger] submodels@[j] == spec_submodel_at(data@, info.offset + 48 * j),
            decreases count - i,
        {
            proof {
                lemma_record_in_bounds(data@.len() as int, info.offset as int, count as int, 48, i as int);
                assert(info.offset + 48 * i + 48 <= data.len());
            }
            let p: usize = info.offset as usize + 48 * (i as usize);
            submodels.push(SubModel {
                mins: read_vec3f(data, p),
                maxs: read_vec3f(data, p + 12),
                origin: read_vec3f(data, p + 24),
                headnode: read_u32_le(data, p + 36),
                first_face: read_u32_le(data, p + 40),
                num_faces: read_u32_le(data, p + 44),
            });
            i = i + 1;
        }
        Ok(SubModelLump { submodels })
    }
}

/// A texture mapping: the texture axes and offsets (as float bits), surface
/// flags and the texture's name.
pub struct TexInfo {
    pub u_axis: RawVector3,
    pub u_offset: u32,
    pub v_axis: RawVector3,
    pub v_offset: u32,
    pub flags: u32,
    pub _value: u32,
    pub texture_name: String,
    pub _next_texinfo: u32,
}

/// The name bytes stored in the `n`-byte field at `p`: up to its first NUL.
pub open spec fn spec_name_at(s: Seq<u8>, p: int, n: int) -> Seq<u8> {
    spec_cstr(s.subrange(p, p + n))
}

pub open spec fn spec_texinfo_matches(t: TexInfo, s: Seq<u8>, p: int) -> bool {
    &&& t.u_axis == spec_vec3f_at(s, p)
    &&& t.u_offset == spec_u32_le(s, p + 12)
    &&& t.v_axis == spec_vec3f_at(s, p + 16)
    &&& t.v_offset == spec_u32_le(s, p + 28)
    &&& t.flags == spec_u32_le(s, p + 32)
    &&& t._value == spec_u32_le(s, p + 36)
    &&& encode_utf8(t.texture_name@) == spec_name_at(s, p + 40, 32)
    &&& t._next_texinfo == spec_u32_le(s, p + 72)
}

pub struct TexInfoLump {
    pub textures: Vec<TexInfo>,
}

impl TexInfoLump {
    pub open spec fn spec_error(data: Seq<u8>, info: BspLumpInfo) -> Option<BspError> {
        if !spec_lump_fits(data, info, 76) {
            Some(BspError::UnexpectedEof)
        } else if exists|i: int| 0 <= i < spec_record_count(info, 76)
            && !valid_utf8(#[trigger] spec_name_at(data, info.offset + 76 * i + 40, 32)) {
            Some(BspError::InvalidName)
        } else {
            None
        }
    }

    pub open spec fn spec_parsed_from(self, data: Seq<u8>, info: BspLumpInfo) -> bool {
        &&& self.textures@.len() == spec_record_count(info, 76)
        &&& forall|i: int| 0 <= i < self.textures@.len() ==>
            spec_texinfo_matches(#[trigger] self.textures@[i], data, info.offset + 76 * i)
    }

    /// Reads `length / 76` texture mappings. A texture name that is not valid
    /// UTF-8 is refused.
    pub fn new(data: &[u8], info: &BspLumpInfo) -> (r: Result<TexInfoLump, BspError>)
        ensures
            r is Err <==> Self::spec_error(data@, *info) is Some,
            r matches Err(e) ==> Self::spec_error(data@, *info) == Some(e),
            r matches Ok(l) ==> l.spec_parsed_from(data@, *info),
    {
        let count = match lump_record_count(data, info, 76) {
            Some(n) => n,
            None => return Err(BspError::UnexpectedEof),
        };
        let mut textures: Vec<TexInfo> = Vec::new();
        let mut i: u32 = 0;
        while i < count
            invariant
                i <= count,
                count == spec_record_count(*info, 76),
                spec_lump_fits(data@, *info, 76),
                textures@.len() == i,
                forall|j: int| 0 <= j < i ==>
                    spec_texinfo_matches(#[trigger] textures@[j], data@, info.offset + 76 * j),
                forall|j: int| 0 <= j < i ==>
                    valid_utf8(#[trigger] spec_name_at(data@, info.offset + 76 * j + 40, 32)),
            decreases count - i,
        {
            proof {
                lemma_record_in_bounds(data@.len() as int, info.offset as int, count as int, 76, i as int);
                assert(info.offset + 76 * i + 76 <= data.len());
            }
            let p: usize = info.offset as usize + 76 * (i as usize);
            let texture_name = match read_cstr(data, p + 40, 32) {
                Some(name) => name,
                None => {
                    assert(!valid_utf8(spec_name_at(data@, info.offset + 76 * i + 40, 32)));
                    return Err(BspError::InvalidName);
                },
            };
            textures.push(TexInfo {
                u_axis: read_vec3f(data, p),
                u_offset: read_u32_le(data, p + 12),
                v_axis: read_vec3f(data, p + 16),
                v_offset: read_u32_le(data, p + 28),
                flags: read_u32_le(data, p + 32),
                _value: read_u32_le(data, p + 36),
                texture_name,
                _next_texinfo: read_u32_le(data, p + 72),
            });
            i = i + 1;
        }
        Ok(TexInfoLump { textures })
    }
}

/// The entity definitions of the map, as text.
pub struct EntityLump {
    pub entities: String,
}

impl EntityLump {
    pub open spec fn spec_error(data: Seq<u8>, info: BspLumpInfo) -> Option<BspError> {
        if info.offset + info.length > data.len() {
            Some(BspError::UnexpectedEof)
        } else if !valid_utf8(spec_name_at(data, info.offset as int, info.length as int)) {
            Some(BspError::InvalidName)
        } else {
            None
        }
    }

    pub open spec fn spec_parsed_from(self, data: Seq<u8>, info: BspLumpInfo) -> bool {
        encode_utf8(self.entities@) == spec_name_at(data, info.offset as int, info.length as int)
    }

    /// Reads the lump's text up to its first NUL (or its end).
    pub fn new(data: &[u8], info: &BspLumpInfo) -> (r: Result<EntityLump, BspError>)
        ensures
            r is Err <==> Self::spec_error(data@, *info) is Some,
            r matches Err(e) ==> Self::spec_error(data@, *info) == Some(e),
            r matches Ok(l) ==> l.spec_parsed_from(data@, *info),
    {
        if info.offset as u64 + info.length as u64 > data.len() as u64 {
            return Err(BspError::UnexpectedEof);
        }
        match read_cstr(data, info.offset as usize, info.length as usize) {
            Some(entities) => Ok(EntityLump { entities }),
            None => Err(BspError::InvalidName),
        }
    }
}

/// Where the visibility bits of one cluster start in the vis buffer.
#[derive(Debug, Clone, Copy, PartialEq, Eq, Structural)]
pub struct VisCluster {
    pub vis_offset: usize,
}

/// The potentially visible sets of all clusters, run-length encoded.
pub struct VisLump {
    pub clusters: Vec<VisCluster>,
    pub vis_buffer: Vec<u8>,
}

/// Size of the vis lump header holding `n` clusters.
pub open spec fn spec_vis_header_size(n: int) -> int {
    4 + 8 * n
}

impl VisLump {
    pub open spec fn spec_num_clusters(data: Seq<u8>, info: BspLumpInfo) -> int {
        spec_u32_le(data, info.offset as int)
    }

    pub open spec fn spec_pvs_offset(data: Seq<u8>, info: BspLumpInfo, i: int) -> int {
        spec_u32_le(data, info.offset + 4 + 8 * i)
    }

    pub open spec fn spec_error(data: Seq<u8>, info: BspLumpInfo) -> Option<BspError> {
        let p = info.offset as int;
        let n = Self::spec_num_clusters(data, info);
        let hdr = spec_vis_header_size(n);
        if p + 4 > data.len() || p + hdr > data.len() {
            Some(BspError::UnexpectedEof)
        } else if hdr > info.length || exists|i: int| 0 <= i < n
            && #[trigger] Self::spec_pvs_offset(data, info, i) < hdr {
            Some(BspError::InvalidLayout)
        } else if p + info.length > data.len() {
            Some(BspError::UnexpectedEof)
        } else {
            None
        }
    }

    pub open spec fn spec_parsed_from(self, data: Seq<u8>, info: BspLumpInfo) -> bool {
        let n = Self::spec_num_clusters(data, info);
        let hdr = spec_vis_header_size(n);
        &&& self.clusters@.len() == n
        &&& forall|i: int| 0 <= i < n ==>
            #[trigger] self.clusters@[i].vis_offset == Self::spec_pvs_offset(data, info, i) - hdr
        &&& self.vis_buffer@ == data.subrange(info.offset + hdr, info.offset + info.length)
    }

    /// Reads the cluster table (converting each cluster's offset to one into
    /// the buffer that follows the table) and the run-length encoded buffer.
    pub fn new(data: &[u8], info: &BspLumpInfo) -> (r: Result<VisLump, BspError>)
        ensures
            r is Err <==> Self::spec_error(data@, *info) is Some,
            r matches Err(e) ==> Self::spec_error(data@, *info) == Some(e),
            r matches Ok(l) ==> l.spec_parsed_from(data@, *info),
    {
        let p = info.offset as usize;
        if info.offset as u64 + 4 > data.len() as u64 {
            return Err(BspError::UnexpectedEof);
        }
        let num_clusters = read_u32_le(data, p);
        let hdr_size: u64 = 4 + 8 * (num_clusters as u64);
        if p as u64 + hdr_size > data.len() as u64 {
            return Err(BspError::UnexpectedEof);
        }
        if hdr_size > info.length as u64 {
            return Err(BspError::InvalidLayout);
        }
        let hdr = hdr_size as usize;
        let mut clusters: Vec<VisCluster> = Vec::new();
        let mut i: u32 = 0;
        while i < num_clusters
            invariant
                i <= num_clusters,
                p == info.offset,
                num_clusters == Self::spec_num_clusters(data@, *info),
                hdr == spec_vis_header_size(num_clusters as int),
                hdr <= info.length,
                p + hdr <= data.len(),
                clusters@.len() == i,
                forall|j: int| 0 <= j < i ==>
                    #[trigger] clusters@[j].vis_offset == Self::spec_pvs_offset(data@, *info, j) - hdr,
                forall|j: int| 0 <= j < i ==> #[trigger] Self::spec_pvs_offset(data@, *info, j) >= hdr,
            decreases num_clusters - i,
        {
            let pvs = read_u32_le(data, p + 4 + 8 * (i as usize));
            if (pvs as usize) < hdr {
                assert(Self::spec_pvs_offset(data@, *info, i as int) < hdr);
                return Err(BspError::InvalidLayout);
            }
            clusters.push(VisCluster { vis_offset: pvs as usize - hdr });
            i = i + 1;
        }
        if info.offset as u64 + info.length as u64 > data.len() as u64 {
            return Err(BspError::UnexpectedEof);
        }
        let end = p + info.length as usize;
        let mut vis_buffer: Vec<u8> = Vec::new();
        let mut k: usize = p + hdr;
        while k < end
            invariant
                p + hdr <= k <= end,
                end <= data.len(),
                vis_buffer@ == data@.subrange(p + hdr, k as int),
            decreases end - k,
        {
            vis_buffer.push(data[k]);
            k = k + 1;
            assert(vis_buffer@ =~= data@.subrange(p + hdr, k as int));
        }
        Ok(VisLump { clusters, vis_buffer })
    }
}

/// Whether bit `b` of `x` is set.
pub open spec fn spec_bit_set(x: u8, b: u8) -> bool {
    x & (1u8 << b) != 0
}

/// The clusters marked by the 8 bits of `x` when it encodes clusters `c .. c + 8`.
pub open spec fn spec_byte_marks(x: u8, c: int) -> Set<int> {
    Set::new(|i: int| c <= i < c + 8 && spec_bit_set(x, (i - c) as u8))
}

/// Whether run-length decoding from buffer position `v`, at cluster `c`, of a
/// set over `n` clusters reads only inside `buf` and marks only clusters
/// below `m`. A zero byte skips `8 * next byte` clusters; any other byte
/// gives the visibility of the next 8 clusters, one bit each.
pub open spec fn spec_vis_decodes(buf: Seq<u8>, v: int, c: int, n: int, m: int) -> bool
    decreases buf.len() - v,
{
    if c >= n {
        true
    } else if v < 0 || v >= buf.len() {
        false
    } else if buf[v] == 0 {
        v + 1 < buf.len() && spec_vis_decodes(buf, v + 2, c + 8 * buf[v + 1], n, m)
    } else {
        (forall|i: int| #[trigger] spec_byte_marks(buf[v], c).contains(i) ==> i < m)
            && spec_vis_decodes(buf, v + 1, c + 8, n, m)
    }
}

/// The clusters that run-length decoding from buffer position `v`, at
/// cluster `c`, marks visible (for a set over `n` clusters).
pub open spec fn spec_vis_marks(buf: Seq<u8>, v: int, c: int, n: int) -> Set<int>
    decreases buf.len() - v,
{
    if c >= n || v < 0 || v >= buf.len() {
        Set::empty()
    } else if buf[v] == 0 {
        if v + 1 < buf.len() {
            spec_vis_marks(buf, v + 2, c + 8 * buf[v + 1], n)
        } else {
            Set::empty()
        }
    } else {
        spec_byte_marks(buf[v], c).union(spec_vis_marks(buf, v + 1, c + 8, n))
    }
}

impl VisLump {
    /// The clusters visible from cluster `cluster_index`.
    pub open spec fn spec_visible_from(self, cluster_index: int) -> Set<int> {
        spec_vis_marks(self.vis_buffer@, self.clusters@[cluster_index].vis_offset as int, 0,
            self.clusters@.len() as int)
    }

    /// Whether the visibility data of cluster `cluster_index` decodes inside
    /// the buffer and marks only entries below `m`.
    pub open spec fn spec_unpacks_into(self, cluster_index: int, m: int) -> bool {
        spec_vis_decodes(self.vis_buffer@, self.clusters@[cluster_index].vis_offset as int, 0,
            self.clusters@.len() as int, m)
    }

    /// Unpacks the visibility information of one cluster: every cluster
    /// visible from it is set to `true` in `vis_info`; other entries keep
    /// their value.
    pub fn unpack_vis(&self, cluster_index: usize, vis_info: &mut [bool])
        requires
            cluster_index < self.clusters@.len(),
            self.clusters@.len() + 2048 <= usize::MAX,
            self.spec_unpacks_into(cluster_index as int, old(vis_info)@.len() as int),
        ensures
            final(vis_info)@.len() == old(vis_info)@.len(),
            forall|i: int| 0 <= i < old(vis_info)@.len() ==>
                #[trigger] final(vis_info)@[i] == (old(vis_info)@[i] || self.spec_visible_from(cluster_index as int).contains(i)),
    {
        let ghost buf = self.vis_buffer@;
        let ghost n = self.clusters@.len() as int;
        let ghost m = vis_info@.len() as int;
        let ghost start = self.clusters@[cluster_index as int].vis_offset as int;
        let ghost old_vis = vis_info@;
        let ghost mut done: Set<int> = Set::empty();
        let mut v = self.clusters[cluster_index].vis_offset;
        let mut c: usize = 0;
        assert(spec_vis_marks(buf, start, 0, n) =~= done.union(spec_vis_marks(buf, v as int, c as int, n)));
        while c < self.clusters.len()
            invariant
                buf == self.vis_buffer@,
                n == self.clusters@.len(),
                n + 2048 <= usize::MAX,
                m == vis_info@.len(),
                old_vis.len() == m,
                spec_vis_decodes(buf, v as int, c as int, n, m),
                spec_vis_marks(buf, start, 0, n) == done.union(spec_vis_marks(buf, v as int, c as int, n)),
                forall|i: int| 0 <= i < m ==> #[trigger] vis_info@[i] == (old_vis[i] || done.contains(i)),
            decreases buf.len() - v,
        {
            assert(v < self.vis_buffer.len());
            let x = self.vis_buffer[v];
            if x == 0 {
                v = v + 1;
                c = c + 8 * (self.vis_buffer[v] as usize);
            } else {
                let ghost c0 = c as int;
                let ghost done0 = done;
                let mut bit: u8 = 0;
                while bit < 8
                    invariant
                        bit <= 8,
                        c == c0 + bit,
                        c0 < n,
                        n + 2048 <= usize::MAX,
                        m == vis_info@.len(),
                        old_vis.len() == m,
                        done0 == done,
                        x != 0,
                        forall|i: int| #[trigger] spec_byte_marks(x, c0).contains(i) ==> i < m,
                        forall|i: int| 0 <= i < m ==> #[trigger] vis_info@[i] == (old_vis[i] || done.contains(i)
                            || (c0 <= i < c0 + bit && spec_bit_set(x, (i - c0) as u8))),
                    decreases 8 - bit,
                {
                    let mask: u8 = 1u8 << bit;
                    if x & mask != 0 {
                        assert(spec_byte_marks(x, c0).contains(c as int));
                        vis_info[c] = true;
                    }
                    c = c + 1;
                    bit = bit + 1;
                }
                proof {
                    done = done.union(spec_byte_marks(x, c0));
                    assert forall|i: int| 0 <= i < m implies #[trigger] vis_info@[i] == (old_vis[i] || done.contains(i)) by {
                        if c0 <= i < c0 + 8 {
                            assert(spec_byte_marks(x, c0).contains(i) == spec_bit_set(x, (i - c0) as u8));
                        }
                    }
                    assert(spec_vis_marks(buf, v as int, c0, n) == spec_byte_marks(x, c0).union(spec_vis_marks(buf, v + 1, c0 + 8, n)));
                    assert(spec_vis_marks(buf, start, 0, n) =~= done.union(spec_vis_marks(buf, v + 1, c as int, n)));
                }
            }
            v = v + 1;
        }
        proof {
            assert(spec_vis_marks(buf, v as int, c as int, n) =~= Set::<int>::empty());
        }
    }
}

/// Bit `j` of byte `x` (the one worth `2^j`) is set.
proof fn lemma_bit_set_is_shift(x: u8, j: u8)
    requires
        j < 8,
    ensures
        spec_bit_set(x, j) == ((x >> j) % 2 == 1),
{
    assert(j < 8 ==> ((x & (1u8 << j) != 0) == ((x >> j) % 2 == 1))) by (bit_vector);
}

/// Run-length coding of a cluster's visibility row: a non-zero byte gives
/// 8 clusters, one per bit (bit `j`, worth `2^j`, for the `j`-th), and a zero
/// byte followed by a count `k` skips `8 * k` clusters. So a row that reads
/// `b0, 0, k, b1` (`b0`, `b1` not zero) over `16 + 8 * k` clusters marks
/// exactly the set bits of `b0` at clusters `0 .. 8` and those of `b1` at
/// clusters `8 + 8k .. 16 + 8k`, and decodes within the buffer and below the
/// cluster count whatever follows it.
pub proof fn law_vis_zero_run_skips_eight_clusters_per_count(vis: VisLump, cluster: int, i: int)
    requires
        0 <= cluster < vis.clusters@.len(),
        0 <= vis.clusters@[cluster].vis_offset,
        vis.clusters@[cluster].vis_offset + 3 < vis.vis_buffer@.len(),
        vis.vis_buffer@[vis.clusters@[cluster].vis_offset as int] != 0,
        vis.vis_buffer@[vis.clusters@[cluster].vis_offset + 1] == 0,
        vis.vis_buffer@[vis.clusters@[cluster].vis_offset + 3] != 0,
        vis.clusters@.len() == 16 + 8 * vis.vis_buffer@[vis.clusters@[cluster].vis_offset + 2],
    ensures
        ({
            let o = vis.clusters@[cluster].vis_offset as int;
            let b0 = vis.vis_buffer@[o];
            let k = vis.vis_buffer@[o + 2] as int;
            let b1 = vis.vis_buffer@[o + 3];
            &&& vis.spec_visible_from(cluster).contains(i) <==> (
                (0 <= i < 8 && (b0 >> (i as u8)) % 2 == 1)
                || (8 + 8 * k <= i < 16 + 8 * k && (b1 >> ((i - 8 - 8 * k) as u8)) % 2 == 1))
            &&& vis.spec_unpacks_into(cluster, vis.clusters@.len() as int)
        }),
{
    let buf = vis.vis_buffer@;
    let o = vis.clusters@[cluster].vis_offset as int;
    let n = vis.clusters@.len() as int;
    let b0 = buf[o];
    let k = buf[o + 2] as int;
    let b1 = buf[o + 3];
    assert(spec_vis_marks(buf, o + 4, 16 + 8 * k, n) == Set::<int>::empty());
    assert(spec_vis_marks(buf, o + 3, 8 + 8 * k, n)
        == spec_byte_marks(b1, 8 + 8 * k).union(spec_vis_marks(buf, o + 4, 16 + 8 * k, n)));
    assert(spec_vis_marks(buf, o + 1, 8, n) == spec_vis_marks(buf, o + 3, 8 + 8 * k, n));
    assert(spec_vis_marks(buf, o, 0, n) == spec_byte_marks(b0, 0).union(spec_vis_marks(buf, o + 1, 8, n)));
    if 0 <= i < 8 {
        lemma_bit_set_is_shift(b0, i as u8);
    }
    if 8 + 8 * k <= i < 16 + 8 * k {
        lemma_bit_set_is_shift(b1, (i - (8 + 8 * k)) as u8);
        assert((i - 8 - 8 * k) as u8 == (i - (8 + 8 * k)) as u8);
    }
    assert(spec_vis_decodes(buf, o + 4, 16 + 8 * k, n, n));
    assert forall|j: int| #[trigger] spec_byte_marks(b1, 8 + 8 * k).contains(j) implies j < n by {}
    assert(spec_vis_decodes(buf, o + 3, 8 + 8 * k, n, n));
    assert(spec_vis_decodes(buf, o + 1, 8, n, n));
    assert forall|j: int| #[trigger] spec_byte_marks(b0, 0).contains(j) implies j < n by {}
    assert(spec_vis_decodes(buf, o, 0, n, n));
}

/// Whether the lump starts with a record count and all counted records of
/// `rec` bytes follow it inside the data.
pub open spec fn spec_counted_fits(data: Seq<u8>, info: BspLumpInfo, rec: int) -> bool {
    &&& info.offset + 4 <= data.len()
    &&& spec_records_fit(data.len() as int, info.offset + 4, spec_u32_le(data, info.offset as int), rec)
}

/// Reads the record count of a counted lump and checks that the records fit.
fn counted_record_count(data: &[u8], info: &BspLumpInfo, rec: u32) -> (r: Option<u32>)
    ensures
        r is Some <==> spec_counted_fits(data@, *info, rec as int),
        r matches Some(n) ==> n == spec_u32_le(data@, info.offset as int),
{
    if info.offset as u64 + 4 > data.len() as u64 {
        return None;
    }
    let count = read_u32_le(data, info.offset as usize);
    assert(count as int * rec as int <= 0xffff_ffff * 0xffff_ffff) by (nonlinear_arith)
        requires count <= 0xffff_ffff, rec <= 0xffff_ffff;
    let end: u64 = info.offset as u64 + 4 + (count as u64) * (rec as u64);
    if end <= data.len() as u64 {
        Some(count)
    } else {
        None
    }
}

/// How the indices of a static prop are assembled into triangles.
#[derive(Debug, Clone, Copy, PartialEq, Eq, Structural)]
pub enum PropTopology {
    Triangles,
    TriangleStrip,
}

/// A static prop mesh: its material and ranges of indices and vertices.
#[derive(Debug, Clone, Copy, PartialEq, Eq, Structural)]
pub struct StaticProp {
    pub material: u32,
    pub topology: PropTopology,
    pub first_index: u32,
    pub num_indices: u32,
    pub first_vertex: u32,
    pub num_vertices: u32,
}

/// The topology named by a mode number: 0 and 1 are the only ones defined.
pub open spec fn spec_topology(mode: int) -> Option<PropTopology> {
    if mode == 0 {
        Some(PropTopology::Triangles)
    } else if mode == 1 {
        Some(PropTopology::TriangleStrip)
    } else {
        None
    }
}

pub open spec fn spec_static_prop_mode(s: Seq<u8>, info: BspLumpInfo, i: int) -> int {
    spec_u32_le(s, info.offset + 4 + 24 * i + 4)
}

pub open spec fn spec_static_prop_at(s: Seq<u8>, p: int, topology: PropTopology) -> StaticProp {
    StaticProp {
        material: spec_u32_le(s, p) as u32,
        topology,
        first_index: spec_u32_le(s, p + 8) as u32,
        num_indices: spec_u32_le(s, p + 12) as u32,
        first_vertex: spec_u32_le(s, p + 16) as u32,
        num_vertices: spec_u32_le(s, p + 20) as u32,
    }
}

/// Record `i` of a counted lump lies inside the data.
proof fn lemma_counted_record_in_bounds(data: Seq<u8>, info: BspLumpInfo, rec: int, i: int)
    requires
        spec_counted_fits(data, info, rec),
        0 <= i < spec_u32_le(data, info.offset as int),
        rec >= 0,
    ensures
        info.offset + 4 + i * rec + rec <= data.len(),
        0 <= i * rec,
{
    lemma_record_in_bounds(data.len() as int, info.offset + 4, spec_u32_le(data, info.offset as int), rec, i);
}

pub struct StaticPropLump {
    pub props: Vec<StaticProp>,
}

impl StaticPropLump {
    pub open spec fn spec_error(data: Seq<u8>, info: BspLumpInfo) -> Option<BspError> {
        if !spec_counted_fits(data, info, 24) {
            Some(BspError::UnexpectedEof)
        } else if exists|i: int| 0 <= i < spec_u32_le(data, info.offset as int)
            && (#[trigger] spec_topology(spec_static_prop_mode(data, info, i))) is None {
            Some(BspError::InvalidTopology)
        } else {
            None
        }
    }

    pub open spec fn spec_parsed_from(self, data: Seq<u8>, info: BspLumpInfo) -> bool {
        &&& self.props@.len() == spec_u32_le(data, info.offset as int)
        &&& forall|i: int| 0 <= i < self.props@.len() ==>
            #[trigger] self.props@[i] == spec_static_prop_at(data, info.offset + 4 + 24 * i,
                spec_topology(spec_static_prop_mode(data, info, i))->0)
    }

    /// Reads the counted static prop records; a mode other than 0 (triangles)
    /// or 1 (triangle strip) is refused.
    pub fn new(data: &[u8], info: &BspLumpInfo) -> (r: Result<StaticPropLump, BspError>)
        ensures
            r is Err <==> Self::spec_error(data@, *info) is Some,
            r matches Err(e) ==> Self::spec_error(data@, *info) == Some(e),
            r matches Ok(l) ==> l.spec_parsed_from(data@, *info),
    {
        let count = match counted_record_count(data, info, 24) {
            Some(n) => n,
            None => return Err(BspError::UnexpectedEof),
        };
        let mut props: Vec<StaticProp> = Vec::new();
        let mut i: u32 = 0;
        while i < count
            invariant
                i <= count,
                count == spec_u32_le(data@, info.offset as int),
                spec_counted_fits(data@, *info, 24),
                props@.len() == i,
                forall|j: int| 0 <= j < i ==>
                    (#[trigger] spec_topology(spec_static_prop_mode(data@, *info, j))) is Some,
                forall|j: int| 0 <= j < i ==>
                    #[trigger] props@[j] == spec_static_prop_at(data@, info.offset + 4 + 24 * j,
                        spec_topology(spec_static_prop_mode(data@, *info, j))->0),
            decreases count - i,
        {
            proof {
                lemma_counted_record_in_bounds(data@, *info, 24, i as int);
                assert(info.offset + 4 + 24 * i + 24 <= data.len());
            }
            let p: usize = info.offset as usize + 4 + 24 * (i as usize);
            let mode = read_u32_le(data, p + 4);
            let topology = if mode == 0 {
                PropTopology::Triangles
            } else if mode == 1 {
                PropTopology::TriangleStrip
            } else {
                assert(spec_topology(spec_static_prop_mode(data@, *info, i as int)) is None);
                return Err(BspError::InvalidTopology);
            };
            props.push(StaticProp {
                material: read_u32_le(data, p),
                topology,
                first_index: read_u32_le(data, p + 8),
                num_indices: read_u32_le(data, p + 12),
                first_vertex: read_u32_le(data, p + 16),
                num_vertices: read_u32_le(data, p + 20),
            });
            i = i + 1;
        }
        Ok(StaticPropLump { props })
    }
}

pub struct StaticPropIndicesLump {
    pub indices: Vec<u16>,
}

impl StaticPropIndicesLump {
    pub open spec fn spec_error(data: Seq<u8>, info: BspLumpInfo) -> Option<BspError> {
        if spec_counted_fits(data, info, 2) { None } else { Some(BspError::UnexpectedEof) }
    }

    pub open spec fn spec_parsed_from(self, data: Seq<u8>, info: BspLumpInfo) -> bool {
        &&& self.indices@.len() == spec_u32_le(data, info.offset as int)
        &&& forall|i: int| 0 <= i < self.indices@.len() ==>
            #[trigger] self.indices@[i] == spec_u16_le(data, info.offset + 4 + 2 * i)
    }

    /// Reads the counted `u16` indices.
    pub fn new(data: &[u8], info: &BspLumpInfo) -> (r: Result<StaticPropIndicesLump, BspError>)
        ensures
            r is Err <==> Self::spec_error(data@, *info) is Some,
            r matches Err(e) ==> Self::spec_error(data@, *info) == Some(e),
            r matches Ok(l) ==> l.spec_parsed_from(data@, *info),
    {
        let count = match counted_record_count(data, info, 2) {
            Some(n) => n,
            None => return Err(BspError::UnexpectedEof),
        };
        let mut indices: Vec<u16> = Vec::new();
        let mut i: u32 = 0;
        while i < count
            invariant
                i <= count,
                count == spec_u32_le(data@, info.offset as int),
                spec_counted_fits(data@, *info, 2),
                indices@.len() == i,
                forall|j: int| 0 <= j < i ==>
                    #[trigger] indices@[j] == spec_u16_le(data@, info.offset + 4 + 2 * j),
            decreases count - i,
        {
            proof {
                lemma_counted_record_in_bounds(data@, *info, 2, i as int);
                assert(info.offset + 4 + 2 * i + 2 <= data.len());
            }
            let p: usize = info.offset as usize + 4 + 2 * (i as usize);
            indices.push(read_u16_le(data, p));
            i = i + 1;
        }
        Ok(StaticPropIndicesLump { indices })
    }
}

/// A static prop vertex; float components are kept as their bit patterns.
#[derive(Debug, Clone, Copy, PartialEq, Eq, Structural)]
pub struct StaticPropVertex {
    pub position: RawVector3,
    pub normal: RawVector3,
    pub tangent: RawVector4,
    pub texcoord: RawVector2,
    pub color: Color32,
}

pub open spec fn spec_static_prop_vertex_at(s: Seq<u8>, p: int) -> StaticPropVertex {
    StaticPropVertex {
        position: spec_vec3f_at(s, p),
        normal: spec_vec3f_at(s, p + 12),
        tangent: spec_vec4f_at(s, p + 24),
        texcoord: spec_vec2f_at(s, p + 40),
        color: spec_color32_at(s, p + 48),
    }
}

pub struct StaticPropVerticesLump {
    pub vertices: Vec<StaticPropVertex>,
}

impl StaticPropVerticesLump {
    pub open spec fn spec_error(data: Seq<u8>, info: BspLumpInfo) -> Option<BspError> {
        if spec_counted_fits(data, info, 52) { None } else { Some(BspError::UnexpectedEof) }
    }

    pub open spec fn spec_parsed_from(self, data: Seq<u8>, info: BspLumpInfo) -> bool {
        &&& self.vertices@.len() == spec_u32_le(data, info.offset as int)
        &&& forall|i: int| 0 <= i < self.vertices@.len() ==>
            #[trigger] self.vertices@[i] == spec_static_prop_vertex_at(data, info.offset + 4 + 52 * i)
    }

    /// Reads the counted 52-byte vertex records.
    pub fn new(data: &[u8], info: &BspLumpInfo) -> (r: Result<StaticPropVerticesLump, BspError>)
        ensures
            r is Err <==> Self::spec_error(data@, *info) is Some,
            r matches Err(e) ==> Self::spec_error(data@, *info) == Some(e),
            r matches Ok(l) ==> l.spec_parsed_from(data@, *info),
    {
        let count = match counted_record_count(data, info, 52) {
            Some(n) => n,
            None => return Err(BspError::UnexpectedEof),
        };
        let mut vertices: Vec<StaticPropVertex> = Vec::new();
        let mut i: u32 = 0;
        while i < count
            invariant
                i <= count,
                count == spec_u32_le(data@, info.offset as int),
                spec_counted_fits(data@, *info, 52),
                vertices@.len() == i,
                forall|j: int| 0 <= j < i ==>
                    #[trigger] vertices@[j] == spec_static_prop_vertex_at(data@, info.offset + 4 + 52 * j),
            decreases count - i,
        {
            proof {
                lemma_counted_record_in_bounds(data@, *info, 52, i as int);
                assert(info.offset + 4 + 52 * i + 52 <= data.len());
            }
            let p: usize = info.offset as usize + 4 + 52 * (i as usize);
            vertices.push(StaticPropVertex {
                position: read_vec3f(data, p),
                normal: read_vec3f(data, p + 12),
                tangent: read_vec4f(data, p + 24),
                texcoord: read_vec2f(data, p + 40),
                color: read_color32(data, p + 48),
            });
            i = i + 1;
        }
        Ok(StaticPropVerticesLump { vertices })
    }
}

pub struct StaticPropMaterialsLump {
    pub materials: Vec<String>,
}

impl StaticPropMaterialsLump {
    pub open spec fn spec_error(data: Seq<u8>, info: BspLumpInfo) -> Option<BspError> {
        if !spec_counted_fits(data, info, 64) {
            Some(BspError::UnexpectedEof)
        } else if exists|i: int| 0 <= i < spec_u32_le(data, info.offset as int)
            && !valid_utf8(#[trigger] spec_name_at(data, info.offset + 4 + 64 * i, 64)) {
            Some(BspError::InvalidName)
        } else {
            None
        }
    }

    pub open spec fn spec_parsed_from(self, data: Seq<u8>, info: BspLumpInfo) -> bool {
        &&& self.materials@.len() == spec_u32_le(data, info.offset as int)
        &&& forall|i: int| 0 <= i < self.materials@.len() ==>
            encode_utf8(#[trigger] self.materials@[i]@) == spec_name_at(data, info.offset + 4 + 64 * i, 64)
    }

    /// Reads the counted 64-byte material names.
    pub fn new(data: &[u8], info: &BspLumpInfo) -> (r: Result<StaticPropMaterialsLump, BspError>)
        ensures
            r is Err <==> Self::spec_error(data@, *info) is Some,
            r matches Err(e) ==> Self::spec_error(data@, *info) == Some(e),
            r matches Ok(l) ==> l.spec_parsed_from(data@, *info),
    {
        let count = match counted_record_count(data, info, 64) {
            Some(n) => n,
            None => return Err(BspError::UnexpectedEof),
        };
        let mut materials: Vec<String> = Vec::new();
        let mut i: u32 = 0;
        while i < count
            invariant
                i <= count,
                count == spec_u32_le(data@, info.offset as int),
                spec_counted_fits(data@, *info, 64),
                materials@.len() == i,
                forall|j: int| 0 <= j < i ==>
                    valid_utf8(#[trigger] spec_name_at(data@, info.offset + 4 + 64 * j, 64)),
                forall|j: int| 0 <= j < i ==>
                    encode_utf8(#[trigger] materials@[j]@) == spec_name_at(data@, info.offset + 4 + 64 * j, 64),
            decreases count - i,
        {
            proof {
                lemma_counted_record_in_bounds(data@, *info, 64, i as int);
                assert(info.offset + 4 + 64 * i + 64 <= data.len());
            }
            let p: usize = info.offset as usize + 4 + 64 * (i as usize);
            match read_cstr(data, p, 64) {
                Some(name) => materials.push(name),
                None => {
                    assert(!valid_utf8(spec_name_at(data@, info.offset + 4 + 64 * i, 64)));
                    return Err(BspError::InvalidName);
                },
            }
            i = i + 1;
        }
        Ok(StaticPropMaterialsLump { materials })
    }
}

/// The sign-flipped bit pattern of a float (`-x` for the float `x`).
pub open spec fn spec_neg_bits(x: u32) -> u32 {
    x ^ 0x8000_0000u32
}

fn neg_bits(x: u32) -> (r: u32)
    ensures
        r == spec_neg_bits(x),
{
    x ^ 0x8000_0000u32
}

/// A light probe: L1 spherical harmonics per color channel (xyz: linear
/// band, w: constant band), as float bit patterns.
#[derive(Debug, Clone, Copy, PartialEq, Eq, Structural)]
pub struct LSHProbe {
    pub sh_r: RawVector4,
    pub sh_g: RawVector4,
    pub sh_b: RawVector4,
}

/// The probe stored at `p`: the constant terms of the three channels
/// followed by the linear terms of red, green and blue. The x and y
/// components of the linear terms are negated.
pub open spec fn spec_probe_at(s: Seq<u8>, p: int) -> LSHProbe {
    let l0 = spec_vec3f_at(s, p);
    let r = spec_vec3f_at(s, p + 12);
    let g = spec_vec3f_at(s, p + 24);
    let b = spec_vec3f_at(s, p + 36);
    LSHProbe {
        sh_r: RawVector4 { x: spec_neg_bits(r.x), y: spec_neg_bits(r.y), z: r.z, w: l0.x },
        sh_g: RawVector4 { x: spec_neg_bits(g.x), y: spec_neg_bits(g.y), z: g.z, w: l0.y },
        sh_b: RawVector4 { x: spec_neg_bits(b.x), y: spec_neg_bits(b.y), z: b.z, w: l0.z },
    }
}

fn read_probe(data: &[u8], p: usize) -> (probe: LSHProbe)
    requires
        p + 48 <= data.len(),
    ensures
        probe == spec_probe_at(data@, p as int),
{
    let l0 = read_vec3f(data, p);
    let r = read_vec3f(data, p + 12);
    let g = read_vec3f(data, p + 24);
    let b = read_vec3f(data, p + 36);
    LSHProbe {
        sh_r: RawVector4 { x: neg_bits(r.x), y: neg_bits(r.y), z: r.z, w: l0.x },
        sh_g: RawVector4 { x: neg_bits(g.x), y: neg_bits(g.y), z: g.z, w: l0.y },
        sh_b: RawVector4 { x: neg_bits(b.x), y: neg_bits(b.y), z: b.z, w: l0.z },
    }
}

/// Whether the grid's probe count `x * y * z`, computed in `i32`, neither
/// overflows nor is negative.
pub open spec fn spec_grid_count_ok(size: IntVector3) -> bool {
    let xy = size.x as int * size.y as int;
    &&& i32::MIN <= xy <= i32::MAX
    &&& 0 <= xy * size.z <= i32::MAX
}

/// A regular grid of light probes covering the map.
pub struct LSHGridLump {
    pub grid_dist: RawVector3,
    pub grid_size: IntVector3,
    pub grid_mins: RawVector3,
    pub probes: Vec<LSHProbe>,
}

impl LSHGridLump {
    pub open spec fn spec_size(data: Seq<u8>, info: BspLumpInfo) -> IntVector3 {
        spec_vec3i_at(data, info.offset + 12)
    }

    pub open spec fn spec_count(data: Seq<u8>, info: BspLumpInfo) -> int {
        let size = Self::spec_size(data, info);
        size.x as int * size.y as int * size.z as int
    }

    pub open spec fn spec_error(data: Seq<u8>, info: BspLumpInfo) -> Option<BspError> {
        if info.offset + 36 > data.len() {
            Some(BspError::UnexpectedEof)
        } else if !spec_grid_count_ok(Self::spec_size(data, info)) {
            Some(BspError::InvalidLayout)
        } else if !spec_records_fit(data.len() as int, info.offset + 36, Self::spec_count(data, info), 48) {
            Some(BspError::UnexpectedEof)
        } else {
            None
        }
    }

    pub open spec fn spec_parsed_from(self, data: Seq<u8>, info: BspLumpInfo) -> bool {
        &&& self.grid_dist == spec_vec3f_at(data, info.offset as int)
        &&& self.grid_size == Self::spec_size(data, info)
        &&& self.grid_mins == spec_vec3f_at(data, info.offset + 24)
        &&& self.probes@.len() == Self::spec_count(data, info)
        &&& forall|i: int| 0 <= i < self.probes@.len() ==>
            #[trigger] self.probes@[i] == spec_probe_at(data, info.offset + 36 + 48 * i)
    }

    /// Reads the grid header (cell size, dimensions, origin) and its
    /// `x * y * z` probes.
    pub fn new(data: &[u8], info: &BspLumpInfo) -> (r: Result<LSHGridLump, BspError>)
        ensures
            r is Err <==> Self::spec_error(data@, *info) is Some,
            r matches Err(e) ==> Self::spec_error(data@, *info) == Some(e),
            r matches Ok(l) ==> l.spec_parsed_from(data@, *info),
    {
        if info.offset as u64 + 36 > data.len() as u64 {
            return Err(BspError::UnexpectedEof);
        }
        let p = info.offset as usize;
        let grid_dist = read_vec3f(data, p);
        let grid_size = read_vec3i(data, p + 12);
        let grid_mins = read_vec3f(data, p + 24);
        let ghost size = grid_size;
        assert(i32::MIN * i32::MAX <= size.x as int * size.y as int <= i32::MIN * i32::MIN) by (nonlinear_arith)
            requires i32::MIN <= size.x <= i32::MAX, i32::MIN <= size.y <= i32::MAX;
        let xy: i64 = (grid_size.x as i64) * (grid_size.y as i64);
        if xy < i32::MIN as i64 || xy > i32::MAX as i64 {
            return Err(BspError::InvalidLayout);
        }
        assert(i32::MIN * i32::MAX <= xy as int * size.z as int <= i32::MIN * i32::MIN) by (nonlinear_arith)
            requires i32::MIN <= size.z <= i32::MAX, i32::MIN <= xy <= i32::MAX;
        let total: i64 = xy * (grid_size.z as i64);
        if total < 0 || total > i32::MAX as i64 {
            return Err(BspError::InvalidLayout);
        }
        let count = total as u32;
        if !records_fit(data.len(), info.offset as u64 + 36, count, 48) {
            return Err(BspError::UnexpectedEof);
        }
        let mut probes: Vec<LSHProbe> = Vec::new();
        let mut i: u32 = 0;
        while i < count
            invariant
                i <= count,
                p == info.offset,
                count == Self::spec_count(data@, *info),
                spec_records_fit(data@.len() as int, info.offset + 36, count as int, 48),
                probes@.len() == i,
                forall|j: int| 0 <= j < i ==>
                    #[trigger] probes@[j] == spec_probe_at(data@, info.offset + 36 + 48 * j),
            decreases count - i,
        {
            proof {
                lemma_record_in_bounds(data@.len() as int, info.offset + 36, count as int, 48, i as int);
                assert(info.offset + 36 + 48 * i + 48 <= data.len());
            }
            probes.push(read_probe(data, p + 36 + 48 * (i as usize)));
            i = i + 1;
        }
        Ok(LSHGridLump { grid_dist, grid_size, grid_mins, probes })
    }
}

/// `IBSP` read as a little-endian `u32`.
pub const BSP_MAGIC: u32 = 0x50534249;
/// `BSPX` read as a little-endian `u32`.
pub const BSPX_MAGIC: u32 = 0x58505342;
pub const BSP_VERSION: u32 = 38;
/// Number of entries in the lump directory of the main file.
pub const NUM_BSP_LUMPS: usize = 19;

/// The first error of the two, in order.
pub open spec fn spec_either(a: Option<BspError>, b: Option<BspError>) -> Option<BspError> {
    if a is Some { a } else { b }
}

/// Entry `i` of the lump directory.
pub open spec fn spec_lump_info(data: Seq<u8>, i: int) -> BspLumpInfo {
    BspLumpInfo {
        offset: spec_u32_le(data, 8 + 8 * i) as u32,
        length: spec_u32_le(data, 12 + 8 * i) as u32,
    }
}

/// End offset of directory entry `i`.
pub open spec fn spec_lump_end(data: Seq<u8>, i: int) -> int {
    spec_u32_le(data, 8 + 8 * i) + spec_u32_le(data, 12 + 8 * i)
}

/// Largest end offset among the first `k` directory entries (0 when `k` is 0).
pub open spec fn spec_max_lump_end(data: Seq<u8>, k: int) -> int
    decreases k,
{
    if k <= 0 {
        0
    } else {
        let m = spec_max_lump_end(data, k - 1);
        let e = spec_lump_end(data, k - 1);
        if e > m { e } else { m }
    }
}

/// `m` rounded up to a multiple of 4.
pub open spec fn spec_round_up4(m: int) -> int {
    if m % 4 == 0 { m } else { m + (4 - m % 4) }
}

/// Where the `BSPX` extension starts: after the last byte of the main lumps, 4-aligned.
pub open spec fn spec_bspx_start(data: Seq<u8>) -> int {
    spec_round_up4(spec_max_lump_end(data, NUM_BSP_LUMPS as int))
}

/// Errors of the file header and the lump directory.
pub open spec fn spec_header_error(data: Seq<u8>) -> Option<BspError> {
    if data.len() < 4 {
        Some(BspError::UnexpectedEof)
    } else if spec_u32_le(data, 0) != BSP_MAGIC {
        Some(BspError::BadMagic)
    } else if data.len() < 8 {
        Some(BspError::UnexpectedEof)
    } else if spec_u32_le(data, 4) != BSP_VERSION {
        Some(BspError::BadVersion)
    } else if data.len() < 8 + 8 * NUM_BSP_LUMPS {
        Some(BspError::UnexpectedEof)
    } else if exists|i: int| 0 <= i < NUM_BSP_LUMPS && #[trigger] spec_lump_end(data, i) > u32::MAX {
        Some(BspError::InvalidLayout)
    } else {
        None
    }
}

/// Errors of the main lumps, in the order they are read.
pub open spec fn spec_main_lumps_error(data: Seq<u8>) -> Option<BspError> {
    let e0 = EntityLump::spec_error(data, spec_lump_info(data, 0));
    let e1 = PlaneLump::spec_error(data, spec_lump_info(data, 1));
    let e2 = VertexLump::spec_error(data, spec_lump_info(data, 2));
    let e3 = VisLump::spec_error(data, spec_lump_info(data, 3));
    let e4 = NodeLump::spec_error(data, spec_lump_info(data, 4));
    let e5 = TexInfoLump::spec_error(data, spec_lump_info(data, 5));
    let e6 = FaceLump::spec_error(data, spec_lump_info(data, 6));
    let e7 = LightmapLump::spec_error(data, spec_lump_info(data, 7));
    let e8 = LeafLump::spec_error(data, spec_lump_info(data, 8));
    let e9 = LeafFaceLump::spec_error(data, spec_lump_info(data, 9));
    let e10 = LeafBrushLump::spec_error(data, spec_lump_info(data, 10));
    let e11 = EdgeLump::spec_error(data, spec_lump_info(data, 11));
    let e12 = FaceEdgeLump::spec_error(data, spec_lump_info(data, 12));
    let e13 = SubModelLump::spec_error(data, spec_lump_info(data, 13));
    let e14 = BrushLump::spec_error(data, spec_lump_info(data, 14));
    let e15 = BrushSideLump::spec_error(data, spec_lump_info(data, 15));
    if e0 is Some {
        e0
    } else if e1 is Some {
        e1
    } else if e2 is Some {
        e2
    } else if e3 is Some {
        e3
    } else if e4 is Some {
        e4
    } else if e5 is Some {
        e5
    } else if e6 is Some {
        e6
    } else if e7 is Some {
        e7
    } else if e8 is Some {
        e8
    } else if e9 is Some {
        e9
    } else if e10 is Some {
        e10
    } else if e11 is Some {
        e11
    } else if e12 is Some {
        e12
    } else if e13 is Some {
        e13
    } else if e14 is Some {
        e14
    } else {
        e15
    }
}

/// Number of entries of the `BSPX` directory.
pub open spec fn spec_bspx_count(data: Seq<u8>) -> int {
    spec_u32_le(data, spec_bspx_start(data) + 4)
}

/// Position of entry `j` of the `BSPX` directory.
pub open spec fn spec_bspx_entry_pos(data: Seq<u8>, j: int) -> int {
    spec_bspx_start(data) + 8 + 32 * j
}

/// The 24-byte name field of `BSPX` entry `j`.
pub open spec fn spec_bspx_name_field(data: Seq<u8>, j: int) -> Seq<u8> {
    let e = spec_bspx_entry_pos(data, j);
    data.subrange(e, e + 24)
}

/// A `BSPX` name must be NUL-terminated inside its field and be valid UTF-8.
pub open spec fn spec_bspx_name_ok(data: Seq<u8>, j: int) -> bool {
    &&& spec_cstr_len(spec_bspx_name_field(data, j)) < 24
    &&& valid_utf8(spec_cstr(spec_bspx_name_field(data, j)))
}

pub open spec fn spec_bspx_entry_info(data: Seq<u8>, j: int) -> BspLumpInfo {
    let e = spec_bspx_entry_pos(data, j);
    BspLumpInfo { offset: spec_u32_le(data, e + 24) as u32, length: spec_u32_le(data, e + 28) as u32 }
}

/// The lump named `key` among the first `k` `BSPX` entries; a later entry
/// with the same name replaces an earlier one.
pub open spec fn spec_bspx_find(data: Seq<u8>, k: int, key: Seq<char>) -> Option<BspLumpInfo>
    decreases k,
{
    if k <= 0 {
        None
    } else if decode_utf8(spec_cstr(spec_bspx_name_field(data, k - 1))) == key {
        Some(spec_bspx_entry_info(data, k - 1))
    } else {
        spec_bspx_find(data, k - 1, key)
    }
}

pub open spec fn spec_named_lump(data: Seq<u8>, key: Seq<char>) -> Option<BspLumpInfo> {
    spec_bspx_find(data, spec_bspx_count(data), key)
}

/// The error of a lump found by name: missing, or its own parse error.
pub open spec fn spec_named_error(found: Option<BspLumpInfo>, err: Option<BspError>) -> Option<BspError> {
    if found is None { Some(BspError::MissingBspxLump) } else { err }
}

pub open spec fn spec_bspx_error(data: Seq<u8>) -> Option<BspError> {
    let st = spec_bspx_start(data);
    let lsh = spec_named_lump(data, "LSH_GRID"@);
    let sprop = spec_named_lump(data, "SPROP"@);
    let indices = spec_named_lump(data, "SPROP_INDICES"@);
    let vertices = spec_named_lump(data, "SPROP_VERTICES"@);
    let materials = spec_named_lump(data, "SPROP_MATERIALS"@);
    if st + 4 > data.len() || spec_u32_le(data, st) != BSPX_MAGIC {
        Some(BspError::NoBspx)
    } else if st + 8 > data.len() || st + 8 + 32 * spec_bspx_count(data) > data.len() {
        Some(BspError::UnexpectedEof)
    } else if exists|j: int| 0 <= j < spec_bspx_count(data) && !#[trigger] spec_bspx_name_ok(data, j) {
        Some(BspError::InvalidName)
    } else {
        let e0 = spec_named_error(lsh, LSHGridLump::spec_error(data, lsh->0));
        let e1 = spec_named_error(sprop, StaticPropLump::spec_error(data, sprop->0));
        let e2 = spec_named_error(indices, StaticPropIndicesLump::spec_error(data, indices->0));
        let e3 = spec_named_error(vertices, StaticPropVerticesLump::spec_error(data, vertices->0));
        let e4 = spec_named_error(materials, StaticPropMaterialsLump::spec_error(data, materials->0));
        if e0 is Some {
            e0
        } else if e1 is Some {
            e1
        } else if e2 is Some {
            e2
        } else if e3 is Some {
            e3
        } else {
            e4
        }
    }
}

/// Why `data` is not a loadable map, if it is not one.
pub open spec fn spec_bsp_error(data: Seq<u8>) -> Option<BspError> {
    spec_either(spec_header_error(data), spec_either(spec_main_lumps_error(data), spec_bspx_error(data)))
}

/// Reads the magic number, the version and the lump directory; also gives
/// the largest end offset of the main lumps.
fn read_lump_directory(data: &[u8]) -> (r: Result<(Vec<BspLumpInfo>, u64), BspError>)
    ensures
        r is Err <==> spec_header_error(data@) is Some,
        r matches Err(e) ==> spec_header_error(data@) == Some(e),
        r matches Ok((infos, max_end)) ==> {
            &&& infos@.len() == NUM_BSP_LUMPS
            &&& forall|i: int| 0 <= i < NUM_BSP_LUMPS ==> #[trigger] infos@[i] == spec_lump_info(data@, i)
            &&& max_end == spec_max_lump_end(data@, NUM_BSP_LUMPS as int)
            &&& max_end <= u32::MAX
        },
{
    if data.len() < 4 {
        return Err(BspError::UnexpectedEof);
    }
    if read_u32_le(data, 0) != BSP_MAGIC {
        return Err(BspError::BadMagic);
    }
    if data.len() < 8 {
        return Err(BspError::UnexpectedEof);
    }
    if read_u32_le(data, 4) != BSP_VERSION {
        return Err(BspError::BadVersion);
    }
    if data.len() < 8 + 8 * NUM_BSP_LUMPS {
        return Err(BspError::UnexpectedEof);
    }
    let mut infos: Vec<BspLumpInfo> = Vec::new();
    let mut max_end: u64 = 0;
    let mut i: usize = 0;
    while i < NUM_BSP_LUMPS
        invariant
            i <= NUM_BSP_LUMPS,
            data.len() >= 8 + 8 * NUM_BSP_LUMPS,
            spec_u32_le(data@, 0) == BSP_MAGIC,
            spec_u32_le(data@, 4) == BSP_VERSION,
            infos@.len() == i,
            forall|j: int| 0 <= j < i ==> #[trigger] infos@[j] == spec_lump_info(data@, j),
            forall|j: int| 0 <= j < i ==> #[trigger] spec_lump_end(data@, j) <= u32::MAX,
            max_end == spec_max_lump_end(data@, i as int),
            max_end <= u32::MAX,
        decreases NUM_BSP_LUMPS - i,
    {
        let offset = read_u32_le(data, 8 + 8 * i);
        let length = read_u32_le(data, 12 + 8 * i);
        if offset as u64 + length as u64 > 0xffff_ffff {
            assert(spec_lump_end(data@, i as int) > u32::MAX);
            return Err(BspError::InvalidLayout);
        }
        let end = offset as u64 + length as u64;
        if end > max_end {
            max_end = end;
        }
        infos.push(BspLumpInfo { offset, length });
        i = i + 1;
    }
    Ok((infos, max_end))
}

/// Reads a `BSPX` directory name: it must end with a NUL inside its
/// 24-byte field and be valid UTF-8.
fn read_bspx_name(data: &[u8], e: usize) -> (r: Option<String>)
    requires
        e + 24 <= data.len(),
    ensures
        r is Some <==> spec_cstr_len(data@.subrange(e as int, e + 24)) < 24
            && valid_utf8(spec_cstr(data@.subrange(e as int, e + 24))),
        r matches Some(s) ==> encode_utf8(s@) == spec_cstr(data@.subrange(e as int, e + 24)),
{
    let ghost w = data@.subrange(e as int, e + 24);
    let mut k: usize = 0;
    while k < 24 && data[e + k] != 0
        invariant
            k <= 24,
            e + 24 <= data.len(),
            w == data@.subrange(e as int, e + 24),
            forall|j: int| 0 <= j < k ==> w[j] != 0,
        decreases 24 - k,
    {
        k = k + 1;
    }
    proof { lemma_cstr_len(w, k as int); }
    if k == 24 {
        return None;
    }
    read_cstr(data, e, 24)
}

/// One entry of the `BSPX` directory: a lump name and its location.
pub struct BspxEntry {
    pub name: String,
    pub info: BspLumpInfo,
}

/// Reads the `BSPX` header at `start` and its directory.
fn read_bspx_directory(data: &[u8], start: u64) -> (r: Result<Vec<BspxEntry>, BspError>)
    requires
        start == spec_bspx_start(data@),
        start <= 0x1_0000_0003,
    ensures
        r is Err <==> {
            ||| start + 4 > data@.len() || spec_u32_le(data@, start as int) != BSPX_MAGIC
            ||| start + 8 > data@.len() || start + 8 + 32 * spec_bspx_count(data@) > data@.len()
            ||| exists|j: int| 0 <= j < spec_bspx_count(data@) && !#[trigger] spec_bspx_name_ok(data@, j)
        },
        r matches Err(e) ==> spec_bspx_error(data@) == Some(e),
        r matches Ok(entries) ==> {
            &&& entries@.len() == spec_bspx_count(data@)
            &&& forall|j: int| 0 <= j < entries@.len() ==> {
                &&& decode_utf8(spec_cstr(spec_bspx_name_field(data@, j))) == (#[trigger] entries@[j]).name@
                &&& entries@[j].info == spec_bspx_entry_info(data@, j)
            }
        },
{
    if start + 4 > data.len() as u64 {
        return Err(BspError::NoBspx);
    }
    let st = start as usize;
    if read_u32_le(data, st) != BSPX_MAGIC {
        return Err(BspError::NoBspx);
    }
    if start + 8 > data.len() as u64 {
        return Err(BspError::UnexpectedEof);
    }
    let count = read_u32_le(data, st + 4);
    if !records_fit(data.len(), start + 8, count, 32) {
        return Err(BspError::UnexpectedEof);
    }
    let mut entries: Vec<BspxEntry> = Vec::new();
    let mut j: u32 = 0;
    while j < count
        invariant
            j <= count,
            st == start,
            start == spec_bspx_start(data@),
            start + 8 <= data.len(),
            spec_u32_le(data@, start as int) == BSPX_MAGIC,
            count == spec_bspx_count(data@),
            spec_records_fit(data@.len() as int, start + 8, count as int, 32),
            entries@.len() == j,
            forall|k: int| 0 <= k < j ==> #[trigger] spec_bspx_name_ok(data@, k),
            forall|k: int| 0 <= k < j ==> {
                &&& decode_utf8(spec_cstr(spec_bspx_name_field(data@, k))) == (#[trigger] entries@[k]).name@
                &&& entries@[k].info == spec_bspx_entry_info(data@, k)
            },
        decreases count - j,
    {
        proof {
            lemma_record_in_bounds(data@.len() as int, start + 8, count as int, 32, j as int);
            assert(start + 8 + 32 * j + 32 <= data.len());
        }
        let e = st + 8 + 32 * (j as usize);
        let name = match read_bspx_name(data, e) {
            Some(n) => n,
            None => {
                assert(!spec_bspx_name_ok(data@, j as int));
                return Err(BspError::InvalidName);
            },
        };
        proof { vstd::utf8::encode_utf8_decode_utf8(name@); }
        let offset = read_u32_le(data, e + 24);
        let length = read_u32_le(data, e + 28);
        entries.push(BspxEntry { name, info: BspLumpInfo { offset, length } });
        j = j + 1;
    }
    Ok(entries)
}

/// The lump of the last directory entry named `key`.
fn find_bspx_lump(data: &[u8], entries: &Vec<BspxEntry>, key: &str) -> (r: Option<BspLumpInfo>)
    requires
        entries@.len() == spec_bspx_count(data@),
        forall|j: int| 0 <= j < entries@.len() ==> {
            &&& decode_utf8(spec_cstr(spec_bspx_name_field(data@, j))) == (#[trigger] entries@[j]).name@
            &&& entries@[j].info == spec_bspx_entry_info(data@, j)
        },
    ensures
        r == spec_named_lump(data@, key@),
{
    let mut k: usize = entries.len();
    while k > 0
        invariant
            k <= entries@.len(),
            entries@.len() == spec_bspx_count(data@),
            forall|j: int| 0 <= j < entries@.len() ==> {
                &&& decode_utf8(spec_cstr(spec_bspx_name_field(data@, j))) == (#[trigger] entries@[j]).name@
                &&& entries@[j].info == spec_bspx_entry_info(data@, j)
            },
            spec_named_lump(data@, key@) == spec_bspx_find(data@, k as int, key@),
        decreases k,
    {
        let entry = &entries[k - 1];
        if str_eq(entry.name.as_str(), key) {
            return Some(entry.info);
        }
        k = k - 1;
    }
    None
}

/// A whole map: the main lumps of the IBSP file and the lumps of its
/// `BSPX` extension.
pub struct BspFile {
    pub entity_lump: EntityLump,
    pub vertex_lump: VertexLump,
    pub edge_lump: EdgeLump,
    pub face_lump: FaceLump,
    pub face_edge_lump: FaceEdgeLump,
    pub plane_lump: PlaneLump,
    pub node_lump: NodeLump,
    pub leaf_lump: LeafLump,
    pub leaf_face_lump: LeafFaceLump,
    pub leaf_brush_lump: LeafBrushLump,
    pub tex_info_lump: TexInfoLump,
    pub vis_lump: VisLump,
    pub lm_lump: LightmapLump,
    pub brush_lump: BrushLump,
    pub brush_side_lump: BrushSideLump,
    pub submodel_lump: SubModelLump,
    pub lsh_grid_lump: LSHGridLump,
    pub sprop_lump: StaticPropLump,
    pub sprop_indices_lump: StaticPropIndicesLump,
    pub sprop_vertices_lump: StaticPropVerticesLump,
    pub sprop_materials_lump: StaticPropMaterialsLump,
}

impl BspFile {
    /// Each lump of the map holds what its parser reads from `data`.
    pub open spec fn spec_parsed_from(self, data: Seq<u8>) -> bool {
        &&& self.entity_lump.spec_parsed_from(data, spec_lump_info(data, 0))
        &&& self.plane_lump.spec_parsed_from(data, spec_lump_info(data, 1))
        &&& self.vertex_lump.spec_parsed_from(data, spec_lump_info(data, 2))
        &&& self.vis_lump.spec_parsed_from(data, spec_lump_info(data, 3))
        &&& self.node_lump.spec_parsed_from(data, spec_lump_info(data, 4))
        &&& self.tex_info_lump.spec_parsed_from(data, spec_lump_info(data, 5))
        &&& self.face_lump.spec_parsed_from(data, spec_lump_info(data, 6))
        &&& self.lm_lump.spec_parsed_from(data, spec_lump_info(data, 7))
        &&& self.leaf_lump.spec_parsed_from(data, spec_lump_info(data, 8))
        &&& self.leaf_face_lump.spec_parsed_from(data, spec_lump_info(data, 9))
        &&& self.leaf_brush_lump.spec_parsed_from(data, spec_lump_info(data, 10))
        &&& self.edge_lump.spec_parsed_from(data, spec_lump_info(data, 11))
        &&& self.face_edge_lump.spec_parsed_from(data, spec_lump_info(data, 12))
        &&& self.submodel_lump.spec_parsed_from(data, spec_lump_info(data, 13))
        &&& self.brush_lump.spec_parsed_from(data, spec_lump_info(data, 14))
        &&& self.brush_side_lump.spec_parsed_from(data, spec_lump_info(data, 15))
        &&& self.lsh_grid_lump.spec_parsed_from(data, spec_named_lump(data, "LSH_GRID"@)->0)
        &&& self.sprop_lump.spec_parsed_from(data, spec_named_lump(data, "SPROP"@)->0)
        &&& self.sprop_indices_lump.spec_parsed_from(data, spec_named_lump(data, "SPROP_INDICES"@)->0)
        &&& self.sprop_vertices_lump.spec_parsed_from(data, spec_named_lump(data, "SPROP_VERTICES"@)->0)
        &&& self.sprop_materials_lump.spec_parsed_from(data, spec_named_lump(data, "SPROP_MATERIALS"@)->0)
    }

    /// Loads a map from the bytes of an IBSP version 38 file with a `BSPX`
    /// extension holding the light grid and the static props.
    ///
    /// Input that is not such a file is refused with an error, never with a
    /// panic: a first word other than the `IBSP` magic gives `BadMagic`, a
    /// version other than 38 gives `BadVersion`, and a lump that does not fit
    /// the data gives the error that `spec_bsp_error` names.
    pub fn new(data: &[u8]) -> (r: Result<BspFile, BspError>)
        ensures
            r is Err <==> spec_bsp_error(data@) is Some,
            r matches Err(e) ==> spec_bsp_error(data@) == Some(e),
            r matches Ok(f) ==> f.spec_parsed_from(data@),
    {
        let (infos, max_end) = read_lump_directory(data)?;
        let entity_lump = EntityLump::new(data, &infos[0])?;
        let plane_lump = PlaneLump::new(data, &infos[1])?;
        let vertex_lump = VertexLump::new(data, &infos[2])?;
        let vis_lump = VisLump::new(data, &infos[3])?;
        let node_lump = NodeLump::new(data, &infos[4])?;
        let tex_info_lump = TexInfoLump::new(data, &infos[5])?;
        let face_lump = FaceLump::new(data, &infos[6])?;
        let lm_lump = LightmapLump::new(data, &infos[7])?;
        let leaf_lump = LeafLump::new(data, &infos[8])?;
        let leaf_face_lump = LeafFaceLump::new(data, &infos[9])?;
        let leaf_brush_lump = LeafBrushLump::new(data, &infos[10])?;
        let edge_lump = EdgeLump::new(data, &infos[11])?;
        let face_edge_lump = FaceEdgeLump::new(data, &infos[12])?;
        let submodel_lump = SubModelLump::new(data, &infos[13])?;
        let brush_lump = BrushLump::new(data, &infos[14])?;
        let brush_side_lump = BrushSideLump::new(data, &infos[15])?;

        let bspx_start: u64 = if max_end % 4 == 0 { max_end } else { max_end + (4 - max_end % 4) };
        let entries = read_bspx_directory(data, bspx_start)?;

        let info = match find_bspx_lump(data, &entries, "LSH_GRID") {
            Some(i) => i,
            None => return Err(BspError::MissingBspxLump),
        };
        let lsh_grid_lump = LSHGridLump::new(data, &info)?;
        let info = match find_bspx_lump(data, &entries, "SPROP") {
            Some(i) => i,
            None => return Err(BspError::MissingBspxLump),
        };
        let sprop_lump = StaticPropLump::new(data, &info)?;
        let info = match find_bspx_lump(data, &entries, "SPROP_INDICES") {
            Some(i) => i,
            None => return Err(BspError::MissingBspxLump),
        };
        let sprop_indices_lump = StaticPropIndicesLump::new(data, &info)?;
        let info = match find_bspx_lump(data, &entries, "SPROP_VERTICES") {
            Some(i) => i,
            None => return Err(BspError::MissingBspxLump),
        };
        let sprop_vertices_lump = StaticPropVerticesLump::new(data, &info)?;
        let info = match find_bspx_lump(data, &entries, "SPROP_MATERIALS") {
            Some(i) => i,
            None => return Err(BspError::MissingBspxLump),
        };
        let sprop_materials_lump = StaticPropMaterialsLump::new(data, &info)?;

        Ok(BspFile {
            entity_lump,
            vertex_lump,
            edge_lump,
            face_lump,
            face_edge_lump,
            plane_lump,
            node_lump,
            leaf_lump,
            leaf_face_lump,
            leaf_brush_lump,
            tex_info_lump,
            vis_lump,
            lm_lump,
            brush_lump,
            brush_side_lump,
            submodel_lump,
            lsh_grid_lump,
            sprop_lump,
            sprop_indices_lump,
            sprop_vertices_lump,
            sprop_materials_lump,
        })
    }
}

} // verus!
