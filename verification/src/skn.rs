//! The skin: vertices with their bone references, the triangle indices they
//! share, and the submeshes that divide those indices.
//!
//! # Layout of a skin buffer
//!
//! All fields are little-endian.
//!
//! | bytes | field |
//! |---|---|
//! | 4 | signature `33 22 11 00` |
//! | 2 + 2 | major and minor version |
//! | 4 | submesh count (major 1 and above only) |
//! | 80 each | submeshes: 64-byte zero-padded name, 8 reserved, index offset, index count |
//! | 48 | major 4 only: 4 reserved, vertex type, box minimum, box maximum, 16 reserved |
//! | 4 + 4 | index count, vertex count |
//! | 2 each | indices |
//! | 52 or 56 each | vertices: position, 4 bone slots, 4 weights, normal, uv; 4 unused bytes more when the vertex type is not zero |

use vstd::prelude::*;
use crate::error::DecodeError;
use crate::hasher::{fnv1a_bytes, fnv1a_of};
use crate::ieee::{Ieee32, U16Vec4, Vector2, Vector3, Vector4, MAX_BITS, MIN_BITS};
use crate::wire::{
    in_bounds, name_at, read_name, read_u16, read_u32, read_vector2, read_vector3, read_vector4,
    u16_at, u32_at, vector2_at, vector3_at, vector4_at,
};

verus! {

/// Bytes before the submesh count: signature and version.
pub const HEADER_BYTES: usize = 8;

/// Bytes of one entry of the submesh table.
pub const SUBMESH_BYTES: usize = 80;

/// Bytes of a submesh's name field.
pub const NAME_BYTES: usize = 64;

/// Bytes of the block that major version 4 puts after the submesh table.
pub const EXTENSION_BYTES: usize = 48;

/// Bytes of a vertex without the unused trailing field.
pub const VERTEX_BYTES: usize = 52;

/// Bytes of a vertex with the unused trailing field.
pub const WIDE_VERTEX_BYTES: usize = 56;

/// The major version that carries the extension block.
pub const EXTENDED_MAJOR: u16 = 4;

/// A named range of the index sequence.
#[derive(Clone, Debug, PartialEq, Eq)]
pub struct SubMeshHeader {
    /// The name as stored, without its padding.
    pub name: Vec<u8>,
    pub indices_offset: u32,
    pub indices_count: u32,
    /// The texture slot, assigned after decoding; a decoded submesh has slot 0.
    pub material_index: usize,
}

/// A submesh together with the hash of its name.
#[derive(Clone, Debug, PartialEq, Eq)]
pub struct Mesh {
    pub hash: u32,
    pub submesh: SubMeshHeader,
}

/// What a `Mesh` holds, as mathematical values.
pub struct MeshModel {
    pub hash: u32,
    pub name: Seq<u8>,
    pub indices_offset: u32,
    pub indices_count: u32,
    pub material_index: usize,
}

impl View for Mesh {
    type V = MeshModel;

    open spec fn view(&self) -> MeshModel {
        MeshModel {
            hash: self.hash,
            name: self.submesh.name@,
            indices_offset: self.submesh.indices_offset,
            indices_count: self.submesh.indices_count,
            material_index: self.submesh.material_index,
        }
    }
}

impl Mesh {
    /// Pairs a submesh with the hash of its name.
    pub fn new(submesh: SubMeshHeader) -> (mesh: Mesh)
        ensures
            mesh.submesh == submesh,
            mesh.hash == fnv1a_of(submesh.name@),
    {
        Mesh { hash: fnv1a_bytes(submesh.name.as_slice()), submesh }
    }
}

/// Where the parts of a skin buffer lie, and how many items each holds.
#[derive(Clone, Copy, Debug, PartialEq, Eq, Structural)]
pub struct SkinLayout {
    pub major: u16,
    pub minor: u16,
    /// Number of entries of the submesh table; 0 where the version has none.
    pub table_count: usize,
    /// Whether the extension block is present.
    pub extended: bool,
    /// Offset of the extension block, or of the counts where there is none.
    pub table_end: usize,
    /// Whether each vertex carries the unused trailing field.
    pub wide: bool,
    pub index_count: usize,
    pub vertex_count: usize,
    pub indices_at: usize,
    pub vertices_at: usize,
}

impl SkinLayout {
    /// Offset of entry `i` of the submesh table.
    pub open spec fn submesh_at(self, i: int) -> int {
        HEADER_BYTES + 4 + SUBMESH_BYTES * i
    }

    /// Offset of index `i`.
    pub open spec fn index_at(self, i: int) -> int {
        self.indices_at + 2 * i
    }

    /// Offset of vertex `i`.
    pub open spec fn vertex_at(self, i: int) -> int {
        if self.wide {
            self.vertices_at + WIDE_VERTEX_BYTES * i
        } else {
            self.vertices_at + VERTEX_BYTES * i
        }
    }

    /// Offset of the first byte after the last vertex.
    pub open spec fn end(self) -> int {
        self.vertex_at(self.vertex_count as int)
    }

    /// The layout lies inside a buffer of `len` bytes, its parts in order.
    pub open spec fn fits(self, len: int) -> bool {
        &&& self.table_end == (if self.major >= 1 {
            self.submesh_at(self.table_count as int)
        } else {
            HEADER_BYTES as int
        })
        &&& self.major == 0 ==> self.table_count == 0
        &&& self.extended == (self.major == EXTENDED_MAJOR)
        &&& self.indices_at == self.table_end + (if self.extended {
            EXTENSION_BYTES as int
        } else {
            0
        }) + 8
        &&& self.vertices_at == self.index_at(self.index_count as int)
        &&& self.end() <= len
    }
}

/// True when the buffer starts with the skin signature.
pub open spec fn has_skin_signature(bytes: Seq<u8>) -> bool {
    bytes.len() >= 4 && bytes[0] == 0x33 && bytes[1] == 0x22 && bytes[2] == 0x11 && bytes[3]
        == 0x00
}

/// The layout that a buffer declares, or the reason why it declares none.
/// The checks come in the order of the fields.
pub open spec fn skin_layout(bytes: Seq<u8>) -> Result<SkinLayout, DecodeError> {
    let len = bytes.len() as int;
    if len < 4 {
        Err(DecodeError::TruncatedData)
    } else if !has_skin_signature(bytes) {
        Err(DecodeError::MalformedSignature)
    } else if len < HEADER_BYTES {
        Err(DecodeError::TruncatedData)
    } else {
        let major = u16_at(bytes, 4);
        let minor = u16_at(bytes, 6);
        if major >= 1 && len < HEADER_BYTES + 4 {
            Err(DecodeError::TruncatedData)
        } else {
            let table_count = if major >= 1 {
                u32_at(bytes, 8)
            } else {
                0
            };
            let table_end = if major >= 1 {
                HEADER_BYTES + 4 + SUBMESH_BYTES * table_count
            } else {
                HEADER_BYTES as int
            };
            let extended = major == EXTENDED_MAJOR;
            let counts_at = if extended {
                table_end + EXTENSION_BYTES
            } else {
                table_end
            };
            if counts_at + 8 > len {
                Err(DecodeError::TruncatedData)
            } else {
                let wide = extended && u32_at(bytes, table_end + 4) != 0;
                let index_count = u32_at(bytes, counts_at);
                let vertex_count = u32_at(bytes, counts_at + 4);
                let indices_at = counts_at + 8;
                let vertices_at = indices_at + 2 * index_count;
                let end = if wide {
                    vertices_at + WIDE_VERTEX_BYTES * vertex_count
                } else {
                    vertices_at + VERTEX_BYTES * vertex_count
                };
                if end > len {
                    Err(DecodeError::TruncatedData)
                } else {
                    Ok(
                        SkinLayout {
                            major: major as u16,
                            minor: minor as u16,
                            table_count: table_count as usize,
                            extended,
                            table_end: table_end as usize,
                            wide,
                            index_count: index_count as usize,
                            vertex_count: vertex_count as usize,
                            indices_at: indices_at as usize,
                            vertices_at: vertices_at as usize,
                        },
                    )
                }
            }
        }
    }
}

/// A layout that a buffer declares lies inside the buffer.
pub proof fn lemma_skin_layout_fits(bytes: Seq<u8>)
    requires
        bytes.len() <= usize::MAX,
        skin_layout(bytes) is Ok,
    ensures
        skin_layout(bytes)->Ok_0.fits(bytes.len() as int),
        skin_layout(bytes)->Ok_0.table_count <= u32::MAX,
        skin_layout(bytes)->Ok_0.index_count <= u32::MAX,
        skin_layout(bytes)->Ok_0.vertex_count <= u32::MAX,
{
}

/// Finds the parts of a skin buffer.
pub fn read_skin_layout(bytes: &[u8]) -> (r: Result<SkinLayout, DecodeError>)
    ensures
        r == skin_layout(bytes@),
{
    let len: usize = bytes.len();
    if len < 4 {
        return Err(DecodeError::TruncatedData);
    }
    if !(bytes[0] == 0x33 && bytes[1] == 0x22 && bytes[2] == 0x11 && bytes[3] == 0x00) {
        return Err(DecodeError::MalformedSignature);
    }
    if len < HEADER_BYTES {
        return Err(DecodeError::TruncatedData);
    }
    let major: u16 = read_u16(bytes, 4);
    let minor: u16 = read_u16(bytes, 6);
    if major >= 1 && len < HEADER_BYTES + 4 {
        return Err(DecodeError::TruncatedData);
    }
    let table_count: u64 = if major >= 1 {
        read_u32(bytes, 8) as u64
    } else {
        0
    };
    let table_end: u64 = if major >= 1 {
        HEADER_BYTES as u64 + 4 + SUBMESH_BYTES as u64 * table_count
    } else {
        HEADER_BYTES as u64
    };
    let extended: bool = major == EXTENDED_MAJOR;
    let counts_at: u64 = if extended {
        table_end + EXTENSION_BYTES as u64
    } else {
        table_end
    };
    if counts_at + 8 > len as u64 {
        return Err(DecodeError::TruncatedData);
    }
    let table_end: usize = table_end as usize;
    let counts_at: usize = counts_at as usize;
    let wide: bool = extended && read_u32(bytes, table_end + 4) != 0;
    let index_count: u64 = read_u32(bytes, counts_at) as u64;
    let vertex_count: u64 = read_u32(bytes, counts_at + 4) as u64;
    let indices_at: u64 = counts_at as u64 + 8;
    let vertices_at: u64 = indices_at + 2 * index_count;
    assert(WIDE_VERTEX_BYTES as u64 * vertex_count == 56 * vertex_count);
    assert(VERTEX_BYTES as u64 * vertex_count == 52 * vertex_count);
    let end: u64 = if wide {
        vertices_at + WIDE_VERTEX_BYTES as u64 * vertex_count
    } else {
        vertices_at + VERTEX_BYTES as u64 * vertex_count
    };
    if end > len as u64 {
        return Err(DecodeError::TruncatedData);
    }
    Ok(
        SkinLayout {
            major,
            minor,
            table_count: table_count as usize,
            extended,
            table_end,
            wide,
            index_count: index_count as usize,
            vertex_count: vertex_count as usize,
            indices_at: indices_at as usize,
            vertices_at: vertices_at as usize,
        },
    )
}

/// The name of the one submesh of a skin that stores no table: `Base`.
pub open spec fn base_name() -> Seq<u8> {
    seq![0x42u8, 0x61u8, 0x73u8, 0x65u8]
}

/// Entry `i` of the submesh table.
pub open spec fn table_mesh(bytes: Seq<u8>, l: SkinLayout, i: int) -> MeshModel {
    let at = l.submesh_at(i);
    let name = name_at(bytes, at, NAME_BYTES as int);
    MeshModel {
        hash: fnv1a_of(name),
        name,
        indices_offset: u32_at(bytes, at + 72) as u32,
        indices_count: u32_at(bytes, at + 76) as u32,
        material_index: 0,
    }
}

/// The submesh that covers every index, for a skin that stores no table.
pub open spec fn base_mesh(l: SkinLayout) -> MeshModel {
    MeshModel {
        hash: fnv1a_of(base_name()),
        name: base_name(),
        indices_offset: 0,
        indices_count: l.index_count as u32,
        material_index: 0,
    }
}

/// The submeshes of a buffer: its table, or the one implicit submesh.
pub open spec fn meshes_of(bytes: Seq<u8>, l: SkinLayout) -> Seq<MeshModel> {
    if l.major >= 1 {
        Seq::new(l.table_count as nat, |i: int| table_mesh(bytes, l, i))
    } else {
        seq![base_mesh(l)]
    }
}

/// Every submesh ends inside a sequence of `index_count` indices.
pub open spec fn ranges_within(meshes: Seq<MeshModel>, index_count: int) -> bool {
    forall|i: int|
        0 <= i < meshes.len() ==> (#[trigger] meshes[i]).indices_offset
            + meshes[i].indices_count <= index_count
}

/// The bone slots stored in the four bytes at `at`.
pub open spec fn influence_at(bytes: Seq<u8>, at: int) -> U16Vec4 {
    U16Vec4 {
        x: bytes[at] as u16,
        y: bytes[at + 1] as u16,
        z: bytes[at + 2] as u16,
        w: bytes[at + 3] as u16,
    }
}

/// The lesser of two numbers; the first where they tie or the second is none.
pub open spec fn lower(a: Ieee32, b: Ieee32) -> Ieee32 {
    if b.lt(a) {
        b
    } else {
        a
    }
}

/// The greater of two numbers; the first where they tie or the second is none.
pub open spec fn upper(a: Ieee32, b: Ieee32) -> Ieee32 {
    if a.lt(b) {
        b
    } else {
        a
    }
}

/// The box before any position has been seen: it starts at the largest finite
/// number and ends at the least, so that the first position sets both corners.
pub open spec fn empty_box() -> (Vector3, Vector3) {
    let top = Ieee32 { bits: MAX_BITS };
    let bottom = Ieee32 { bits: MIN_BITS };
    (Vector3 { x: top, y: top, z: top }, Vector3 { x: bottom, y: bottom, z: bottom })
}

/// A box widened to hold one more position.
pub open spec fn widen(b: (Vector3, Vector3), p: Vector3) -> (Vector3, Vector3) {
    (
        Vector3 { x: lower(b.0.x, p.x), y: lower(b.0.y, p.y), z: lower(b.0.z, p.z) },
        Vector3 { x: upper(b.1.x, p.x), y: upper(b.1.y, p.y), z: upper(b.1.z, p.z) },
    )
}

/// The axis-aligned box around positions: per axis, the least and the greatest
/// coordinate, coordinates that are no numbers left aside.
pub open spec fn bounds_of(positions: Seq<Vector3>) -> (Vector3, Vector3)
    decreases positions.len(),
{
    if positions.len() == 0 {
        empty_box()
    } else {
        widen(bounds_of(positions.drop_last()), positions.last())
    }
}

/// What a `Skin` holds, as mathematical values.
pub struct SkinModel {
    pub major: u16,
    pub minor: u16,
    pub bounding_box: (Vector3, Vector3),
    pub vertices: Seq<Vector3>,
    pub normals: Seq<Vector3>,
    pub uvs: Seq<Vector2>,
    pub influences: Seq<U16Vec4>,
    pub weights: Seq<Vector4>,
    pub indices: Seq<u16>,
    pub meshes: Seq<MeshModel>,
    pub bound: bool,
}

/// The views of a sequence of meshes.
pub open spec fn mesh_models(meshes: Seq<Mesh>) -> Seq<MeshModel> {
    Seq::new(meshes.len(), |i: int| meshes[i]@)
}

/// The indices of a buffer.
pub open spec fn indices_of(bytes: Seq<u8>, l: SkinLayout) -> Seq<u16> {
    Seq::new(l.index_count as nat, |i: int| u16_at(bytes, l.index_at(i)) as u16)
}

/// The vertex positions of a buffer.
pub open spec fn positions_of(bytes: Seq<u8>, l: SkinLayout) -> Seq<Vector3> {
    Seq::new(l.vertex_count as nat, |i: int| vector3_at(bytes, l.vertex_at(i)))
}

/// The bone slots of a buffer's vertices.
pub open spec fn influences_of(bytes: Seq<u8>, l: SkinLayout) -> Seq<U16Vec4> {
    Seq::new(l.vertex_count as nat, |i: int| influence_at(bytes, l.vertex_at(i) + 12))
}

/// The weights of a buffer's vertices.
pub open spec fn weights_of(bytes: Seq<u8>, l: SkinLayout) -> Seq<Vector4> {
    Seq::new(l.vertex_count as nat, |i: int| vector4_at(bytes, l.vertex_at(i) + 16))
}

/// The normals of a buffer's vertices, as stored.
pub open spec fn normals_of(bytes: Seq<u8>, l: SkinLayout) -> Seq<Vector3> {
    Seq::new(l.vertex_count as nat, |i: int| vector3_at(bytes, l.vertex_at(i) + 32))
}

/// The texture coordinates of a buffer's vertices.
pub open spec fn uvs_of(bytes: Seq<u8>, l: SkinLayout) -> Seq<Vector2> {
    Seq::new(l.vertex_count as nat, |i: int| vector2_at(bytes, l.vertex_at(i) + 44))
}

/// The bounding box of a buffer: the stored one where the version stores it,
/// else the box around the positions.
pub open spec fn box_of(bytes: Seq<u8>, l: SkinLayout) -> (Vector3, Vector3) {
    if l.extended {
        (vector3_at(bytes, l.table_end + 8), vector3_at(bytes, l.table_end + 20))
    } else {
        bounds_of(positions_of(bytes, l))
    }
}

/// The skin that a buffer encodes, or the reason why it encodes none. A buffer
/// whose layout is sound is refused only for a submesh that reaches beyond the
/// indices.
pub open spec fn decoded_skin(bytes: Seq<u8>) -> Result<SkinModel, DecodeError> {
    match skin_layout(bytes) {
        Err(e) => Err(e),
        Ok(l) => {
            let meshes = meshes_of(bytes, l);
            if !ranges_within(meshes, l.index_count as int) {
                Err(DecodeError::InvalidIndexRange)
            } else {
                Ok(
                    SkinModel {
                        major: l.major,
                        minor: l.minor,
                        bounding_box: box_of(bytes, l),
                        vertices: positions_of(bytes, l),
                        normals: normals_of(bytes, l),
                        uvs: uvs_of(bytes, l),
                        influences: influences_of(bytes, l),
                        weights: weights_of(bytes, l),
                        indices: indices_of(bytes, l),
                        meshes,
                        bound: false,
                    },
                )
            }
        },
    }
}

/// Mesh geometry with per-vertex skinning data.
#[derive(Clone, Debug, PartialEq, Eq)]
pub struct Skin {
    pub major: u16,
    pub minor: u16,
    /// The least and the greatest corner of the box around the vertices.
    pub bounding_box: [Vector3; 2],
    pub vertices: Vec<Vector3>,
    /// The normals as stored; their length is not adjusted here.
    pub normals: Vec<Vector3>,
    pub uvs: Vec<Vector2>,
    /// Per vertex, four bone references: palette slots until the skin is bound
    /// to a skeleton, joint indices afterwards.
    pub influences: Vec<U16Vec4>,
    pub weights: Vec<Vector4>,
    pub indices: Vec<u16>,
    pub meshes: Vec<Mesh>,
    /// Whether the bone references have been rewritten into joint indices.
    pub bound: bool,
}

impl View for Skin {
    type V = SkinModel;

    open spec fn view(&self) -> SkinModel {
        SkinModel {
            major: self.major,
            minor: self.minor,
            bounding_box: (self.bounding_box[0], self.bounding_box[1]),
            vertices: self.vertices@,
            normals: self.normals@,
            uvs: self.uvs@,
            influences: self.influences@,
            weights: self.weights@,
            indices: self.indices@,
            meshes: mesh_models(self.meshes@),
            bound: self.bound,
        }
    }
}

impl SkinModel {
    /// Every submesh lies inside the index sequence, and every vertex has each
    /// of its attributes.
    pub open spec fn well_formed(self) -> bool {
        &&& ranges_within(self.meshes, self.indices.len() as int)
        &&& self.normals.len() == self.vertices.len()
        &&& self.uvs.len() == self.vertices.len()
        &&& self.influences.len() == self.vertices.len()
        &&& self.weights.len() == self.vertices.len()
    }
}

/// Reads the submesh table.
fn read_table(bytes: &[u8], l: &SkinLayout) -> (meshes: Vec<Mesh>)
    requires
        skin_layout(bytes@) == Ok::<SkinLayout, DecodeError>(*l),
        l.major >= 1,
    ensures
        mesh_models(meshes@) == meshes_of(bytes@, *l),
{
    let len: usize = bytes.len();
    proof {
        lemma_skin_layout_fits(bytes@);
    }
    let mut meshes: Vec<Mesh> = Vec::new();
    let mut i: usize = 0;
    while i < l.table_count
        invariant
            i <= l.table_count,
            len == bytes@.len(),
            l.fits(len as int),
            l.major >= 1,
            meshes@.len() == i,
            forall|k: int| 0 <= k < i ==> (#[trigger] meshes@[k])@ == table_mesh(bytes@, *l, k),
        decreases l.table_count - i,
    {
        assert(SUBMESH_BYTES * i + SUBMESH_BYTES <= SUBMESH_BYTES * l.table_count) by {
            assert(SUBMESH_BYTES == 80);
        }
        let at: usize = HEADER_BYTES + 4 + SUBMESH_BYTES * i;
        let name = read_name(bytes, at, NAME_BYTES);
        let indices_offset: u32 = read_u32(bytes, at + 72);
        let indices_count: u32 = read_u32(bytes, at + 76);
        let mesh = Mesh::new(SubMeshHeader { name, indices_offset, indices_count, material_index: 0 });
        meshes.push(mesh);
        i += 1;
    }
    proof {
        assert(mesh_models(meshes@) =~= meshes_of(bytes@, *l));
    }
    meshes
}

/// Makes the one submesh of a skin that stores no table.
fn implicit_table(l: &SkinLayout) -> (meshes: Vec<Mesh>)
    requires
        l.index_count <= u32::MAX,
    ensures
        mesh_models(meshes@) == seq![base_mesh(*l)],
{
    let name: Vec<u8> = vec![0x42u8, 0x61u8, 0x73u8, 0x65u8];
    proof {
        assert(name@ =~= base_name());
    }
    let mesh = Mesh::new(
        SubMeshHeader {
            name,
            indices_offset: 0,
            indices_count: l.index_count as u32,
            material_index: 0,
        },
    );
    let mut meshes: Vec<Mesh> = Vec::new();
    meshes.push(mesh);
    proof {
        assert(mesh_models(meshes@) =~= seq![base_mesh(*l)]);
    }
    meshes
}

/// Tells whether every submesh ends inside `index_count` indices.
fn check_ranges(meshes: &Vec<Mesh>, index_count: usize) -> (ok: bool)
    ensures
        ok == ranges_within(mesh_models(meshes@), index_count as int),
{
    let mut i: usize = 0;
    while i < meshes.len()
        invariant
            i <= meshes.len(),
            forall|k: int|
                0 <= k < i ==> (#[trigger] mesh_models(meshes@)[k]).indices_offset + mesh_models(
                    meshes@,
                )[k].indices_count <= index_count,
        decreases meshes.len() - i,
    {
        let submesh = &meshes[i].submesh;
        if submesh.indices_offset as u64 + submesh.indices_count as u64 > index_count as u64 {
            proof {
                assert(mesh_models(meshes@)[i as int] == meshes@[i as int]@);
            }
            return false;
        }
        proof {
            assert(mesh_models(meshes@)[i as int] == meshes@[i as int]@);
        }
        i += 1;
    }
    true
}

/// Reads the index sequence.
fn read_indices(bytes: &[u8], l: &SkinLayout) -> (indices: Vec<u16>)
    requires
        skin_layout(bytes@) == Ok::<SkinLayout, DecodeError>(*l),
    ensures
        indices@ == indices_of(bytes@, *l),
{
    let len: usize = bytes.len();
    proof {
        lemma_skin_layout_fits(bytes@);
    }
    let mut indices: Vec<u16> = Vec::new();
    let mut i: usize = 0;
    while i < l.index_count
        invariant
            i <= l.index_count,
            len == bytes@.len(),
            l.fits(len as int),
            indices@.len() == i,
            forall|k: int|
                0 <= k < i ==> #[trigger] indices@[k] == u16_at(bytes@, l.index_at(k)) as u16,
        decreases l.index_count - i,
    {
        indices.push(read_u16(bytes, l.indices_at + 2 * i));
        i += 1;
    }
    proof {
        assert(indices@ =~= indices_of(bytes@, *l));
    }
    indices
}

/// Offset of vertex `i`.
fn vertex_offset(l: &SkinLayout, i: usize, Ghost(len): Ghost<int>) -> (at: usize)
    requires
        l.fits(len),
        len <= usize::MAX,
        i < l.vertex_count,
    ensures
        at == l.vertex_at(i as int),
        at + (if l.wide {
            WIDE_VERTEX_BYTES as int
        } else {
            VERTEX_BYTES as int
        }) <= len,
{
    assert(WIDE_VERTEX_BYTES == 56 && VERTEX_BYTES == 52);
    if l.wide {
        assert(56 * i + 56 <= 56 * l.vertex_count);
        l.vertices_at + WIDE_VERTEX_BYTES * i
    } else {
        assert(52 * i + 52 <= 52 * l.vertex_count);
        l.vertices_at + VERTEX_BYTES * i
    }
}

/// Reads the four bone slots at `at`.
fn read_influence(bytes: &[u8], at: usize) -> (q: U16Vec4)
    requires
        in_bounds(bytes@.len() as int, at as int, 4),
    ensures
        q == influence_at(bytes@, at as int),
{
    let len: usize = bytes.len();
    U16Vec4 {
        x: bytes[at] as u16,
        y: bytes[at + 1] as u16,
        z: bytes[at + 2] as u16,
        w: bytes[at + 3] as u16,
    }
}

/// The attributes of every vertex, one sequence per attribute.
struct VertexStreams {
    vertices: Vec<Vector3>,
    normals: Vec<Vector3>,
    uvs: Vec<Vector2>,
    influences: Vec<U16Vec4>,
    weights: Vec<Vector4>,
}

/// Reads the vertices.
fn read_vertices(bytes: &[u8], l: &SkinLayout) -> (v: VertexStreams)
    requires
        skin_layout(bytes@) == Ok::<SkinLayout, DecodeError>(*l),
    ensures
        v.vertices@ == positions_of(bytes@, *l),
        v.normals@ == normals_of(bytes@, *l),
        v.uvs@ == uvs_of(bytes@, *l),
        v.influences@ == influences_of(bytes@, *l),
        v.weights@ == weights_of(bytes@, *l),
{
    let len: usize = bytes.len();
    proof {
        lemma_skin_layout_fits(bytes@);
    }
    let mut vertices: Vec<Vector3> = Vec::new();
    let mut normals: Vec<Vector3> = Vec::new();
    let mut uvs: Vec<Vector2> = Vec::new();
    let mut influences: Vec<U16Vec4> = Vec::new();
    let mut weights: Vec<Vector4> = Vec::new();
    let mut i: usize = 0;
    while i < l.vertex_count
        invariant
            i <= l.vertex_count,
            len == bytes@.len(),
            l.fits(len as int),
            vertices@.len() == i,
            normals@.len() == i,
            uvs@.len() == i,
            influences@.len() == i,
            weights@.len() == i,
            forall|k: int|
                0 <= k < i ==> #[trigger] vertices@[k] == vector3_at(bytes@, l.vertex_at(k)),
            forall|k: int|
                0 <= k < i ==> #[trigger] influences@[k] == influence_at(
                    bytes@,
                    l.vertex_at(k) + 12,
                ),
            forall|k: int|
                0 <= k < i ==> #[trigger] weights@[k] == vector4_at(bytes@, l.vertex_at(k) + 16),
            forall|k: int|
                0 <= k < i ==> #[trigger] normals@[k] == vector3_at(bytes@, l.vertex_at(k) + 32),
            forall|k: int|
                0 <= k < i ==> #[trigger] uvs@[k] == vector2_at(bytes@, l.vertex_at(k) + 44),
        decreases l.vertex_count - i,
    {
        let at: usize = vertex_offset(l, i, Ghost(len as int));
        vertices.push(read_vector3(bytes, at));
        influences.push(read_influence(bytes, at + 12));
        weights.push(read_vector4(bytes, at + 16));
        normals.push(read_vector3(bytes, at + 32));
        uvs.push(read_vector2(bytes, at + 44));
        i += 1;
    }
    proof {
        assert(vertices@ =~= positions_of(bytes@, *l));
        assert(normals@ =~= normals_of(bytes@, *l));
        assert(uvs@ =~= uvs_of(bytes@, *l));
        assert(influences@ =~= influences_of(bytes@, *l));
        assert(weights@ =~= weights_of(bytes@, *l));
    }
    VertexStreams { vertices, normals, uvs, influences, weights }
}

/// Picks the lesser of two numbers, the first on a tie.
fn pick_lower(a: Ieee32, b: Ieee32) -> (r: Ieee32)
    ensures
        r == lower(a, b),
{
    if b.less_than(&a) {
        b
    } else {
        a
    }
}

/// Picks the greater of two numbers, the first on a tie.
fn pick_upper(a: Ieee32, b: Ieee32) -> (r: Ieee32)
    ensures
        r == upper(a, b),
{
    if a.less_than(&b) {
        b
    } else {
        a
    }
}

/// Computes the axis-aligned box around positions.
pub fn bounding_box(positions: &Vec<Vector3>) -> (b: [Vector3; 2])
    ensures
        (b[0], b[1]) == bounds_of(positions@),
{
    let top = Ieee32 { bits: MAX_BITS };
    let bottom = Ieee32 { bits: MIN_BITS };
    let mut lo = Vector3 { x: top, y: top, z: top };
    let mut hi = Vector3 { x: bottom, y: bottom, z: bottom };
    let mut i: usize = 0;
    while i < positions.len()
        invariant
            i <= positions.len(),
            (lo, hi) == bounds_of(positions@.take(i as int)),
        decreases positions.len() - i,
    {
        let p = positions[i];
        proof {
            assert(positions@.take(i + 1).drop_last() =~= positions@.take(i as int));
        }
        lo = Vector3 { x: pick_lower(lo.x, p.x), y: pick_lower(lo.y, p.y), z: pick_lower(lo.z, p.z) };
        hi = Vector3 { x: pick_upper(hi.x, p.x), y: pick_upper(hi.y, p.y), z: pick_upper(hi.z, p.z) };
        i += 1;
    }
    proof {
        assert(positions@.take(i as int) =~= positions@);
    }
    [lo, hi]
}

impl Skin {
    /// Decodes a skin. The result is the skin that the buffer encodes, with
    /// its bone references still palette slots, or the first reason, in the
    /// order of the fields, for which the buffer encodes none.
    pub fn read(contents: &Vec<u8>) -> (r: Result<Skin, DecodeError>)
        ensures
            match r {
                Ok(skin) => decoded_skin(contents@) == Ok::<SkinModel, DecodeError>(skin@)
                    && skin@.well_formed(),
                Err(e) => decoded_skin(contents@) == Err::<SkinModel, DecodeError>(e),
            },
    {
        let bytes: &[u8] = contents.as_slice();
        let len: usize = bytes.len();
        let l = match read_skin_layout(bytes) {
            Ok(l) => l,
            Err(e) => {
                return Err(e);
            },
        };
        proof {
            lemma_skin_layout_fits(bytes@);
        }
        let meshes = if l.major >= 1 {
            read_table(bytes, &l)
        } else {
            implicit_table(&l)
        };
        if !check_ranges(&meshes, l.index_count) {
            return Err(DecodeError::InvalidIndexRange);
        }
        let indices = read_indices(bytes, &l);
        let streams = read_vertices(bytes, &l);
        let bounding_box = if l.extended {
            [read_vector3(bytes, l.table_end + 8), read_vector3(bytes, l.table_end + 20)]
        } else {
            bounding_box(&streams.vertices)
        };
        Ok(
            Skin {
                major: l.major,
                minor: l.minor,
                bounding_box,
                vertices: streams.vertices,
                normals: streams.normals,
                uvs: streams.uvs,
                influences: streams.influences,
                weights: streams.weights,
                indices,
                meshes,
                bound: false,
            },
        )
    }
}

/// Decoding is a function of the bytes: skins decoded from equal buffers are
/// equal in every vertex, index and submesh.
pub proof fn lemma_decoding_is_deterministic(a: Seq<u8>, b: Seq<u8>, x: SkinModel, y: SkinModel)
    requires
        a =~= b,
        decoded_skin(a) == Ok::<SkinModel, DecodeError>(x),
        decoded_skin(b) == Ok::<SkinModel, DecodeError>(y),
    ensures
        x == y,
{
}

/// Every submesh of a decoded skin lies inside its index sequence, and a
/// buffer of sound layout with a submesh that does not is refused.
pub proof fn lemma_decoded_ranges(bytes: Seq<u8>)
    requires
        bytes.len() <= usize::MAX,
    ensures
        decoded_skin(bytes) matches Ok(skin) ==> skin.well_formed(),
        skin_layout(bytes) matches Ok(l) ==> (decoded_skin(bytes) == Err::<SkinModel, DecodeError>(
            DecodeError::InvalidIndexRange,
        ) <==> !ranges_within(meshes_of(bytes, l), l.index_count as int)),
{
    if let Ok(l) = skin_layout(bytes) {
        lemma_skin_layout_fits(bytes);
    }
}

/// A number lies between two others, bounds included.
pub open spec fn between(lo: Ieee32, v: Ieee32, hi: Ieee32) -> bool {
    lo.le(v) && v.le(hi)
}

/// The box around positions holds each of them: on every axis, a coordinate
/// that is a number lies between the corners.
pub proof fn lemma_bounds_enclose(positions: Seq<Vector3>, i: int)
    requires
        0 <= i < positions.len(),
    ensures
        !positions[i].x.is_nan() ==> between(
            bounds_of(positions).0.x,
            positions[i].x,
            bounds_of(positions).1.x,
        ),
        !positions[i].y.is_nan() ==> between(
            bounds_of(positions).0.y,
            positions[i].y,
            bounds_of(positions).1.y,
        ),
        !positions[i].z.is_nan() ==> between(
            bounds_of(positions).0.z,
            positions[i].z,
            bounds_of(positions).1.z,
        ),
    decreases positions.len(),
{
    let before = positions.drop_last();
    lemma_bounds_are_numbers(before);
    if i < before.len() {
        assert(before[i] == positions[i]);
        lemma_bounds_enclose(before, i);
    }
}

/// The corners of the box around positions are numbers.
pub proof fn lemma_bounds_are_numbers(positions: Seq<Vector3>)
    ensures
        !bounds_of(positions).0.x.is_nan() && !bounds_of(positions).1.x.is_nan(),
        !bounds_of(positions).0.y.is_nan() && !bounds_of(positions).1.y.is_nan(),
        !bounds_of(positions).0.z.is_nan() && !bounds_of(positions).1.z.is_nan(),
    decreases positions.len(),
{
    if positions.len() > 0 {
        lemma_bounds_are_numbers(positions.drop_last());
    }
}

} // verus!
