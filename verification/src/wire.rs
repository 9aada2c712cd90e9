//! Little-endian fields at byte offsets of a buffer.

use vstd::prelude::*;
use vstd::slice::slice_subrange;
use crate::ieee::{Ieee32, Vector2, Vector3, Vector4};

verus! {

/// The unsigned 16-bit value whose little-endian bytes start at `at`.
pub open spec fn u16_at(bytes: Seq<u8>, at: int) -> int {
    bytes[at] + 0x100 * bytes[at + 1]
}

/// The unsigned 32-bit value whose little-endian bytes start at `at`.
pub open spec fn u32_at(bytes: Seq<u8>, at: int) -> int {
    bytes[at] + 0x100 * bytes[at + 1] + 0x1_0000 * bytes[at + 2] + 0x100_0000 * bytes[at + 3]
}

/// True when `width` bytes starting at `at` lie inside a buffer of `len` bytes.
pub open spec fn in_bounds(len: int, at: int, width: int) -> bool {
    0 <= at && 0 <= width && at + width <= len
}

/// `byteorder::LittleEndian::read_u16`: the first two bytes of the slice, the
/// first one least significant. The slice must hold two bytes; the outside
/// function panics on a shorter one.
#[verifier::external_body]
fn le_u16(buf: &[u8]) -> (v: u16)
    requires
        buf@.len() >= 2,
    ensures
        v == u16_at(buf@, 0),
{
    <byteorder::LittleEndian as byteorder::ByteOrder>::read_u16(buf)
}

/// `byteorder::LittleEndian::read_u32`: the first four bytes of the slice, the
/// first one least significant. The slice must hold four bytes; the outside
/// function panics on a shorter one.
#[verifier::external_body]
fn le_u32(buf: &[u8]) -> (v: u32)
    requires
        buf@.len() >= 4,
    ensures
        v == u32_at(buf@, 0),
{
    <byteorder::LittleEndian as byteorder::ByteOrder>::read_u32(buf)
}

/// Reads the 16-bit field at `at`.
pub fn read_u16(bytes: &[u8], at: usize) -> (v: u16)
    requires
        in_bounds(bytes@.len() as int, at as int, 2),
    ensures
        v == u16_at(bytes@, at as int),
{
    let len: usize = bytes.len();
    assert(at + 2 <= len);
    le_u16(slice_subrange(bytes, at, at + 2))
}

/// Reads the 32-bit field at `at`.
pub fn read_u32(bytes: &[u8], at: usize) -> (v: u32)
    requires
        in_bounds(bytes@.len() as int, at as int, 4),
    ensures
        v == u32_at(bytes@, at as int),
{
    let len: usize = bytes.len();
    assert(at + 4 <= len);
    le_u32(slice_subrange(bytes, at, at + 4))
}

/// The number whose four bytes start at `at`.
pub open spec fn ieee_at(bytes: Seq<u8>, at: int) -> Ieee32 {
    Ieee32 { bits: u32_at(bytes, at) as u32 }
}

/// Two consecutive numbers starting at `at`.
pub open spec fn vector2_at(bytes: Seq<u8>, at: int) -> Vector2 {
    Vector2 { x: ieee_at(bytes, at), y: ieee_at(bytes, at + 4) }
}

/// Three consecutive numbers starting at `at`.
pub open spec fn vector3_at(bytes: Seq<u8>, at: int) -> Vector3 {
    Vector3 { x: ieee_at(bytes, at), y: ieee_at(bytes, at + 4), z: ieee_at(bytes, at + 8) }
}

/// Four consecutive numbers starting at `at`.
pub open spec fn vector4_at(bytes: Seq<u8>, at: int) -> Vector4 {
    Vector4 {
        x: ieee_at(bytes, at),
        y: ieee_at(bytes, at + 4),
        z: ieee_at(bytes, at + 8),
        w: ieee_at(bytes, at + 12),
    }
}

/// Reads the number at `at`.
pub fn read_ieee(bytes: &[u8], at: usize) -> (v: Ieee32)
    requires
        in_bounds(bytes@.len() as int, at as int, 4),
    ensures
        v == ieee_at(bytes@, at as int),
{
    Ieee32 { bits: read_u32(bytes, at) }
}

/// Reads the two numbers at `at`.
pub fn read_vector2(bytes: &[u8], at: usize) -> (v: Vector2)
    requires
        in_bounds(bytes@.len() as int, at as int, 8),
    ensures
        v == vector2_at(bytes@, at as int),
{
    let len: usize = bytes.len();
    Vector2 { x: read_ieee(bytes, at), y: read_ieee(bytes, at + 4) }
}

/// Reads the three numbers at `at`.
pub fn read_vector3(bytes: &[u8], at: usize) -> (v: Vector3)
    requires
        in_bounds(bytes@.len() as int, at as int, 12),
    ensures
        v == vector3_at(bytes@, at as int),
{
    let len: usize = bytes.len();
    Vector3 { x: read_ieee(bytes, at), y: read_ieee(bytes, at + 4), z: read_ieee(bytes, at + 8) }
}

/// Reads the four numbers at `at`.
pub fn read_vector4(bytes: &[u8], at: usize) -> (v: Vector4)
    requires
        in_bounds(bytes@.len() as int, at as int, 16),
    ensures
        v == vector4_at(bytes@, at as int),
{
    let len: usize = bytes.len();
    Vector4 {
        x: read_ieee(bytes, at),
        y: read_ieee(bytes, at + 4),
        z: read_ieee(bytes, at + 8),
        w: read_ieee(bytes, at + 12),
    }
}

/// A byte string without the zero bytes at its end.
pub open spec fn trim_nul(s: Seq<u8>) -> Seq<u8>
    decreases s.len(),
{
    if s.len() > 0 && s.last() == 0 {
        trim_nul(s.drop_last())
    } else {
        s
    }
}

/// The name held in a field of `width` bytes at `at`, padded with zero bytes.
pub open spec fn name_at(bytes: Seq<u8>, at: int, width: int) -> Seq<u8> {
    trim_nul(bytes.subrange(at, at + width))
}

/// Reads a zero-padded name field. Zero bytes inside the name are kept; only
/// those at the end are padding.
pub fn read_name(bytes: &[u8], at: usize, width: usize) -> (name: Vec<u8>)
    requires
        in_bounds(bytes@.len() as int, at as int, width as int),
    ensures
        name@ == name_at(bytes@, at as int, width as int),
{
    let len: usize = bytes.len();
    let ghost field = bytes@.subrange(at as int, at + width);
    let mut end: usize = width;
    proof {
        assert(field.take(width as int) =~= field);
    }
    while end > 0 && bytes[at + end - 1] == 0
        invariant
            end <= width,
            at + width <= len,
            len == bytes@.len(),
            field == bytes@.subrange(at as int, at + width),
            trim_nul(field) == trim_nul(field.take(end as int)),
        decreases end,
    {
        proof {
            assert(field.take(end as int).last() == bytes@[at + end - 1]);
            assert(field.take(end as int).drop_last() =~= field.take(end - 1));
        }
        end -= 1;
    }
    proof {
        if end > 0 {
            assert(field.take(end as int).last() == bytes@[at + end - 1]);
        }
        assert(trim_nul(field.take(end as int)) == field.take(end as int));
        assert(field.take(end as int) =~= bytes@.subrange(at as int, at + end));
    }
    let mut name: Vec<u8> = Vec::new();
    let mut i: usize = 0;
    while i < end
        invariant
            i <= end,
            at + end <= len,
            len == bytes@.len(),
            name@ == bytes@.subrange(at as int, at + i),
        decreases end - i,
    {
        name.push(bytes[at + i]);
        proof {
            assert(name@ =~= bytes@.subrange(at as int, at + i + 1));
        }
        i += 1;
    }
    name
}

} // verus!
