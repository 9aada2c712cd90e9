use skinned::ieee::Ieee32;
use skinned::wire::{read_ieee, read_name, read_u16, read_u32, read_vector2, read_vector3, read_vector4};

#[test]
fn sixteen_bits_are_read_least_byte_first() {
    assert_eq!(read_u16(&[0x34, 0x12], 0), 0x1234);
    assert_eq!(read_u16(&[0xff, 0x01, 0x02], 1), 0x0201);
}

#[test]
fn thirty_two_bits_are_read_least_byte_first() {
    assert_eq!(read_u32(&[0x01, 0x02, 0x03, 0x04], 0), 0x0403_0201);
    assert_eq!(read_u32(&[0, 0, 0xff, 0xff, 0xff, 0xff], 2), u32::MAX);
}

#[test]
fn a_number_keeps_its_bits() {
    let bytes = 0.5f32.to_le_bytes();
    assert_eq!(read_ieee(&bytes, 0), Ieee32 { bits: 0x3f00_0000 });
    assert_eq!(f32::from_bits(read_ieee(&bytes, 0).bits), 0.5f32);
}

#[test]
fn vectors_are_read_in_field_order() {
    let mut bytes = vec![0xaau8];
    for v in [1.0f32, 2.0, 3.0, 4.0] {
        bytes.extend_from_slice(&v.to_le_bytes());
    }
    let v2 = read_vector2(&bytes, 1);
    assert_eq!((v2.x.bits, v2.y.bits), (1.0f32.to_bits(), 2.0f32.to_bits()));
    let v3 = read_vector3(&bytes, 1);
    assert_eq!(
        (v3.x.bits, v3.y.bits, v3.z.bits),
        (1.0f32.to_bits(), 2.0f32.to_bits(), 3.0f32.to_bits())
    );
    let v4 = read_vector4(&bytes, 1);
    assert_eq!(
        (v4.x.bits, v4.y.bits, v4.z.bits, v4.w.bits),
        (1.0f32.to_bits(), 2.0f32.to_bits(), 3.0f32.to_bits(), 4.0f32.to_bits())
    );
}

#[test]
fn a_name_loses_its_padding_only() {
    let field = [b'B', b'o', 0, b'd', b'y', 0, 0, 0];
    assert_eq!(read_name(&field, 0, 8), b"Bo\0dy".to_vec());
    assert_eq!(read_name(&field, 5, 3), Vec::<u8>::new());
    assert_eq!(read_name(&field, 0, 2), b"Bo".to_vec());
    assert_eq!(read_name(&field, 3, 0), Vec::<u8>::new());
}
