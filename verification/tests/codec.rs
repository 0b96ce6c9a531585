use gltforge_unity::bits::{is_negative, is_zero, neg, push_u16_le, push_u32_le};
use gltforge_unity::decode::{read_u16, read_u32, vec2, vec3_flip_x, vec4_flip_xw};
use gltforge_unity::mesh::name_or_index_string;
use gltforge_unity::primitive::{texcoord_string, wind};
use gltforge_unity::text::decimal_string;

#[test]
fn float_bits() {
    assert_eq!(f32::from_bits(neg(2.5f32.to_bits())), -2.5);
    assert_eq!(neg(0), 0x8000_0000);
    assert!(is_zero(0.0f32.to_bits()));
    assert!(is_zero((-0.0f32).to_bits()));
    assert!(!is_zero(1e-30f32.to_bits()));
    assert!(is_negative((-1.0f32).to_bits()));
    assert!(is_negative(f32::NEG_INFINITY.to_bits()));
    assert!(!is_negative((-0.0f32).to_bits()));
    assert!(!is_negative((-f32::NAN).to_bits()));
}

#[test]
fn little_endian_round_trip() {
    let mut b = Vec::new();
    push_u32_le(&mut b, 0x0102_0304);
    push_u16_le(&mut b, 0xABCD);
    assert_eq!(b, vec![4, 3, 2, 1, 0xCD, 0xAB]);
    assert_eq!(read_u32(&b, 0), 0x0102_0304);
    assert_eq!(read_u16(&b, 4), 0xABCD);
}

#[test]
fn vectors_decode_and_mirror() {
    let mut b = Vec::new();
    for v in [1.0f32, 2.0, 3.0, 4.0] {
        b.extend_from_slice(&v.to_le_bytes());
    }
    let v3 = vec3_flip_x(&b);
    assert_eq!(v3, vec![[(-1.0f32).to_bits(), 2.0f32.to_bits(), 3.0f32.to_bits()]]);
    let v4 = vec4_flip_xw(&b);
    assert_eq!(v4, vec![[(-1.0f32).to_bits(), 2.0f32.to_bits(), 3.0f32.to_bits(), (-4.0f32).to_bits()]]);
    let v2 = vec2(&b);
    assert_eq!(v2.len(), 2);
    assert_eq!(v2[1], [3.0f32.to_bits(), 4.0f32.to_bits()]);
}

#[test]
fn names_and_numerals() {
    assert_eq!(decimal_string(0), "0");
    assert_eq!(decimal_string(907), "907");
    assert_eq!(texcoord_string(12), "TEXCOORD_12");
    assert_eq!(name_or_index_string(&None, 42), "42");
    assert_eq!(name_or_index_string(&Some("Body".to_string()), 42), "Body");
}

#[test]
fn winding_twice_gives_back_complete_triangles() {
    let raw = vec![4, 5, 6, 7, 8, 9, 1];
    assert_eq!(wind(&wind(&raw)), vec![4, 5, 6, 7, 8, 9]);
}
