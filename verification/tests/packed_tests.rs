use bitfield_layout::classify::TypeRef;
use bitfield_layout::error::LayoutError;
use bitfield_layout::field::{FieldDescriptor, FieldName, FieldValue};
use bitfield_layout::layout::{build_layout, BitfieldLayout, Order, StorageSpec};
use bitfield_layout::packed::{debug_fields, value_fits, Packed};

fn ty(s: &str) -> TypeRef {
    TypeRef::Name(s.to_string())
}

fn field(name: &str, tyname: &str, bits: Option<u32>) -> FieldDescriptor {
    FieldDescriptor {
        name: FieldName::Named(name.to_string()),
        ty: ty(tyname),
        bits,
        into_hook: None,
        from_hook: None,
        default: None,
    }
}

fn pad(tyname: &str, bits: u32) -> FieldDescriptor {
    FieldDescriptor {
        name: FieldName::Padding,
        ty: ty(tyname),
        bits: Some(bits),
        into_hook: None,
        from_hook: None,
        default: None,
    }
}

fn byte_layout(order: Order) -> BitfieldLayout {
    let storage = StorageSpec { total_bits: 8, order };
    let descs = vec![
        field("kind", "usize", Some(4)),
        field("system", "bool", None),
        field("level", "usize", Some(2)),
        field("present", "bool", None),
    ];
    build_layout(&storage, &descs).unwrap()
}

#[test]
fn lsb_byte_example() {
    let l = byte_layout(Order::Lsb);
    let p = Packed::new(&l)
        .with(&l.fields[0], &FieldValue::UInt(15))
        .with(&l.fields[1], &FieldValue::Bool(false))
        .with(&l.fields[2], &FieldValue::UInt(3))
        .with(&l.fields[3], &FieldValue::Bool(true));
    assert_eq!(p.to_raw(), 0b1_11_0_1111);
    assert_eq!(p.get(&l.fields[3]), FieldValue::Bool(true));
}

#[test]
fn lsb_byte_example_other_values() {
    let l = byte_layout(Order::Lsb);
    let p = Packed::new(&l)
        .with(&l.fields[0], &FieldValue::UInt(10))
        .with(&l.fields[1], &FieldValue::Bool(false))
        .with(&l.fields[2], &FieldValue::UInt(2))
        .with(&l.fields[3], &FieldValue::Bool(true));
    assert_eq!(p.to_raw(), 0b1_10_0_1010);
}

#[test]
fn msb_byte_example() {
    let l = byte_layout(Order::Msb);
    let p = Packed::new(&l)
        .with(&l.fields[0], &FieldValue::UInt(10))
        .with(&l.fields[1], &FieldValue::Bool(false))
        .with(&l.fields[2], &FieldValue::UInt(2))
        .with(&l.fields[3], &FieldValue::Bool(true));
    assert_eq!(p.to_raw(), 0b1010_0_10_1);
}

#[test]
fn signed_narrow_field_round_trip() {
    // an 8-bit signed type declared with an explicit 5-bit width
    let storage = StorageSpec { total_bits: 8, order: Order::Lsb };
    let l = build_layout(&storage, &vec![field("val", "i8", Some(5)), pad("u8", 3)]).unwrap();
    let p = Packed::new(&l).with(&l.fields[0], &FieldValue::SInt(-3));
    assert_eq!(p.get(&l.fields[0]), FieldValue::SInt(-3));
    // 16 is outside the 5-bit signed range [-16, 15]
    assert_eq!(
        p.try_with(&l.fields[0], &FieldValue::SInt(16)),
        Err(LayoutError::BoundsViolation)
    );
}

#[test]
fn signed_range_boundaries() {
    let storage = StorageSpec { total_bits: 8, order: Order::Lsb };
    let l = build_layout(&storage, &vec![field("val", "i8", Some(5)), pad("u8", 3)]).unwrap();
    let f = &l.fields[0];
    let base = Packed::new(&l);
    for v in [-16i128, -1, 0, 1, 15] {
        let p = base.with(f, &FieldValue::SInt(v));
        assert_eq!(p.get(f), FieldValue::SInt(v), "round trip of {v}");
    }
    assert!(value_fits(&FieldValue::SInt(-16), f.conversion.as_ref().unwrap(), f.width));
    assert!(value_fits(&FieldValue::SInt(15), f.conversion.as_ref().unwrap(), f.width));
    assert!(!value_fits(&FieldValue::SInt(-17), f.conversion.as_ref().unwrap(), f.width));
    assert!(!value_fits(&FieldValue::SInt(16), f.conversion.as_ref().unwrap(), f.width));
}

#[test]
fn unsigned_bounds_check() {
    let l = byte_layout(Order::Lsb);
    let p = Packed::new(&l);
    assert_eq!(
        p.try_with(&l.fields[0], &FieldValue::UInt(16)),
        Err(LayoutError::BoundsViolation)
    );
    let q = p.try_with(&l.fields[0], &FieldValue::UInt(15)).unwrap();
    assert_eq!(q.get(&l.fields[0]), FieldValue::UInt(15));
}

#[test]
fn mismatched_value_shape_is_a_bounds_violation() {
    let l = byte_layout(Order::Lsb);
    let p = Packed::new(&l);
    assert_eq!(
        p.try_with(&l.fields[0], &FieldValue::Bool(true)),
        Err(LayoutError::BoundsViolation)
    );
}

#[test]
fn writes_preserve_other_fields() {
    let l = byte_layout(Order::Lsb);
    let mut p = Packed::new(&l)
        .with(&l.fields[0], &FieldValue::UInt(9))
        .with(&l.fields[2], &FieldValue::UInt(1));
    p.set(&l.fields[1], &FieldValue::Bool(true));
    assert_eq!(p.get(&l.fields[0]), FieldValue::UInt(9));
    assert_eq!(p.get(&l.fields[1]), FieldValue::Bool(true));
    assert_eq!(p.get(&l.fields[2]), FieldValue::UInt(1));
    assert_eq!(p.get(&l.fields[3]), FieldValue::Bool(false));
}

#[test]
fn in_place_update_equals_functional_update() {
    let l = byte_layout(Order::Lsb);
    let base = Packed::new(&l).with(&l.fields[0], &FieldValue::UInt(7));
    let functional = base.with(&l.fields[2], &FieldValue::UInt(2));
    let mut in_place = base;
    in_place.set(&l.fields[2], &FieldValue::UInt(2));
    assert_eq!(in_place, functional);
    let mut guarded = base;
    assert_eq!(guarded.try_set(&l.fields[2], &FieldValue::UInt(2)), Ok(()));
    assert_eq!(guarded, functional);
    assert_eq!(
        guarded.try_set(&l.fields[2], &FieldValue::UInt(4)),
        Err(LayoutError::BoundsViolation)
    );
    assert_eq!(guarded, functional);
}

#[test]
fn raw_conversions_are_bit_identity() {
    let p = Packed::from_raw(0xAB);
    assert_eq!(p.to_raw(), 0xAB);
    assert_eq!(Packed::from_raw(u128::MAX).to_raw(), u128::MAX);
}

#[test]
fn default_composition() {
    // defaults: kind = 5, flag = true, padding pattern 0b101
    let storage = StorageSpec { total_bits: 8, order: Order::Lsb };
    let mut kind = field("kind", "u8", Some(4));
    kind.default = Some(FieldValue::UInt(5));
    let mut flag = field("flag", "bool", None);
    flag.default = Some(FieldValue::Bool(true));
    let mut fill = pad("u8", 3);
    fill.default = Some(FieldValue::UInt(0b101));
    let l = build_layout(&storage, &vec![kind, flag, fill]).unwrap();
    let p = Packed::new(&l);
    assert_eq!(p.to_raw(), (5) | (1 << 4) | (0b101 << 5));
    assert_eq!(p.get(&l.fields[0]), FieldValue::UInt(5));
    assert_eq!(p.get(&l.fields[1]), FieldValue::Bool(true));
}

#[test]
fn default_out_of_bounds_is_reported() {
    let storage = StorageSpec { total_bits: 8, order: Order::Lsb };
    let mut kind = field("kind", "u8", Some(4));
    kind.default = Some(FieldValue::UInt(16));
    let l = build_layout(&storage, &vec![kind, pad("u8", 4)]).unwrap();
    assert_eq!(Packed::try_new(&l), Err(LayoutError::BoundsViolation));
}

#[test]
fn wide_bitfield_with_custom_type() {
    // u64 storage: int: u16, flag: bool (default true), tiny: u8 (1 bit),
    // negative: i16 (13 bits), custom: opaque (16 bits), public: usize
    // (12 bits), 5 bits of padding
    let storage = StorageSpec { total_bits: 64, order: Order::Lsb };
    let mut flag = field("flag", "bool", None);
    flag.default = Some(FieldValue::Bool(true));
    let mut custom = field("custom", "CustomEnum", Some(16));
    custom.into_hook = Some("CustomEnum::into_bits".to_string());
    custom.from_hook = Some("CustomEnum::from_bits".to_string());
    let descs = vec![
        field("int", "u16", None),
        flag,
        field("tiny", "u8", Some(1)),
        field("negative", "i16", Some(13)),
        custom,
        field("public", "usize", Some(12)),
        pad("u8", 5),
    ];
    let l = build_layout(&storage, &descs).unwrap();

    // named constants: FLAG_BITS == 1, FLAG_OFFSET == 16
    assert_eq!(l.fields[1].width, 1);
    assert_eq!(l.fields[1].offset, 16);

    let mut p = Packed::new(&l)
        .with(&l.fields[0], &FieldValue::UInt((3u16 << 15) as u128))
        .with(&l.fields[2], &FieldValue::UInt(1))
        .with(&l.fields[3], &FieldValue::SInt(-3))
        .with(&l.fields[4], &FieldValue::Opaque(1))
        .with(&l.fields[5], &FieldValue::UInt(2));

    assert_eq!(p.get(&l.fields[0]), FieldValue::UInt((3u16 << 15) as u128));
    assert_eq!(p.get(&l.fields[1]), FieldValue::Bool(true));
    assert_eq!(p.get(&l.fields[2]), FieldValue::UInt(1));
    assert_eq!(p.get(&l.fields[3]), FieldValue::SInt(-3));
    assert_eq!(p.get(&l.fields[4]), FieldValue::Opaque(1));
    assert_eq!(p.get(&l.fields[5]), FieldValue::UInt(2));

    p.set(&l.fields[3], &FieldValue::SInt(1));
    assert_eq!(p.get(&l.fields[3]), FieldValue::SInt(1));
}

#[test]
fn full_width_fields_round_trip() {
    let storage = StorageSpec { total_bits: 128, order: Order::Lsb };
    let l = build_layout(&storage, &vec![field("all", "u128", None)]).unwrap();
    let p = Packed::new(&l).with(&l.fields[0], &FieldValue::UInt(u128::MAX));
    assert_eq!(p.get(&l.fields[0]), FieldValue::UInt(u128::MAX));
    assert_eq!(p.to_raw(), u128::MAX);

    let l = build_layout(&storage, &vec![field("all", "i128", None)]).unwrap();
    for v in [i128::MIN, -1, 0, 1, i128::MAX] {
        let p = Packed::new(&l).with(&l.fields[0], &FieldValue::SInt(v));
        assert_eq!(p.get(&l.fields[0]), FieldValue::SInt(v), "round trip of {v}");
    }
}

#[test]
fn msb_padding_sits_in_the_low_bits() {
    let storage = StorageSpec { total_bits: 8, order: Order::Msb };
    let l = build_layout(&storage, &vec![field("v", "u8", Some(5)), pad("u8", 3)]).unwrap();
    assert_eq!(l.fields[0].offset, 3);
    assert_eq!(l.fields[1].offset, 0);
    let p = Packed::new(&l).with(&l.fields[0], &FieldValue::UInt(0b10110));
    assert_eq!(p.to_raw(), 0b10110_000);
}

#[test]
fn debug_lists_named_fields_only() {
    let storage = StorageSpec { total_bits: 8, order: Order::Lsb };
    let l = build_layout(&storage, &vec![field("v", "u8", Some(5)), pad("u8", 3)]).unwrap();
    let p = Packed::new(&l).with(&l.fields[0], &FieldValue::UInt(21));
    let listed = debug_fields(&l, &p);
    assert_eq!(listed.len(), 1);
    assert_eq!(listed[0].0, "v".to_string());
    assert_eq!(listed[0].1, FieldValue::UInt(21));
}
