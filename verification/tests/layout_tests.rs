use bitfield_layout::classify::{type_bits, TypeClass, TypeRef};
use bitfield_layout::error::LayoutError;
use bitfield_layout::field::{FieldDescriptor, FieldName, FieldValue, SynthField};
use bitfield_layout::layout::{
    assemble, build_layout, resolve_fields, BitfieldLayout, Order, ResolvedField, StorageSpec,
};
use bitfield_layout::params::{ParamValue, Params};

fn name_of(s: &str) -> TypeRef {
    TypeRef::Name(s.to_string())
}

fn named(name: &str, ty: &str, bits: Option<u32>) -> FieldDescriptor {
    FieldDescriptor {
        name: FieldName::Named(name.to_string()),
        ty: name_of(ty),
        bits,
        into_hook: None,
        from_hook: None,
        default: None,
    }
}

fn padding(ty: &str, bits: u32) -> FieldDescriptor {
    FieldDescriptor {
        name: FieldName::Padding,
        ty: name_of(ty),
        bits: Some(bits),
        into_hook: None,
        from_hook: None,
        default: None,
    }
}

fn byte_storage(order: Order) -> StorageSpec {
    StorageSpec { total_bits: 8, order }
}

fn byte_fields() -> Vec<FieldDescriptor> {
    vec![
        named("kind", "usize", Some(4)),
        named("system", "bool", None),
        named("level", "usize", Some(2)),
        named("present", "bool", None),
    ]
}

#[test]
fn classify_primitives() {
    assert_eq!(type_bits(&name_of("bool")), (TypeClass::Bool, 1));
    assert_eq!(type_bits(&name_of("u8")), (TypeClass::UInt, 8));
    assert_eq!(type_bits(&name_of("u16")), (TypeClass::UInt, 16));
    assert_eq!(type_bits(&name_of("u32")), (TypeClass::UInt, 32));
    assert_eq!(type_bits(&name_of("u64")), (TypeClass::UInt, 64));
    assert_eq!(type_bits(&name_of("u128")), (TypeClass::UInt, 128));
    assert_eq!(type_bits(&name_of("i8")), (TypeClass::SInt, 8));
    assert_eq!(type_bits(&name_of("i16")), (TypeClass::SInt, 16));
    assert_eq!(type_bits(&name_of("i32")), (TypeClass::SInt, 32));
    assert_eq!(type_bits(&name_of("i64")), (TypeClass::SInt, 64));
    assert_eq!(type_bits(&name_of("i128")), (TypeClass::SInt, 128));
}

#[test]
fn classify_platform_sized_and_opaque() {
    assert_eq!(type_bits(&name_of("usize")), (TypeClass::UInt, 0));
    assert_eq!(type_bits(&name_of("isize")), (TypeClass::UInt, 0));
    assert_eq!(type_bits(&name_of("MyEnum")), (TypeClass::Opaque, 0));
    assert_eq!(type_bits(&TypeRef::Composite), (TypeClass::Opaque, 0));
}

#[test]
fn params_defaults() {
    let p = Params::new(&name_of("u64")).unwrap();
    assert_eq!(p.storage.total_bits, 64);
    assert_eq!(p.storage.order, Order::Lsb);
    assert!(p.debug);
    assert!(p.default);
}

#[test]
fn params_set_options() {
    let mut p = Params::new(&name_of("u32")).unwrap();
    assert_eq!(
        p.set_param(&"debug".to_string(), &ParamValue::Flag(false)),
        Ok(())
    );
    assert!(!p.debug);
    assert_eq!(
        p.set_param(&"default".to_string(), &ParamValue::Flag(false)),
        Ok(())
    );
    assert!(!p.default);
    assert_eq!(
        p.set_param(&"order".to_string(), &ParamValue::Name("Msb".to_string())),
        Ok(())
    );
    assert_eq!(p.storage.order, Order::Msb);
    assert_eq!(
        p.set_param(&"order".to_string(), &ParamValue::Name("lsb".to_string())),
        Ok(())
    );
    assert_eq!(p.storage.order, Order::Lsb);
}

#[test]
fn params_unknown_options() {
    let mut p = Params::new(&name_of("u8")).unwrap();
    assert_eq!(
        p.set_param(&"colour".to_string(), &ParamValue::Flag(true)),
        Err(LayoutError::UnknownConfigurationOption)
    );
    assert_eq!(
        p.set_param(&"order".to_string(), &ParamValue::Name("Middle".to_string())),
        Err(LayoutError::UnknownConfigurationOption)
    );
    assert_eq!(
        p.set_param(&"debug".to_string(), &ParamValue::Name("yes".to_string())),
        Err(LayoutError::UnknownConfigurationOption)
    );
    assert_eq!(p.storage.order, Order::Lsb);
    assert!(p.debug);
}

#[test]
fn storage_rejects_non_uint() {
    assert_eq!(
        Params::new(&name_of("i32")),
        Err(LayoutError::UnsupportedStorageType)
    );
    assert_eq!(
        Params::new(&name_of("usize")),
        Err(LayoutError::UnsupportedStorageType)
    );
    assert_eq!(
        Params::new(&name_of("bool")),
        Err(LayoutError::UnsupportedStorageType)
    );
    assert_eq!(
        StorageSpec::new(&name_of("MyStruct"), Order::Lsb),
        Err(LayoutError::UnsupportedStorageType)
    );
}

#[test]
fn lsb_offsets() {
    let l = build_layout(&byte_storage(Order::Lsb), &byte_fields()).unwrap();
    let offsets: Vec<u32> = l.fields.iter().map(|f| f.offset).collect();
    let widths: Vec<u32> = l.fields.iter().map(|f| f.width).collect();
    assert_eq!(widths, vec![4, 1, 2, 1]);
    assert_eq!(offsets, vec![0, 4, 5, 7]);
    assert_eq!(l.fields[0].mask, 0xf);
    assert_eq!(l.fields[1].mask, 0x1);
}

#[test]
fn msb_offsets_mirror_lsb() {
    let lsb = build_layout(&byte_storage(Order::Lsb), &byte_fields()).unwrap();
    let msb = build_layout(&byte_storage(Order::Msb), &byte_fields()).unwrap();
    assert_eq!(lsb.fields.len(), msb.fields.len());
    for (a, b) in lsb.fields.iter().zip(msb.fields.iter()) {
        assert_eq!(a.width, b.width);
        assert_eq!(b.offset, 8 - a.offset - a.width);
    }
    let offsets: Vec<u32> = msb.fields.iter().map(|f| f.offset).collect();
    assert_eq!(offsets, vec![4, 3, 1, 0]);
}

#[test]
fn ranges_are_disjoint() {
    for order in [Order::Lsb, Order::Msb] {
        let l = build_layout(&byte_storage(order), &byte_fields()).unwrap();
        for i in 0..l.fields.len() {
            for j in 0..l.fields.len() {
                if i != j {
                    let a = &l.fields[i];
                    let b = &l.fields[j];
                    assert!(
                        a.offset + a.width <= b.offset || b.offset + b.width <= a.offset,
                        "ranges of fields {i} and {j} overlap"
                    );
                }
            }
        }
    }
}

#[test]
fn coverage_is_exact() {
    let l = build_layout(&byte_storage(Order::Lsb), &byte_fields()).unwrap();
    let sum: u32 = l.fields.iter().map(|f| f.width).sum();
    assert_eq!(sum, 8);
}

#[test]
fn zero_width_is_rejected() {
    let r = build_layout(&byte_storage(Order::Lsb), &vec![named("x", "usize", None)]);
    assert_eq!(r.err(), Some(LayoutError::ZeroWidth));
    let r = build_layout(&byte_storage(Order::Lsb), &vec![named("x", "u8", Some(0))]);
    assert_eq!(r.err(), Some(LayoutError::ZeroWidth));
}

#[test]
fn width_overflow_is_rejected() {
    // an explicit width beyond the type's natural width
    let r = build_layout(&byte_storage(Order::Lsb), &vec![named("x", "u8", Some(9))]);
    assert_eq!(r.err(), Some(LayoutError::WidthOverflow));
    // a field whose range would cross the end of the storage word
    let r = build_layout(
        &byte_storage(Order::Lsb),
        &vec![named("x", "u8", Some(6)), named("y", "u8", Some(6))],
    );
    assert_eq!(r.err(), Some(LayoutError::WidthOverflow));
}

#[test]
fn missing_conversion_is_rejected() {
    let r = build_layout(&byte_storage(Order::Lsb), &vec![named("c", "MyEnum", Some(8))]);
    assert_eq!(r.err(), Some(LayoutError::MissingConversion));
}

#[test]
fn hooks_on_padding_are_rejected() {
    let mut p = padding("u8", 8);
    p.into_hook = Some("into_something".to_string());
    p.from_hook = Some("from_something".to_string());
    let r = build_layout(&byte_storage(Order::Lsb), &vec![p]);
    assert_eq!(r.err(), Some(LayoutError::HooksOnPadding));
}

#[test]
fn incomplete_layout_names_the_missing_bits() {
    let r = build_layout(&byte_storage(Order::Lsb), &vec![named("x", "u8", Some(5))]);
    assert_eq!(r.err(), Some(LayoutError::IncompleteLayout { missing: 3 }));
}

#[test]
fn oversized_assembly_names_the_excess() {
    let storage = byte_storage(Order::Lsb);
    let synths = {
        let descs = vec![named("a", "u8", Some(5)), named("b", "u8", Some(3))];
        let mut out: Vec<SynthField> = Vec::new();
        for d in &descs {
            out.push(bitfield_layout::field::synthesize(d).unwrap());
        }
        out
    };
    let fields: Vec<ResolvedField> = resolve_fields(&storage, &synths).unwrap();
    // hand the assembler the second field twice: 5 + 3 + 3 bits on 8
    let mut doubled: Vec<ResolvedField> = Vec::new();
    for f in fields {
        let again = f.width == 3;
        let copy = ResolvedField {
            name: FieldName::Padding,
            offset: f.offset,
            width: f.width,
            mask: f.mask,
            conversion: None,
            default: bitfield_layout::field::DefaultSource::RawBits(0),
            visible: false,
        };
        doubled.push(f);
        if again {
            doubled.push(copy);
        }
    }
    let r = assemble(&storage, doubled);
    assert_eq!(r.err(), Some(LayoutError::LayoutExceedsStorage { excess: 3 }));
}

#[test]
fn padding_takes_bits_without_accessors() {
    let l: BitfieldLayout = build_layout(
        &byte_storage(Order::Lsb),
        &vec![named("v", "u8", Some(5)), padding("u8", 3)],
    )
    .unwrap();
    assert_eq!(l.fields.len(), 2);
    assert!(l.fields[0].visible);
    assert!(!l.fields[1].visible);
    assert_eq!(l.fields[1].offset, 5);
    assert_eq!(l.fields[1].width, 3);
}

#[test]
fn first_error_wins() {
    // the zero-width first field is reported, not the later missing hooks
    let r = build_layout(
        &byte_storage(Order::Lsb),
        &vec![named("a", "u8", Some(0)), named("c", "MyEnum", Some(8))],
    );
    assert_eq!(r.err(), Some(LayoutError::ZeroWidth));
}

#[test]
fn explicit_width_on_opaque_is_accepted() {
    let mut c = named("c", "MyEnum", Some(5));
    c.into_hook = Some("MyEnum::into_bits".to_string());
    c.from_hook = Some("MyEnum::from_bits".to_string());
    let l = build_layout(&byte_storage(Order::Lsb), &vec![c, padding("u8", 3)]).unwrap();
    assert_eq!(l.fields[0].width, 5);
    assert!(l.fields[0].visible);
}

#[test]
fn empty_field_list_is_incomplete() {
    let r = build_layout(&byte_storage(Order::Lsb), &Vec::new());
    assert_eq!(r.err(), Some(LayoutError::IncompleteLayout { missing: 8 }));
}
