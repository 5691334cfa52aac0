use bitbybit::{
    base_type, bitfield, from_offset, is_arbitrary_int, pack, resolve, type_width, unpack, widen, with_offset,
    Annotation, BitRange, BitSize, Config, EnumSchema, FieldConfig, FieldSchema, Layout, Mode, SchemaError,
    StorageWidth, UInt,
};

fn field(width: u32) -> FieldSchema {
    FieldSchema { width, range: None, mode: Mode::ReadWrite, stride: None }
}

fn foo_enum() -> EnumSchema {
    EnumSchema { width: 2, discriminants: vec![0, 1, 2, 3], exhaustive: true }
}

fn my_struct() -> Layout {
    let f1 = type_width("u7").unwrap();
    resolve(StorageWidth::U16, &vec![field(f1), field(2)]).unwrap()
}

#[test]
fn foo() {
    let layout = my_struct();
    let e = foo_enum();
    assert_eq!(e.validate(), Ok(()));
    let off = layout.fields[1].offset;
    let s = e.pack(0, off, 3);
    assert_eq!(e.unpack(s, off), Some(3));
}

#[test]
fn enum_field_set_and_read_example() {
    let layout = my_struct();
    assert_eq!(layout.fields[1].offset, 7);
    let e = foo_enum();
    let raw: u128 = 0b1111_1110_0111_1111 & 0xFFFF;
    let r = e.pack(raw, 7, 2);
    assert_eq!(e.unpack(r, 7), Some(2));
    assert_eq!((r >> 7) & 0b11, 0b10);
    assert_eq!(r & !(0b11 << 7), raw & !(0b11 << 7));
    assert_eq!(layout.get(r, 1), 2);
}

#[test]
fn round_trip_keeps_other_bits() {
    let raw: u128 = 0xFFFF_FFFF;
    let v = UInt::<5>::new(0b10010);
    let r = with_offset(&v, raw, 3);
    let back: UInt<5> = from_offset(r, 3);
    assert_eq!(back.value(), 0b10010);
    assert_eq!(r & !(0b11111 << 3), raw & !(0b11111 << 3));
    assert_eq!(r, 0xFFFF_FF97);
}

#[test]
fn round_trip_native_and_bool() {
    let r = with_offset(&0xABu8, 0x1234, 4);
    assert_eq!(r, 0x1AB4);
    let b: u8 = from_offset(r, 4);
    assert_eq!(b, 0xAB);
    let r = with_offset(&false, 0xFF, 2);
    assert_eq!(r, 0xFB);
    let f: bool = from_offset(r, 2);
    assert!(!f);
    let r = with_offset(&true, 0, 127);
    assert_eq!(r, 1u128 << 127);
    assert_eq!(<u16 as BitSize>::bits(), 16);
}

#[test]
fn option_presence_bit_and_payload() {
    let some: Option<UInt<3>> = Some(UInt::<3>::new(5));
    let r = with_offset(&some, 0, 0);
    assert_eq!(r, 0b1011);
    let back: Option<UInt<3>> = from_offset(r, 0);
    assert_eq!(back.map(|x| x.value()), Some(5));
    // An absent value clears only the presence bit.
    let none: Option<UInt<3>> = None;
    let r2 = with_offset(&none, r, 0);
    assert_eq!(r2, 0b1010);
    let back2: Option<UInt<3>> = from_offset(r2, 0);
    assert!(back2.is_none());
    assert_eq!(<Option<UInt<3>> as BitSize>::bits(), 4);
}

#[test]
fn pair_packs_in_declared_order() {
    let v = (UInt::<3>::new(0b101), true);
    let r = with_offset(&v, 0, 2);
    assert_eq!(r, 0b1_101_00);
    let back: (UInt<3>, bool) = from_offset(r, 2);
    assert_eq!(back.0.value(), 0b101);
    assert!(back.1);
    assert_eq!(<(UInt<3>, bool) as BitSize>::bits(), 4);
}

#[test]
fn zero_width_value_is_a_no_op() {
    assert_eq!(with_offset(&(), 0xDEAD, 5), 0xDEAD);
    assert_eq!(<() as BitSize>::bits(), 0);
    let u: () = from_offset(0xDEAD, 5);
    assert_eq!(u, ());
}

#[test]
fn offsets_add_up() {
    let l = resolve(StorageWidth::U32, &vec![field(3), field(5), field(0), field(7)]).unwrap();
    let offs: Vec<u32> = l.fields.iter().map(|f| f.offset).collect();
    assert_eq!(offs, vec![0, 3, 8, 8]);
    assert_eq!(l.total, 15);
}

#[test]
fn zero_width_filler_does_not_shift() {
    let plain = resolve(StorageWidth::U16, &vec![field(9), field(5)]).unwrap();
    let filled = resolve(StorageWidth::U16, &vec![field(9), field(0), field(0), field(5)]).unwrap();
    assert_eq!(plain.fields[1].offset, 9);
    assert_eq!(filled.fields[3].offset, 9);
    assert_eq!(filled.fields[1].offset, 9);
    assert_eq!(plain.total, 14);
    assert_eq!(filled.total, plain.total);
}

#[test]
fn overflow_is_rejected() {
    let r = resolve(StorageWidth::U8, &vec![field(4), field(5)]);
    assert_eq!(r.unwrap_err(), SchemaError::Overflow { field: 1, needed: 9, available: 8 });
    assert!(resolve(StorageWidth::U8, &vec![field(4), field(4)]).is_ok());
}

#[test]
fn explicit_ranges() {
    let mut fields = vec![field(3), field(2)];
    fields[1].range = Some(BitRange { start: 10, end: 12 });
    let l = resolve(StorageWidth::U16, &fields).unwrap();
    assert_eq!(l.fields[1].offset, 10);
    assert_eq!(l.total, 12);
    fields[1].range = Some(BitRange { start: 10, end: 13 });
    assert_eq!(resolve(StorageWidth::U16, &fields).unwrap_err(), SchemaError::MalformedAnnotation);
    fields[1].range = Some(BitRange { start: 15, end: 17 });
    assert_eq!(
        resolve(StorageWidth::U16, &fields).unwrap_err(),
        SchemaError::Overflow { field: 1, needed: 17, available: 16 }
    );
}

#[test]
fn nested_record_matches_manual_packing() {
    let inner = my_struct();
    let e = foo_enum();
    let inner_raw = e.pack(0, 7, 2);
    let outer = resolve(
        StorageWidth::U16,
        &vec![field(inner.total), field(0), field(0), field(5)],
    )
    .unwrap();
    let raw = outer.set(0, 3, 4);
    let nested = outer.set_nested(raw, 0, &inner, inner_raw);
    let manual = (raw & !0x1FF) | inner_raw;
    assert_eq!(nested, manual);
    let back = outer.get_nested(nested, 0, &inner);
    assert_eq!(back, inner_raw);
    assert_eq!(e.unpack(back, 7), Some(2));
    assert_eq!(outer.get(nested, 3), 4);
}

#[test]
fn typed_field_access() {
    let l = my_struct();
    let raw = l.write(0, 0, &UInt::<7>::new(100));
    let v: UInt<7> = l.read(raw, 0);
    assert_eq!(v.value(), 100);
    assert_eq!(l.get(raw, 1), 0);
}

#[test]
fn widening_keeps_the_value() {
    let v = UInt::<5>::new(21);
    let narrow = pack(StorageWidth::U8, &v, 0xE0, 0);
    assert_eq!(narrow, 0xF5);
    let wide = widen(StorageWidth::U8, StorageWidth::U16, narrow);
    let back: UInt<5> = unpack(StorageWidth::U16, wide, 0);
    assert_eq!(back.value(), 21);
}

#[test]
fn exhaustive_enum_is_total() {
    let e = foo_enum();
    assert_eq!(e.validate(), Ok(()));
    for p in 0..4u128 {
        assert_eq!(e.lookup(p), Some(p as usize));
    }
    let partial = EnumSchema { width: 2, discriminants: vec![0, 1, 2], exhaustive: true };
    assert_eq!(partial.validate(), Err(SchemaError::WrongVariantCount { variants: 3 }));
    let dup = EnumSchema { width: 2, discriminants: vec![0, 1, 1, 3], exhaustive: true };
    assert_eq!(dup.validate(), Err(SchemaError::NotExhaustive { pattern: 2 }));
    let open = EnumSchema { width: 2, discriminants: vec![0, 1, 2], exhaustive: false };
    assert_eq!(open.validate(), Ok(()));
    assert_eq!(open.unpack(0b11 << 4, 4), None);
    let wide = EnumSchema { width: 2, discriminants: vec![0, 4], exhaustive: false };
    assert_eq!(wide.validate(), Err(SchemaError::DiscriminantOutOfRange { variant: 1 }));
    let bad = EnumSchema { width: 0, discriminants: vec![], exhaustive: false };
    assert_eq!(bad.validate(), Err(SchemaError::InvalidStorageWidth { size: 0 }));
}

#[test]
fn storage_buckets() {
    assert_eq!(base_type(1), Ok(StorageWidth::U8));
    assert_eq!(base_type(8), Ok(StorageWidth::U8));
    assert_eq!(base_type(9), Ok(StorageWidth::U16));
    assert_eq!(base_type(33), Ok(StorageWidth::U64));
    assert_eq!(base_type(128), Ok(StorageWidth::U128));
    assert_eq!(base_type(0), Err(SchemaError::InvalidStorageWidth { size: 0 }));
    assert_eq!(base_type(129), Err(SchemaError::InvalidStorageWidth { size: 129 }));
    assert_eq!(StorageWidth::U32.bits(), 32);
    assert!(is_arbitrary_int(7, true));
    assert!(!is_arbitrary_int(16, true));
    assert!(!is_arbitrary_int(128, true));
    assert!(is_arbitrary_int(127, true));
    assert!(!is_arbitrary_int(7, false));
}

#[test]
fn field_type_widths() {
    assert_eq!(type_width("bool"), Ok(1));
    assert_eq!(type_width("u7"), Ok(7));
    assert_eq!(type_width("u128"), Ok(128));
    assert_eq!(type_width("u"), Err(SchemaError::InvalidType));
    assert_eq!(type_width("i8"), Err(SchemaError::InvalidType));
    assert_eq!(type_width("u1x"), Err(SchemaError::InvalidType));
    assert_eq!(type_width("u99999999999"), Err(SchemaError::InvalidType));
}

#[test]
fn annotations() {
    let mut c = FieldConfig::new();
    assert_eq!(c.apply(Annotation::Access(Mode::Read)), Ok(()));
    assert_eq!(c.apply(Annotation::Access(Mode::Write)), Err(SchemaError::MalformedAnnotation));
    assert_eq!(c.mode, Some(Mode::Read));
    assert_eq!(c.apply(Annotation::Stride(0)), Err(SchemaError::MalformedAnnotation));
    assert_eq!(c.apply(Annotation::Stride(4)), Ok(()));
    assert_eq!(c.stride, Some(4));
    assert_eq!(c.apply(Annotation::Bits { start: 2, end: 5, inclusive: true }), Ok(()));
    assert_eq!(c.range, Some(BitRange { start: 2, end: 6 }));
    assert_eq!(c.apply(Annotation::Bit(9)), Ok(()));
    assert_eq!(c.range, Some(BitRange { start: 9, end: 10 }));
    let f = FieldConfig::new().field(3);
    assert_eq!(f.mode, Mode::ReadWrite);
    assert_eq!(c.field(1).mode, Mode::Read);
}

#[test]
fn uint_construction() {
    assert_eq!(UInt::<4>::new(15).value(), 15);
    assert_eq!(UInt::<4>::truncating(0x1F).value(), 15);
    assert_eq!(<UInt<4> as BitSize>::bits(), 4);
}

#[test]
fn record_needs_storage_type() {
    let fields = vec![field(3)];
    assert_eq!(bitfield(Config::new(), &fields).unwrap_err(), SchemaError::NoStorageType);
    let config = Config { storage_type: Some(StorageWidth::U8) };
    assert_eq!(config.explicit(), Ok(StorageWidth::U8));
    let l = bitfield(config, &fields).unwrap();
    assert_eq!(l.total, 3);
    assert_eq!(l.storage, StorageWidth::U8);
}

#[test]
fn nested_fields_example() {
    let inner = my_struct();
    assert_eq!(inner.total, 9);
    let zst = resolve(StorageWidth::U8, &vec![]).unwrap();
    assert_eq!(zst.total, 0);
    let mut fields = vec![field(inner.total)];
    for _ in 0..7 {
        fields.push(field(zst.total));
    }
    fields.push(field(type_width("u5").unwrap()));
    let outer = resolve(StorageWidth::U16, &fields).unwrap();
    assert_eq!(outer.fields[8].offset, 9);
    assert_eq!(outer.total, 14);
    let e = foo_enum();
    let inner_raw = e.pack(0, 7, 2);
    let x = outer.set_nested(0, 0, &inner, inner_raw);
    let x = outer.write(x, 8, &UInt::<5>::new(4));
    assert_eq!(x, 0x0900);
    let f5: UInt<5> = outer.read(x, 8);
    assert_eq!(f5.value(), 4);
    assert_eq!(e.unpack(outer.get_nested(x, 0, &inner), 7), Some(2));
}

#[test]
fn stride_is_kept_and_zero_refused() {
    let mut c = FieldConfig::new();
    assert_eq!(c.apply(Annotation::Stride(3)), Ok(()));
    let f = c.field(2);
    assert_eq!(f.stride, Some(3));
    let l = resolve(StorageWidth::U8, &vec![f]).unwrap();
    assert_eq!(l.fields[0].stride, Some(3));
    let bad = FieldSchema { width: 2, range: None, mode: Mode::ReadWrite, stride: Some(0) };
    assert_eq!(resolve(StorageWidth::U8, &vec![bad]).unwrap_err(), SchemaError::MalformedAnnotation);
}
