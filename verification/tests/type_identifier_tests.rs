use xtypes::type_identifier::is_primitive;
use xtypes::type_identifier::EquivalenceHash;
use xtypes::type_identifier::PlainCollectionHeader;
use xtypes::type_identifier::StronglyConnectedComponentId;
use xtypes::type_identifier::TypeIdentifier;
use xtypes::type_identifier::TypeIdentifierWithDependencies;
use xtypes::type_identifier::TypeIdentifierWithSize;
use xtypes::type_identifier::TypeInformation;
use xtypes::type_identifier::EK_COMPLETE;
use xtypes::type_identifier::EK_MINIMAL;
use xtypes::type_identifier::TI_STRING8_SMALL;
use xtypes::type_identifier::TK_BOOLEAN;
use xtypes::type_identifier::TK_BYTE;
use xtypes::type_identifier::TK_CHAR16;
use xtypes::type_identifier::TK_CHAR8;
use xtypes::type_identifier::TK_FLOAT32;
use xtypes::type_identifier::TK_FLOAT64;
use xtypes::type_identifier::TK_INT16;
use xtypes::type_identifier::TK_INT32;
use xtypes::type_identifier::TK_INT64;
use xtypes::type_identifier::TK_INT8;
use xtypes::type_identifier::TK_NONE;
use xtypes::type_identifier::TK_UINT16;
use xtypes::type_identifier::TK_UINT32;
use xtypes::type_identifier::TK_UINT64;
use xtypes::type_identifier::TK_UINT8;
use xtypes::wire::Endianness;
use xtypes::wire::ReadError;
use xtypes::wire::WireFormat;

#[test]
fn type_identifier_primitive_round_trip() {
    for disc in [
        TK_BOOLEAN, TK_BYTE, TK_INT16, TK_INT32, TK_INT64, TK_UINT16, TK_UINT32, TK_UINT64,
        TK_FLOAT32, TK_FLOAT64, TK_INT8, TK_UINT8,
    ] {
        let ti = TypeIdentifier::Primitive(disc);
        let bytes = ti.write_to_vec_with_ctx(Endianness::LittleEndian);
        let ti2 =
            TypeIdentifier::read_from_buffer_with_ctx(Endianness::LittleEndian, &bytes).unwrap();
        assert_eq!(ti, ti2);
    }
}

#[test]
fn type_identifier_string_small_round_trip() {
    let ti = TypeIdentifier::String8Small { bound: 255 };
    let bytes = ti.write_to_vec_with_ctx(Endianness::LittleEndian);
    let ti2 = TypeIdentifier::read_from_buffer_with_ctx(Endianness::LittleEndian, &bytes).unwrap();
    assert_eq!(ti, ti2);
}

#[test]
fn type_identifier_equivalence_hash_round_trip() {
    let hash: EquivalenceHash = [1, 2, 3, 4, 5, 6, 7, 8, 9, 10, 11, 12, 13, 14];
    let ti = TypeIdentifier::CompleteHash(hash);
    let bytes = ti.write_to_vec_with_ctx(Endianness::LittleEndian);
    let ti2 = TypeIdentifier::read_from_buffer_with_ctx(Endianness::LittleEndian, &bytes).unwrap();
    assert_eq!(ti, ti2);
}

#[test]
fn type_identifier_sequence_small_round_trip() {
    let ti = TypeIdentifier::PlainSequenceSmall {
        header: PlainCollectionHeader {
            equiv_kind: EK_COMPLETE,
            element_flags: 0,
        },
        bound: 0,
        element_identifier: Box::new(TypeIdentifier::Primitive(TK_INT32)),
    };
    let bytes = ti.write_to_vec_with_ctx(Endianness::LittleEndian);
    let ti2 = TypeIdentifier::read_from_buffer_with_ctx(Endianness::LittleEndian, &bytes).unwrap();
    assert_eq!(ti, ti2);
}

#[test]
fn type_identifier_with_size_round_trip() {
    let tws = TypeIdentifierWithSize {
        type_id: TypeIdentifier::CompleteHash([
            0xAA, 0xBB, 0xCC, 0xDD, 0x11, 0x22, 0x33, 0x44, 0x55, 0x66, 0x77, 0x88, 0x99, 0x00,
        ]),
        typeobject_serialized_size: 128,
    };
    let bytes = tws.write_to_vec_with_ctx(Endianness::LittleEndian);
    let tws2 =
        TypeIdentifierWithSize::read_from_buffer_with_ctx(Endianness::LittleEndian, &bytes)
            .unwrap();
    assert_eq!(tws, tws2);
}

fn sample_with_deps() -> TypeIdentifierWithDependencies {
    TypeIdentifierWithDependencies {
        typeid_with_size: TypeIdentifierWithSize {
            type_id: TypeIdentifier::CompleteHash([1; 14]),
            typeobject_serialized_size: 256,
        },
        dependent_typeids: vec![
            TypeIdentifierWithSize {
                type_id: TypeIdentifier::CompleteHash([2; 14]),
                typeobject_serialized_size: 64,
            },
            TypeIdentifierWithSize {
                type_id: TypeIdentifier::CompleteHash([3; 14]),
                typeobject_serialized_size: 32,
            },
        ],
    }
}

#[test]
fn type_identifier_with_deps_round_trip() {
    let twd = sample_with_deps();
    let bytes = twd.write_to_vec_with_ctx(Endianness::LittleEndian);
    let twd2 = TypeIdentifierWithDependencies::read_from_buffer_with_ctx(
        Endianness::LittleEndian,
        &bytes,
    )
    .unwrap();
    assert_eq!(twd, twd2);
}

fn sample_type_information() -> TypeInformation {
    TypeInformation {
        minimal: TypeIdentifierWithDependencies {
            typeid_with_size: TypeIdentifierWithSize {
                type_id: TypeIdentifier::MinimalHash([0x10; 14]),
                typeobject_serialized_size: 100,
            },
            dependent_typeids: vec![],
        },
        complete: TypeIdentifierWithDependencies {
            typeid_with_size: TypeIdentifierWithSize {
                type_id: TypeIdentifier::CompleteHash([0x20; 14]),
                typeobject_serialized_size: 200,
            },
            dependent_typeids: vec![TypeIdentifierWithSize {
                type_id: TypeIdentifier::CompleteHash([0x30; 14]),
                typeobject_serialized_size: 50,
            }],
        },
    }
}

#[test]
fn type_information_round_trip() {
    let ti = sample_type_information();
    let bytes = ti.write_to_vec_with_ctx(Endianness::LittleEndian);
    let ti2 = TypeInformation::read_from_buffer_with_ctx(Endianness::LittleEndian, &bytes).unwrap();
    assert_eq!(ti, ti2);
}

// ---------------------------------------------------------------------------
// Further cases

#[test]
fn primitive_discriminants_are_recognised() {
    for disc in 0u8..=0x0D {
        assert!(is_primitive(disc));
    }
    assert!(is_primitive(TK_CHAR8));
    assert!(is_primitive(TK_CHAR16));
    assert!(is_primitive(TK_NONE));
    assert!(!is_primitive(0x0E));
    assert!(!is_primitive(0x0F));
    assert!(!is_primitive(0x12));
    assert!(!is_primitive(TI_STRING8_SMALL));
    assert!(!is_primitive(EK_MINIMAL));
    assert!(!is_primitive(0xFF));
}

#[test]
fn string_large_bound_bytes_follow_byte_order() {
    let ti = TypeIdentifier::String8Large { bound: 0x0102_0304 };
    assert_eq!(
        ti.write_to_vec_with_ctx(Endianness::LittleEndian),
        vec![0x71, 0x04, 0x03, 0x02, 0x01]
    );
    assert_eq!(
        ti.write_to_vec_with_ctx(Endianness::BigEndian),
        vec![0x71, 0x01, 0x02, 0x03, 0x04]
    );
    let le = TypeIdentifier::read_from_buffer_with_ctx(
        Endianness::LittleEndian,
        &[0x73, 0x04, 0x03, 0x02, 0x01],
    )
    .unwrap();
    assert_eq!(le, TypeIdentifier::String16Large { bound: 0x0102_0304 });
    let be = TypeIdentifier::read_from_buffer_with_ctx(
        Endianness::BigEndian,
        &[0x73, 0x04, 0x03, 0x02, 0x01],
    )
    .unwrap();
    assert_eq!(be, TypeIdentifier::String16Large { bound: 0x0403_0201 });
}

#[test]
fn collection_identifier_bytes() {
    let ti = TypeIdentifier::PlainArrayLarge {
        header: PlainCollectionHeader {
            equiv_kind: EK_MINIMAL,
            element_flags: 0x0102,
        },
        bound: 7,
        element_identifier: Box::new(TypeIdentifier::Primitive(TK_UINT8)),
    };
    let bytes = ti.write_to_vec_with_ctx(Endianness::LittleEndian);
    assert_eq!(bytes, vec![0x91, 0xF1, 0x02, 0x01, 7, 0, 0, 0, 0x0D]);
    assert_eq!(ti.serialized_size(), 9);
    let back = TypeIdentifier::read_from_buffer_with_ctx(Endianness::LittleEndian, &bytes).unwrap();
    assert_eq!(back, ti);
}

#[test]
fn nested_identifiers_round_trip_both_byte_orders() {
    let ti = TypeIdentifier::PlainSequenceLarge {
        header: PlainCollectionHeader {
            equiv_kind: EK_COMPLETE,
            element_flags: 0xBEEF,
        },
        bound: 1000,
        element_identifier: Box::new(TypeIdentifier::PlainArraySmall {
            header: PlainCollectionHeader {
                equiv_kind: EK_MINIMAL,
                element_flags: 3,
            },
            bound: 4,
            element_identifier: Box::new(TypeIdentifier::StronglyConnectedComponent(
                StronglyConnectedComponentId {
                    sc_component_id: [9; 14],
                    scc_length: -2,
                    scc_index: 5,
                },
            )),
        }),
    };
    for endian in [Endianness::LittleEndian, Endianness::BigEndian] {
        let bytes = ti.write_to_vec_with_ctx(endian);
        assert_eq!(bytes.len(), ti.serialized_size());
        assert_eq!(bytes.len(), 8 + 5 + 23);
        let back = TypeIdentifier::read_from_buffer_with_ctx(endian, &bytes).unwrap();
        assert_eq!(back, ti);
    }
}

#[test]
fn serialized_sizes_of_each_kind() {
    assert_eq!(TypeIdentifier::Primitive(TK_INT32).serialized_size(), 1);
    assert_eq!(TypeIdentifier::String16Small { bound: 3 }.serialized_size(), 2);
    assert_eq!(TypeIdentifier::String8Large { bound: 3 }.serialized_size(), 5);
    assert_eq!(TypeIdentifier::MinimalHash([0; 14]).serialized_size(), 15);
    assert_eq!(
        TypeIdentifier::StronglyConnectedComponent(StronglyConnectedComponentId {
            sc_component_id: [0; 14],
            scc_length: 1,
            scc_index: 0,
        })
        .serialized_size(),
        23
    );
    assert_eq!(TypeIdentifier::Extended.serialized_size(), 1);
}

#[test]
fn unknown_discriminant_reads_as_extended() {
    let (ti, end) = TypeIdentifier::read_from(&[0x55, 0x01, 0x02], 0, Endianness::LittleEndian)
        .unwrap();
    assert_eq!(ti, TypeIdentifier::Extended);
    assert_eq!(end, 1);
    assert_eq!(
        TypeIdentifier::Extended.write_to_vec_with_ctx(Endianness::LittleEndian),
        vec![0xFE]
    );
}

#[test]
fn non_primitive_discriminant_does_not_read_back_as_primitive() {
    let ti = TypeIdentifier::Primitive(TI_STRING8_SMALL);
    let bytes = ti.write_to_vec_with_ctx(Endianness::LittleEndian);
    assert_eq!(
        TypeIdentifier::read_from_buffer_with_ctx(Endianness::LittleEndian, &bytes),
        Err(ReadError::EndOfInput)
    );
}

#[test]
fn truncated_identifiers_end_of_input() {
    let e = Endianness::LittleEndian;
    assert_eq!(TypeIdentifier::read_from_buffer_with_ctx(e, &[]), Err(ReadError::EndOfInput));
    assert_eq!(TypeIdentifier::read_from_buffer_with_ctx(e, &[0x71, 1, 2, 3]), Err(ReadError::EndOfInput));
    assert_eq!(TypeIdentifier::read_from_buffer_with_ctx(e, &[0xF2, 1, 2, 3]), Err(ReadError::EndOfInput));
    assert_eq!(
        TypeIdentifier::read_from_buffer_with_ctx(e, &[0x80, 0xF2, 0, 0, 5]),
        Err(ReadError::EndOfInput)
    );
}

#[test]
fn reading_at_an_offset_reports_the_end_position() {
    let buf = [0xAA, 0x70, 0x10, 0xBB];
    let (ti, end) = TypeIdentifier::read_from(&buf, 1, Endianness::BigEndian).unwrap();
    assert_eq!(ti, TypeIdentifier::String8Small { bound: 0x10 });
    assert_eq!(end, 3);
}

#[test]
fn with_size_length_header_counts_the_content() {
    let tws = TypeIdentifierWithSize {
        type_id: TypeIdentifier::CompleteHash([7; 14]),
        typeobject_serialized_size: 0x0A0B_0C0D,
    };
    assert_eq!(tws.content_size(), 19);
    let le = tws.write_to_vec_with_ctx(Endianness::LittleEndian);
    assert_eq!(le.len(), 23);
    assert_eq!(&le[0..4], &[19, 0, 0, 0]);
    assert_eq!(&le[19..23], &[0x0D, 0x0C, 0x0B, 0x0A]);
    let be = tws.write_to_vec_with_ctx(Endianness::BigEndian);
    assert_eq!(&be[0..4], &[0, 0, 0, 19]);
    assert_eq!(&be[19..23], &[0x0A, 0x0B, 0x0C, 0x0D]);
}

#[test]
fn with_deps_content_size_and_length_header() {
    let twd = sample_with_deps();
    assert_eq!(twd.content_size(), 23 + 4 + 2 * 23);
    let bytes = twd.write_to_vec_with_ctx(Endianness::LittleEndian);
    assert_eq!(bytes.len(), twd.content_size() + 4);
    assert_eq!(&bytes[0..4], &[73, 0, 0, 0]);
    // the count of dependencies follows the identifier with size
    assert_eq!(&bytes[27..31], &[2, 0, 0, 0]);
}

#[test]
fn with_deps_negative_count_reads_no_dependencies() {
    let twd = sample_with_deps();
    let mut bytes = twd.write_to_vec_with_ctx(Endianness::LittleEndian);
    bytes[27..31].copy_from_slice(&(-1i32).to_le_bytes());
    let (back, end) =
        TypeIdentifierWithDependencies::read_from(&bytes, 0, Endianness::LittleEndian).unwrap();
    assert_eq!(back.typeid_with_size, twd.typeid_with_size);
    assert!(back.dependent_typeids.is_empty());
    assert_eq!(end, 31);
}

#[test]
fn type_information_layout() {
    let ti = sample_type_information();
    let bytes = ti.write_to_vec_with_ctx(Endianness::LittleEndian);
    let min_len = ti.minimal.content_size() + 4;
    let com_len = ti.complete.content_size() + 4;
    assert_eq!(bytes.len(), 4 + 8 + min_len + 8 + com_len);
    assert_eq!(&bytes[0..4], &((bytes.len() - 4) as u32).to_le_bytes());
    assert_eq!(&bytes[4..8], &0x0001_0014u32.to_le_bytes());
    assert_eq!(&bytes[8..12], &(min_len as u32).to_le_bytes());
    let c = 12 + min_len;
    assert_eq!(&bytes[c..c + 4], &0x0001_0024u32.to_le_bytes());
    assert_eq!(&bytes[c + 4..c + 8], &(com_len as u32).to_le_bytes());
}

#[test]
fn type_information_round_trip_big_endian() {
    let ti = sample_type_information();
    let bytes = ti.write_to_vec_with_ctx(Endianness::BigEndian);
    let back = TypeInformation::read_from_buffer_with_ctx(Endianness::BigEndian, &bytes).unwrap();
    assert_eq!(back, ti);
}

fn absent() -> TypeIdentifierWithDependencies {
    TypeIdentifierWithDependencies {
        typeid_with_size: TypeIdentifierWithSize {
            type_id: TypeIdentifier::Primitive(TK_NONE),
            typeobject_serialized_size: 0,
        },
        dependent_typeids: vec![],
    }
}

#[test]
fn type_information_skips_unknown_members_and_fills_absent_ones() {
    let ti = sample_type_information();
    let e = Endianness::LittleEndian;
    let complete = ti.complete.write_to_vec_with_ctx(e);
    let mut bytes = Vec::new();
    bytes.extend_from_slice(&0u32.to_le_bytes());
    // an unknown member with length code 1 (two bytes)
    bytes.extend_from_slice(&((0x0777u32 << 4) | 1).to_le_bytes());
    bytes.extend_from_slice(&[0xEE, 0xEE]);
    // an unknown member with an explicit size of three bytes
    bytes.extend_from_slice(&((0x0778u32 << 4) | 4).to_le_bytes());
    bytes.extend_from_slice(&3u32.to_le_bytes());
    bytes.extend_from_slice(&[1, 2, 3]);
    // the complete member, and two trailing bytes
    bytes.extend_from_slice(&((0x1002u32 << 4) | 4).to_le_bytes());
    bytes.extend_from_slice(&(complete.len() as u32).to_le_bytes());
    bytes.extend_from_slice(&complete);
    bytes.extend_from_slice(&[9, 9]);
    let (back, end) = TypeInformation::read_from(&bytes, 0, e).unwrap();
    assert_eq!(back.complete, ti.complete);
    assert_eq!(back.minimal, absent());
    assert_eq!(end, bytes.len() - 2);
}

#[test]
fn type_information_members_in_either_order() {
    let ti = sample_type_information();
    let e = Endianness::BigEndian;
    let minimal = ti.minimal.write_to_vec_with_ctx(e);
    let complete = ti.complete.write_to_vec_with_ctx(e);
    let mut bytes = Vec::new();
    bytes.extend_from_slice(&0u32.to_be_bytes());
    bytes.extend_from_slice(&((0x1002u32 << 4) | 4).to_be_bytes());
    bytes.extend_from_slice(&(complete.len() as u32).to_be_bytes());
    bytes.extend_from_slice(&complete);
    bytes.extend_from_slice(&((0x1001u32 << 4) | 4).to_be_bytes());
    bytes.extend_from_slice(&(minimal.len() as u32).to_be_bytes());
    bytes.extend_from_slice(&minimal);
    bytes.extend_from_slice(&[0xAB; 6]);
    let (back, end) = TypeInformation::read_from(&bytes, 0, e).unwrap();
    assert_eq!(back, ti);
    assert_eq!(end, bytes.len() - 6);
}

#[test]
fn type_information_errors() {
    let e = Endianness::LittleEndian;
    assert_eq!(TypeInformation::read_from_buffer_with_ctx(e, &[1, 2, 3]), Err(ReadError::EndOfInput));
    // a skipped member longer than what is left
    let mut bytes = Vec::new();
    bytes.extend_from_slice(&0u32.to_le_bytes());
    bytes.extend_from_slice(&((0x0777u32 << 4) | 3).to_le_bytes());
    bytes.extend_from_slice(&[0; 7]);
    assert_eq!(TypeInformation::read_from_buffer_with_ctx(e, &bytes), Err(ReadError::EndOfInput));
    // only the length header: both members absent
    let back = TypeInformation::read_from_buffer_with_ctx(e, &[0, 0, 0, 0, 1]).unwrap();
    assert_eq!(back.minimal, absent());
    assert_eq!(back.complete, absent());
}

#[test]
fn cloned_identifier_is_equal() {
    let ti = TypeIdentifier::PlainSequenceSmall {
        header: PlainCollectionHeader {
            equiv_kind: EK_COMPLETE,
            element_flags: 1,
        },
        bound: 2,
        element_identifier: Box::new(TypeIdentifier::MinimalHash([5; 14])),
    };
    assert_eq!(ti.clone(), ti);
}
