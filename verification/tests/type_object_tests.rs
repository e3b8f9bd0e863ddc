use xtypes::type_identifier::TypeIdentifier;
use xtypes::type_identifier::TK_FLOAT64;
use xtypes::type_identifier::TK_INT32;
use xtypes::type_identifier::TK_NONE;
use xtypes::type_object::CommonStructMember;
use xtypes::type_object::CompleteAliasType;
use xtypes::type_object::CompleteArrayType;
use xtypes::type_object::CompleteEnumeratedLiteral;
use xtypes::type_object::CompleteEnumeratedType;
use xtypes::type_object::CompleteSequenceType;
use xtypes::type_object::CompleteStructHeader;
use xtypes::type_object::CompleteStructMember;
use xtypes::type_object::CompleteStructType;
use xtypes::type_object::CompleteTypeObject;
use xtypes::type_object::CompleteUnionMember;
use xtypes::type_object::CompleteUnionType;
use xtypes::type_object::MinimalTypeObject;
use xtypes::type_object::TypeObject;
use xtypes::wire::Endianness;
use xtypes::wire::ReadError;
use xtypes::wire::WireFormat;

#[test]
fn complete_struct_member_round_trip() {
    let member = CompleteStructMember {
        common: CommonStructMember {
            member_id: 0,
            member_flags: 0,
            member_type_id: TypeIdentifier::Primitive(TK_INT32),
        },
        name: "x".to_string(),
    };
    let bytes = member.write_to_vec_with_ctx(Endianness::LittleEndian);
    let member2 =
        CompleteStructMember::read_from_buffer_with_ctx(Endianness::LittleEndian, &bytes).unwrap();
    assert_eq!(member, member2);
}

fn float_member(member_id: u32, name: &str) -> CompleteStructMember {
    CompleteStructMember {
        common: CommonStructMember {
            member_id,
            member_flags: 0,
            member_type_id: TypeIdentifier::Primitive(TK_FLOAT64),
        },
        name: name.to_string(),
    }
}

fn vector3() -> CompleteStructType {
    CompleteStructType {
        struct_flags: 0,
        header: CompleteStructHeader {
            base_type: TypeIdentifier::Primitive(TK_NONE),
            name_of_type: "geometry_msgs::msg::Vector3".to_string(),
        },
        members: vec![float_member(0, "x"), float_member(1, "y"), float_member(2, "z")],
    }
}

#[test]
fn complete_struct_type_round_trip() {
    let st = vector3();
    let bytes = st.write_to_vec_with_ctx(Endianness::LittleEndian);
    let st2 =
        CompleteStructType::read_from_buffer_with_ctx(Endianness::LittleEndian, &bytes).unwrap();
    assert_eq!(st, st2);
}

fn my_enum() -> CompleteEnumeratedType {
    CompleteEnumeratedType {
        enum_flags: 0,
        bit_bound: 32,
        name_of_type: "MyEnum".to_string(),
        literals: vec![
            CompleteEnumeratedLiteral {
                value: 0,
                flags: 0,
                name: "VALUE_A".to_string(),
            },
            CompleteEnumeratedLiteral {
                value: 1,
                flags: 0,
                name: "VALUE_B".to_string(),
            },
        ],
    }
}

#[test]
fn complete_enum_type_round_trip() {
    let et = my_enum();
    let bytes = et.write_to_vec_with_ctx(Endianness::LittleEndian);
    let et2 =
        CompleteEnumeratedType::read_from_buffer_with_ctx(Endianness::LittleEndian, &bytes)
            .unwrap();
    assert_eq!(et, et2);
}

#[test]
fn type_object_complete_struct_round_trip() {
    let to = TypeObject::Complete(CompleteTypeObject::Struct(CompleteStructType {
        struct_flags: 0,
        header: CompleteStructHeader {
            base_type: TypeIdentifier::Primitive(TK_NONE),
            name_of_type: "std_msgs::msg::String".to_string(),
        },
        members: vec![CompleteStructMember {
            common: CommonStructMember {
                member_id: 0,
                member_flags: 0,
                member_type_id: TypeIdentifier::String8Small { bound: 0 },
            },
            name: "data".to_string(),
        }],
    }));
    let bytes = to.write_to_vec_with_ctx(Endianness::LittleEndian);
    let to2 = TypeObject::read_from_buffer_with_ctx(Endianness::LittleEndian, &bytes).unwrap();
    assert_eq!(to, to2);
}

// ---------------------------------------------------------------------------
// Further cases

#[test]
fn string_fields_are_length_prefixed_and_nul_terminated() {
    let member = float_member(0x0102_0304, "xy");
    let bytes = member.write_to_vec_with_ctx(Endianness::LittleEndian);
    assert_eq!(
        bytes,
        vec![4, 3, 2, 1, 0, 0, 0x0A, 3, 0, 0, 0, b'x', b'y', 0]
    );
    let be = member.write_to_vec_with_ctx(Endianness::BigEndian);
    assert_eq!(be, vec![1, 2, 3, 4, 0, 0, 0x0A, 0, 0, 0, 3, b'x', b'y', 0]);
    let back = CompleteStructMember::read_from_buffer_with_ctx(Endianness::BigEndian, &be).unwrap();
    assert_eq!(back, member);
}

#[test]
fn non_ascii_names_round_trip() {
    let member = float_member(7, "größe→λ");
    let bytes = member.write_to_vec_with_ctx(Endianness::LittleEndian);
    let n = "größe→λ".len();
    assert_eq!(&bytes[7..11], &((n + 1) as u32).to_le_bytes());
    let back =
        CompleteStructMember::read_from_buffer_with_ctx(Endianness::LittleEndian, &bytes).unwrap();
    assert_eq!(back.name, "größe→λ");
}

#[test]
fn string_without_terminator_is_kept_whole() {
    // member id, flags, type id, then a two-byte string field "ab" with no NUL
    let bytes = [0, 0, 0, 0, 0, 0, 0x04, 2, 0, 0, 0, b'a', b'b'];
    let back =
        CompleteStructMember::read_from_buffer_with_ctx(Endianness::LittleEndian, &bytes).unwrap();
    assert_eq!(back.name, "ab");
    let empty = [0, 0, 0, 0, 0, 0, 0x04, 0, 0, 0, 0];
    let back =
        CompleteStructMember::read_from_buffer_with_ctx(Endianness::LittleEndian, &empty).unwrap();
    assert_eq!(back.name, "");
}

#[test]
fn invalid_utf8_name_is_refused() {
    let bytes = [0, 0, 0, 0, 0, 0, 0x04, 3, 0, 0, 0, 0xC3, 0x28, 0];
    assert_eq!(
        CompleteStructMember::read_from_buffer_with_ctx(Endianness::LittleEndian, &bytes),
        Err(ReadError::InvalidUtf8)
    );
}

#[test]
fn short_string_field_is_end_of_input() {
    let bytes = [0, 0, 0, 0, 0, 0, 0x04, 9, 0, 0, 0, b'a', 0];
    assert_eq!(
        CompleteStructMember::read_from_buffer_with_ctx(Endianness::LittleEndian, &bytes),
        Err(ReadError::EndOfInput)
    );
}

#[test]
fn alias_sequence_and_array_round_trip() {
    let alias = CompleteAliasType {
        alias_flags: 1,
        name_of_type: "Meters".to_string(),
        body_flags: 2,
        related_type: TypeIdentifier::Primitive(TK_FLOAT64),
    };
    let seq = CompleteSequenceType {
        collection_flags: 3,
        bound: 100,
        element_flags: 4,
        element_type: TypeIdentifier::String8Large { bound: 9000 },
    };
    let arr = CompleteArrayType {
        collection_flags: 5,
        bound: vec![2, 3, 4],
        element_flags: 6,
        element_type: TypeIdentifier::Primitive(TK_INT32),
    };
    for endian in [Endianness::LittleEndian, Endianness::BigEndian] {
        for to in [
            TypeObject::Complete(CompleteTypeObject::Alias(alias.clone())),
            TypeObject::Complete(CompleteTypeObject::Sequence(seq.clone())),
            TypeObject::Complete(CompleteTypeObject::Array(arr.clone())),
        ] {
            let bytes = to.write_to_vec_with_ctx(endian);
            let back = TypeObject::read_from_buffer_with_ctx(endian, &bytes).unwrap();
            assert_eq!(back, to);
        }
    }
    let bytes = arr.write_to_vec_with_ctx(Endianness::LittleEndian);
    assert_eq!(
        bytes,
        vec![5, 0, 3, 0, 0, 0, 2, 0, 0, 0, 3, 0, 0, 0, 4, 0, 0, 0, 6, 0, 0x04]
    );
}

fn union_member(label_count: u32, labels: Vec<i32>) -> CompleteUnionMember {
    CompleteUnionMember {
        member_id: 1,
        member_flags: 0,
        member_type_id: TypeIdentifier::Primitive(TK_INT32),
        label_count,
        labels,
        name: "value".to_string(),
    }
}

#[test]
fn union_round_trip() {
    let un = CompleteUnionType {
        union_flags: 0,
        name_of_type: "MyUnion".to_string(),
        discriminator_flags: 0,
        discriminator_type: TypeIdentifier::Primitive(TK_INT32),
        members: vec![union_member(2, vec![-1, 7]), union_member(0, vec![])],
    };
    let to = TypeObject::Complete(CompleteTypeObject::Union(un));
    let bytes = to.write_to_vec_with_ctx(Endianness::BigEndian);
    let back = TypeObject::read_from_buffer_with_ctx(Endianness::BigEndian, &bytes).unwrap();
    assert_eq!(back, to);
}

#[test]
fn union_member_label_count_governs_reading() {
    // the count says one label, but two are written
    let m = union_member(1, vec![5, 6]);
    let bytes = m.write_to_vec_with_ctx(Endianness::LittleEndian);
    let (back, _) = CompleteUnionMember::read_from(&bytes, 0, Endianness::LittleEndian).unwrap();
    assert_eq!(back.labels, vec![5]);
    assert_ne!(back, m);
}

#[test]
fn minimal_type_object_keeps_no_contents() {
    let to = TypeObject::Minimal(MinimalTypeObject { raw: vec![] });
    let bytes = to.write_to_vec_with_ctx(Endianness::LittleEndian);
    assert_eq!(bytes, vec![0xF1, 0xFF]);
    assert_eq!(TypeObject::read_from_buffer_with_ctx(Endianness::LittleEndian, &bytes).unwrap(), to);
    let with_raw = TypeObject::Minimal(MinimalTypeObject { raw: vec![1, 2] });
    let bytes = with_raw.write_to_vec_with_ctx(Endianness::LittleEndian);
    assert_eq!(bytes, vec![0xF1, 0xFF]);
    assert_eq!(TypeObject::read_from_buffer_with_ctx(Endianness::LittleEndian, &bytes).unwrap(), to);
}

#[test]
fn unknown_kinds_read_as_unknown() {
    let e = Endianness::LittleEndian;
    let (to, end) = TypeObject::read_from(&[0x42, 1, 2], 0, e).unwrap();
    assert_eq!(to, TypeObject::Complete(CompleteTypeObject::Unknown));
    assert_eq!(end, 1);
    let (to, end) = TypeObject::read_from(&[0xF2, 0x0A, 1, 2], 0, e).unwrap();
    assert_eq!(to, TypeObject::Complete(CompleteTypeObject::Unknown));
    assert_eq!(end, 2);
    let unknown = TypeObject::Complete(CompleteTypeObject::Unknown);
    let bytes = unknown.write_to_vec_with_ctx(e);
    assert_eq!(bytes, vec![0xF2, 0xFF]);
    assert_eq!(TypeObject::read_from_buffer_with_ctx(e, &bytes).unwrap(), unknown);
}

#[test]
fn truncated_type_objects_end_of_input() {
    let to = TypeObject::Complete(CompleteTypeObject::Enum(my_enum()));
    let bytes = to.write_to_vec_with_ctx(Endianness::LittleEndian);
    for cut in 0..bytes.len() {
        assert_eq!(
            TypeObject::read_from_buffer_with_ctx(Endianness::LittleEndian, &bytes[..cut]),
            Err(ReadError::EndOfInput)
        );
    }
    assert_eq!(TypeObject::read_from_buffer_with_ctx(Endianness::LittleEndian, &bytes).unwrap(), to);
}

#[test]
fn struct_type_with_trailing_bytes_reports_end() {
    let st = vector3();
    let mut bytes = st.write_to_vec_with_ctx(Endianness::BigEndian);
    let len = bytes.len();
    bytes.extend_from_slice(&[1, 2, 3]);
    let (back, end) = CompleteStructType::read_from(&bytes, 0, Endianness::BigEndian).unwrap();
    assert_eq!(back, st);
    assert_eq!(end, len);
}
