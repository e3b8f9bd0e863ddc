//! Type objects (DDS-XTypes v1.3 §7.3.4.5): the complete descriptions of
//! structures, enumerations, aliases, sequences, arrays and unions, with
//! their wire encoding.
use vstd::prelude::*;

use crate::type_identifier::type_identifier_lossless;
use crate::type_identifier::SpecTypeIdentifier;
use crate::type_identifier::TypeIdentifier;
use crate::type_identifier::EK_COMPLETE;
use crate::type_identifier::EK_MINIMAL;
use crate::wire::all_lossless;
use crate::wire::i32_to_bytes;
use crate::wire::lemma_i32_write_read;
use crate::wire::lemma_occurs_byte;
use crate::wire::lemma_occurs_split;
use crate::wire::lemma_occurs_whole;
use crate::wire::lemma_read_seq_lengths;
use crate::wire::u16_from_bytes;
use crate::wire::u32_from_bytes;
use crate::wire::i32_from_bytes;
use crate::wire::lemma_seq_write_read;
use crate::wire::lemma_string_write_read;
use crate::wire::lemma_u16_write_read;
use crate::wire::lemma_u32_write_read;
use crate::wire::read_i32;
use crate::wire::read_seq;
use crate::wire::read_string;
use crate::wire::read_u16;
use crate::wire::read_u32;
use crate::wire::read_u8;
use crate::wire::spec_read_i32;
use crate::wire::spec_read_seq;
use crate::wire::spec_read_string;
use crate::wire::spec_read_u16;
use crate::wire::spec_read_u32;
use crate::wire::spec_read_u8;
use crate::wire::spec_write_seq;
use crate::wire::spec_write_string;
use crate::wire::string_lossless;
use crate::wire::u16_to_bytes;
use crate::wire::u32_to_bytes;
use crate::wire::views;
use crate::wire::write_i32;
use crate::wire::write_seq;
use crate::wire::write_string;
use crate::wire::write_u16;
use crate::wire::write_u32;
use crate::wire::write_u8;
use crate::wire::Endianness;
use crate::wire::ReadError;
use crate::wire::WireFormat;

verus! {

// DDS-XTypes v1.3 Type kind values for CompleteTypeObject/MinimalTypeObject
pub const TK_ALIAS: u8 = 0x01;
pub const TK_ENUM: u8 = 0x02;
pub const TK_BITMASK: u8 = 0x03;
pub const TK_ANNOTATION: u8 = 0x04;
pub const TK_STRUCTURE: u8 = 0x05;
pub const TK_UNION: u8 = 0x06;
pub const TK_BITSET: u8 = 0x07;
pub const TK_SEQUENCE: u8 = 0x08;
pub const TK_ARRAY: u8 = 0x09;
pub const TK_MAP: u8 = 0x0A;

/// The byte that an unknown or minimal type object is written as.
pub const TK_UNKNOWN_WRITTEN: u8 = 0xFF;

// ---------------------------------------------------------------------------
// CompleteStructHeader

/// The header of a structure type: its base type and its name.
#[derive(Debug, Clone, PartialEq, Eq)]
pub struct CompleteStructHeader {
    pub base_type: TypeIdentifier,
    pub name_of_type: String,
}

/// The value of a `CompleteStructHeader`.
pub struct SpecCompleteStructHeader {
    pub base_type: SpecTypeIdentifier,
    pub name_of_type: Seq<char>,
}

impl View for CompleteStructHeader {
    type V = SpecCompleteStructHeader;

    open spec fn view(&self) -> SpecCompleteStructHeader {
        SpecCompleteStructHeader {
            base_type: self.base_type@,
            name_of_type: self.name_of_type@,
        }
    }
}

/// Reading a `CompleteStructHeader` at position `p` of `s`: its fields in order.
#[verifier::opaque]
pub open spec fn spec_read_complete_struct_header(s: Seq<u8>, p: int, e: Endianness) -> Result<(SpecCompleteStructHeader, int), ReadError> {
    match TypeIdentifier::spec_read(s, p, e) {
        Err(err) => Err(err),
        Ok((base_type, q0)) => match spec_read_string(s, q0, e) {
            Err(err) => Err(err),
            Ok((name_of_type, q1)) => Ok((SpecCompleteStructHeader { base_type, name_of_type }, q1)),
        },
    }
}

/// The bytes that encode a `CompleteStructHeader`: its fields in order.
#[verifier::opaque]
pub open spec fn spec_write_complete_struct_header(v: SpecCompleteStructHeader, e: Endianness) -> Seq<u8> {
    TypeIdentifier::spec_write(v.base_type, e) + spec_write_string(v.name_of_type, e)
}

impl WireFormat for CompleteStructHeader {
    open spec fn spec_read(s: Seq<u8>, p: int, e: Endianness) -> Result<(SpecCompleteStructHeader, int), ReadError> {
        spec_read_complete_struct_header(s, p, e)
    }

    open spec fn spec_write(v: SpecCompleteStructHeader, e: Endianness) -> Seq<u8> {
        spec_write_complete_struct_header(v, e)
    }

    open spec fn spec_lossless(v: SpecCompleteStructHeader) -> bool {
        &&& type_identifier_lossless(v.base_type)
        &&& string_lossless(v.name_of_type)
    }

    #[verifier::rlimit(30)]
    proof fn lemma_write_read(v: SpecCompleteStructHeader, s: Seq<u8>, p: int, e: Endianness) {
        reveal(spec_read_complete_struct_header);
        reveal(spec_write_complete_struct_header);
        let b0 = TypeIdentifier::spec_write(v.base_type, e);
        let b1 = spec_write_string(v.name_of_type, e);
        lemma_occurs_split(s, p, b0, b1);
        let o0 = p;
        let o1 = o0 + b0.len();
        TypeIdentifier::lemma_write_read(v.base_type, s, o0, e);
        lemma_string_write_read(s, o1, v.name_of_type, e);
    }

    fn read_from(buf: &[u8], pos: usize, endian: Endianness) -> (res: Result<(CompleteStructHeader, usize), ReadError>) {
        proof {
            reveal(spec_read_complete_struct_header);
        }
        let (base_type, q0) = match TypeIdentifier::read_from(buf, pos, endian) {
            Ok(r) => r,
            Err(err) => return Err(err),
        };
        let (name_of_type, q1) = match read_string(buf, q0, endian) {
            Ok(r) => r,
            Err(err) => return Err(err),
        };
        Ok((CompleteStructHeader { base_type, name_of_type }, q1))
    }

    fn write_to(&self, endian: Endianness, out: &mut Vec<u8>) {
        self.base_type.write_to(endian, out);
        write_string(&self.name_of_type, endian, out);
        proof {
            reveal(spec_write_complete_struct_header);
        }
        assert(out@ =~= old(out)@ + Self::spec_write(self@, endian));
    }
}

/// Layout of an encoded `CompleteStructHeader`: the identifier `base_type`, then the string `name_of_type`, each at its place and
/// nothing more.
pub proof fn lemma_complete_struct_header_layout(v: SpecCompleteStructHeader, e: Endianness)
    ensures
        ({
            let w = CompleteStructHeader::spec_write(v, e);
            let b0 = TypeIdentifier::spec_write(v.base_type, e);
            let b1 = spec_write_string(v.name_of_type, e);
            let o0 = 0int;
            let o1 = o0 + b0.len();
            let o2 = o1 + b1.len();
            &&& w.subrange(o0, o1) == b0
            &&& w.subrange(o1, o2) == b1
            &&& w.len() == o2
        }),
{
    reveal(spec_write_complete_struct_header);
    let w = CompleteStructHeader::spec_write(v, e);
    let b0 = TypeIdentifier::spec_write(v.base_type, e);
    let b1 = spec_write_string(v.name_of_type, e);
    lemma_occurs_whole(w);
    lemma_occurs_split(w, 0, b0, b1);
}

/// What a read of a `CompleteStructHeader` yields: the identifier `base_type`, then the string `name_of_type`, each
/// taken from the bytes at its place, and it ends after the last of them.
pub proof fn lemma_complete_struct_header_read_fields(s: Seq<u8>, p: int, e: Endianness)
    requires
        0 <= p,
    ensures
        CompleteStructHeader::spec_read(s, p, e) matches Ok((v, q)) ==> {
            &&& TypeIdentifier::spec_read(s, p, e) matches Ok((base_type_read, r0))
            &&& base_type_read == v.base_type
            &&& spec_read_string(s, r0, e) matches Ok((name_of_type_read, r1))
            &&& name_of_type_read == v.name_of_type
            &&& q == r1
        },
{
    reveal(spec_read_complete_struct_header);
}

// ---------------------------------------------------------------------------
// CommonStructMember

/// What every structure member has: its id, flags and type.
#[derive(Debug, Clone, PartialEq, Eq)]
pub struct CommonStructMember {
    pub member_id: u32,
    pub member_flags: u16,
    pub member_type_id: TypeIdentifier,
}

/// The value of a `CommonStructMember`.
pub struct SpecCommonStructMember {
    pub member_id: u32,
    pub member_flags: u16,
    pub member_type_id: SpecTypeIdentifier,
}

impl View for CommonStructMember {
    type V = SpecCommonStructMember;

    open spec fn view(&self) -> SpecCommonStructMember {
        SpecCommonStructMember {
            member_id: self.member_id,
            member_flags: self.member_flags,
            member_type_id: self.member_type_id@,
        }
    }
}

/// Reading a `CommonStructMember` at position `p` of `s`: its fields in order.
#[verifier::opaque]
pub open spec fn spec_read_common_struct_member(s: Seq<u8>, p: int, e: Endianness) -> Result<(SpecCommonStructMember, int), ReadError> {
    match spec_read_u32(s, p, e) {
        Err(err) => Err(err),
        Ok((member_id, q0)) => match spec_read_u16(s, q0, e) {
            Err(err) => Err(err),
            Ok((member_flags, q1)) => match TypeIdentifier::spec_read(s, q1, e) {
                Err(err) => Err(err),
                Ok((member_type_id, q2)) => Ok((SpecCommonStructMember { member_id, member_flags, member_type_id }, q2)),
            },
        },
    }
}

/// The bytes that encode a `CommonStructMember`: its fields in order.
#[verifier::opaque]
pub open spec fn spec_write_common_struct_member(v: SpecCommonStructMember, e: Endianness) -> Seq<u8> {
    u32_to_bytes(v.member_id, e) + u16_to_bytes(v.member_flags, e) + TypeIdentifier::spec_write(v.member_type_id, e)
}

impl WireFormat for CommonStructMember {
    open spec fn spec_read(s: Seq<u8>, p: int, e: Endianness) -> Result<(SpecCommonStructMember, int), ReadError> {
        spec_read_common_struct_member(s, p, e)
    }

    open spec fn spec_write(v: SpecCommonStructMember, e: Endianness) -> Seq<u8> {
        spec_write_common_struct_member(v, e)
    }

    open spec fn spec_lossless(v: SpecCommonStructMember) -> bool {
        &&& type_identifier_lossless(v.member_type_id)
    }

    #[verifier::rlimit(30)]
    proof fn lemma_write_read(v: SpecCommonStructMember, s: Seq<u8>, p: int, e: Endianness) {
        reveal(spec_read_common_struct_member);
        reveal(spec_write_common_struct_member);
        let b0 = u32_to_bytes(v.member_id, e);
        let b1 = u16_to_bytes(v.member_flags, e);
        let b2 = TypeIdentifier::spec_write(v.member_type_id, e);
        lemma_occurs_split(s, p, b0 + b1, b2);
        lemma_occurs_split(s, p, b0, b1);
        let o0 = p;
        let o1 = o0 + b0.len();
        let o2 = o1 + b1.len();
        lemma_u32_write_read(s, o0, v.member_id, e);
        lemma_u16_write_read(s, o1, v.member_flags, e);
        TypeIdentifier::lemma_write_read(v.member_type_id, s, o2, e);
    }

    fn read_from(buf: &[u8], pos: usize, endian: Endianness) -> (res: Result<(CommonStructMember, usize), ReadError>) {
        proof {
            reveal(spec_read_common_struct_member);
        }
        let (member_id, q0) = match read_u32(buf, pos, endian) {
            Ok(r) => r,
            Err(err) => return Err(err),
        };
        let (member_flags, q1) = match read_u16(buf, q0, endian) {
            Ok(r) => r,
            Err(err) => return Err(err),
        };
        let (member_type_id, q2) = match TypeIdentifier::read_from(buf, q1, endian) {
            Ok(r) => r,
            Err(err) => return Err(err),
        };
        Ok((CommonStructMember { member_id, member_flags, member_type_id }, q2))
    }

    fn write_to(&self, endian: Endianness, out: &mut Vec<u8>) {
        write_u32(self.member_id, endian, out);
        write_u16(self.member_flags, endian, out);
        self.member_type_id.write_to(endian, out);
        proof {
            reveal(spec_write_common_struct_member);
        }
        assert(out@ =~= old(out)@ + Self::spec_write(self@, endian));
    }
}

/// Layout of an encoded `CommonStructMember`: `member_id` as a `u32`, then `member_flags` as a `u16`, then the identifier `member_type_id`, each at its place and
/// nothing more.
pub proof fn lemma_common_struct_member_layout(v: SpecCommonStructMember, e: Endianness)
    ensures
        ({
            let w = CommonStructMember::spec_write(v, e);
            let b0 = u32_to_bytes(v.member_id, e);
            let b1 = u16_to_bytes(v.member_flags, e);
            let b2 = TypeIdentifier::spec_write(v.member_type_id, e);
            let o0 = 0int;
            let o1 = o0 + b0.len();
            let o2 = o1 + b1.len();
            let o3 = o2 + b2.len();
            &&& w.subrange(o0, o1) == b0
            &&& w.subrange(o1, o2) == b1
            &&& w.subrange(o2, o3) == b2
            &&& w.len() == o3
        }),
{
    reveal(spec_write_common_struct_member);
    let w = CommonStructMember::spec_write(v, e);
    let b0 = u32_to_bytes(v.member_id, e);
    let b1 = u16_to_bytes(v.member_flags, e);
    let b2 = TypeIdentifier::spec_write(v.member_type_id, e);
    lemma_occurs_whole(w);
    lemma_occurs_split(w, 0, b0 + b1, b2);
    lemma_occurs_split(w, 0, b0, b1);
}

/// What a read of a `CommonStructMember` yields: `member_id` as a `u32`, then `member_flags` as a `u16`, then the identifier `member_type_id`, each
/// taken from the bytes at its place, and it ends after the last of them.
pub proof fn lemma_common_struct_member_read_fields(s: Seq<u8>, p: int, e: Endianness)
    requires
        0 <= p,
    ensures
        CommonStructMember::spec_read(s, p, e) matches Ok((v, q)) ==> {
            &&& p + 4 <= s.len()
            &&& v.member_id == u32_from_bytes(s[p], s[p + 1], s[p + 2], s[p + 3], e)
            &&& p + 4 + 2 <= s.len()
            &&& v.member_flags == u16_from_bytes(s[p + 4], s[p + 4 + 1], e)
            &&& TypeIdentifier::spec_read(s, p + 4 + 2, e) matches Ok((member_type_id_read, r0))
            &&& member_type_id_read == v.member_type_id
            &&& q == r0
        },
{
    reveal(spec_read_common_struct_member);
}

// ---------------------------------------------------------------------------
// CompleteStructMember

/// A structure member: its common part and its name.
#[derive(Debug, Clone, PartialEq, Eq)]
pub struct CompleteStructMember {
    pub common: CommonStructMember,
    pub name: String,
}

/// The value of a `CompleteStructMember`.
pub struct SpecCompleteStructMember {
    pub common: SpecCommonStructMember,
    pub name: Seq<char>,
}

impl View for CompleteStructMember {
    type V = SpecCompleteStructMember;

    open spec fn view(&self) -> SpecCompleteStructMember {
        SpecCompleteStructMember {
            common: self.common@,
            name: self.name@,
        }
    }
}

/// Reading a `CompleteStructMember` at position `p` of `s`: its fields in order.
#[verifier::opaque]
pub open spec fn spec_read_complete_struct_member(s: Seq<u8>, p: int, e: Endianness) -> Result<(SpecCompleteStructMember, int), ReadError> {
    match CommonStructMember::spec_read(s, p, e) {
        Err(err) => Err(err),
        Ok((common, q0)) => match spec_read_string(s, q0, e) {
            Err(err) => Err(err),
            Ok((name, q1)) => Ok((SpecCompleteStructMember { common, name }, q1)),
        },
    }
}

/// The bytes that encode a `CompleteStructMember`: its fields in order.
#[verifier::opaque]
pub open spec fn spec_write_complete_struct_member(v: SpecCompleteStructMember, e: Endianness) -> Seq<u8> {
    CommonStructMember::spec_write(v.common, e) + spec_write_string(v.name, e)
}

impl WireFormat for CompleteStructMember {
    open spec fn spec_read(s: Seq<u8>, p: int, e: Endianness) -> Result<(SpecCompleteStructMember, int), ReadError> {
        spec_read_complete_struct_member(s, p, e)
    }

    open spec fn spec_write(v: SpecCompleteStructMember, e: Endianness) -> Seq<u8> {
        spec_write_complete_struct_member(v, e)
    }

    open spec fn spec_lossless(v: SpecCompleteStructMember) -> bool {
        &&& CommonStructMember::spec_lossless(v.common)
        &&& string_lossless(v.name)
    }

    #[verifier::rlimit(30)]
    proof fn lemma_write_read(v: SpecCompleteStructMember, s: Seq<u8>, p: int, e: Endianness) {
        reveal(spec_read_complete_struct_member);
        reveal(spec_write_complete_struct_member);
        let b0 = CommonStructMember::spec_write(v.common, e);
        let b1 = spec_write_string(v.name, e);
        lemma_occurs_split(s, p, b0, b1);
        let o0 = p;
        let o1 = o0 + b0.len();
        CommonStructMember::lemma_write_read(v.common, s, o0, e);
        lemma_string_write_read(s, o1, v.name, e);
    }

    fn read_from(buf: &[u8], pos: usize, endian: Endianness) -> (res: Result<(CompleteStructMember, usize), ReadError>) {
        proof {
            reveal(spec_read_complete_struct_member);
        }
        let (common, q0) = match CommonStructMember::read_from(buf, pos, endian) {
            Ok(r) => r,
            Err(err) => return Err(err),
        };
        let (name, q1) = match read_string(buf, q0, endian) {
            Ok(r) => r,
            Err(err) => return Err(err),
        };
        Ok((CompleteStructMember { common, name }, q1))
    }

    fn write_to(&self, endian: Endianness, out: &mut Vec<u8>) {
        self.common.write_to(endian, out);
        write_string(&self.name, endian, out);
        proof {
            reveal(spec_write_complete_struct_member);
        }
        assert(out@ =~= old(out)@ + Self::spec_write(self@, endian));
    }
}

/// Layout of an encoded `CompleteStructMember`: `common`, then the string `name`, each at its place and
/// nothing more.
pub proof fn lemma_complete_struct_member_layout(v: SpecCompleteStructMember, e: Endianness)
    ensures
        ({
            let w = CompleteStructMember::spec_write(v, e);
            let b0 = CommonStructMember::spec_write(v.common, e);
            let b1 = spec_write_string(v.name, e);
            let o0 = 0int;
            let o1 = o0 + b0.len();
            let o2 = o1 + b1.len();
            &&& w.subrange(o0, o1) == b0
            &&& w.subrange(o1, o2) == b1
            &&& w.len() == o2
        }),
{
    reveal(spec_write_complete_struct_member);
    let w = CompleteStructMember::spec_write(v, e);
    let b0 = CommonStructMember::spec_write(v.common, e);
    let b1 = spec_write_string(v.name, e);
    lemma_occurs_whole(w);
    lemma_occurs_split(w, 0, b0, b1);
}

/// What a read of a `CompleteStructMember` yields: `common`, then the string `name`, each
/// taken from the bytes at its place, and it ends after the last of them.
pub proof fn lemma_complete_struct_member_read_fields(s: Seq<u8>, p: int, e: Endianness)
    requires
        0 <= p,
    ensures
        CompleteStructMember::spec_read(s, p, e) matches Ok((v, q)) ==> {
            &&& CommonStructMember::spec_read(s, p, e) matches Ok((common_read, r0))
            &&& common_read == v.common
            &&& spec_read_string(s, r0, e) matches Ok((name_read, r1))
            &&& name_read == v.name
            &&& q == r1
        },
{
    reveal(spec_read_complete_struct_member);
}

// ---------------------------------------------------------------------------
// CompleteStructType

/// A structure type: flags, header, and members.
#[derive(Debug, Clone, PartialEq, Eq)]
pub struct CompleteStructType {
    pub struct_flags: u16,
    pub header: CompleteStructHeader,
    pub members: Vec<CompleteStructMember>,
}

/// The value of a `CompleteStructType`.
pub struct SpecCompleteStructType {
    pub struct_flags: u16,
    pub header: SpecCompleteStructHeader,
    pub members: Seq<SpecCompleteStructMember>,
}

impl View for CompleteStructType {
    type V = SpecCompleteStructType;

    open spec fn view(&self) -> SpecCompleteStructType {
        SpecCompleteStructType {
            struct_flags: self.struct_flags,
            header: self.header@,
            members: views(self.members@),
        }
    }
}

/// Reading a `CompleteStructType` at position `p` of `s`: its fields in order.
#[verifier::opaque]
pub open spec fn spec_read_complete_struct_type(s: Seq<u8>, p: int, e: Endianness) -> Result<(SpecCompleteStructType, int), ReadError> {
    match spec_read_u16(s, p, e) {
        Err(err) => Err(err),
        Ok((struct_flags, q0)) => match CompleteStructHeader::spec_read(s, q0, e) {
            Err(err) => Err(err),
            Ok((header, q1)) => match spec_read_u32(s, q1, e) {
                Err(err) => Err(err),
                Ok((members_count, q2c)) => match spec_read_seq::<CompleteStructMember>(s, q2c, members_count as nat, e) {
                    Err(err) => Err(err),
                    Ok((members, q2)) => Ok((SpecCompleteStructType { struct_flags, header, members }, q2)),
                },
            },
        },
    }
}

/// The bytes that encode a `CompleteStructType`: its fields in order.
#[verifier::opaque]
pub open spec fn spec_write_complete_struct_type(v: SpecCompleteStructType, e: Endianness) -> Seq<u8> {
    u16_to_bytes(v.struct_flags, e) + CompleteStructHeader::spec_write(v.header, e) + u32_to_bytes(v.members.len() as u32, e) + spec_write_seq::<CompleteStructMember>(v.members, e)
}

impl WireFormat for CompleteStructType {
    open spec fn spec_read(s: Seq<u8>, p: int, e: Endianness) -> Result<(SpecCompleteStructType, int), ReadError> {
        spec_read_complete_struct_type(s, p, e)
    }

    open spec fn spec_write(v: SpecCompleteStructType, e: Endianness) -> Seq<u8> {
        spec_write_complete_struct_type(v, e)
    }

    open spec fn spec_lossless(v: SpecCompleteStructType) -> bool {
        &&& CompleteStructHeader::spec_lossless(v.header)
        &&& v.members.len() <= u32::MAX && all_lossless::<CompleteStructMember>(v.members)
    }

    #[verifier::rlimit(30)]
    proof fn lemma_write_read(v: SpecCompleteStructType, s: Seq<u8>, p: int, e: Endianness) {
        reveal(spec_read_complete_struct_type);
        reveal(spec_write_complete_struct_type);
        let b0 = u16_to_bytes(v.struct_flags, e);
        let b1 = CompleteStructHeader::spec_write(v.header, e);
        let b2 = u32_to_bytes(v.members.len() as u32, e);
        let b3 = spec_write_seq::<CompleteStructMember>(v.members, e);
        lemma_occurs_split(s, p, b0 + b1 + b2, b3);
        lemma_occurs_split(s, p, b0 + b1, b2);
        lemma_occurs_split(s, p, b0, b1);
        let o0 = p;
        let o1 = o0 + b0.len();
        let o2 = o1 + b1.len();
        let o3 = o2 + b2.len();
        lemma_u16_write_read(s, o0, v.struct_flags, e);
        CompleteStructHeader::lemma_write_read(v.header, s, o1, e);
        lemma_u32_write_read(s, o2, v.members.len() as u32, e);
        lemma_seq_write_read::<CompleteStructMember>(v.members, s, o3, e);
        assert((v.members.len() as u32) as nat == v.members.len());
    }

    fn read_from(buf: &[u8], pos: usize, endian: Endianness) -> (res: Result<(CompleteStructType, usize), ReadError>) {
        proof {
            reveal(spec_read_complete_struct_type);
        }
        let (struct_flags, q0) = match read_u16(buf, pos, endian) {
            Ok(r) => r,
            Err(err) => return Err(err),
        };
        let (header, q1) = match CompleteStructHeader::read_from(buf, q0, endian) {
            Ok(r) => r,
            Err(err) => return Err(err),
        };
        let (members_count, q2c) = match read_u32(buf, q1, endian) {
            Ok(r) => r,
            Err(err) => return Err(err),
        };
        let (members, q2) = match read_seq::<CompleteStructMember>(buf, q2c, members_count, endian) {
            Ok(r) => r,
            Err(err) => return Err(err),
        };
        Ok((CompleteStructType { struct_flags, header, members }, q2))
    }

    fn write_to(&self, endian: Endianness, out: &mut Vec<u8>) {
        write_u16(self.struct_flags, endian, out);
        self.header.write_to(endian, out);
        write_u32(self.members.len() as u32, endian, out);
        write_seq(&self.members, endian, out);
        proof {
            reveal(spec_write_complete_struct_type);
        }
        assert(out@ =~= old(out)@ + Self::spec_write(self@, endian));
    }
}

/// Layout of an encoded `CompleteStructType`: `struct_flags` as a `u16`, then `header`, then the number of `members` as a `u32` and each of them, each at its place and
/// nothing more.
pub proof fn lemma_complete_struct_type_layout(v: SpecCompleteStructType, e: Endianness)
    ensures
        ({
            let w = CompleteStructType::spec_write(v, e);
            let b0 = u16_to_bytes(v.struct_flags, e);
            let b1 = CompleteStructHeader::spec_write(v.header, e);
            let b2 = u32_to_bytes(v.members.len() as u32, e);
            let b3 = spec_write_seq::<CompleteStructMember>(v.members, e);
            let o0 = 0int;
            let o1 = o0 + b0.len();
            let o2 = o1 + b1.len();
            let o3 = o2 + b2.len();
            let o4 = o3 + b3.len();
            &&& w.subrange(o0, o1) == b0
            &&& w.subrange(o1, o2) == b1
            &&& w.subrange(o2, o3) == b2
            &&& w.subrange(o3, o4) == b3
            &&& w.len() == o4
        }),
{
    reveal(spec_write_complete_struct_type);
    let w = CompleteStructType::spec_write(v, e);
    let b0 = u16_to_bytes(v.struct_flags, e);
    let b1 = CompleteStructHeader::spec_write(v.header, e);
    let b2 = u32_to_bytes(v.members.len() as u32, e);
    let b3 = spec_write_seq::<CompleteStructMember>(v.members, e);
    lemma_occurs_whole(w);
    lemma_occurs_split(w, 0, b0 + b1 + b2, b3);
    lemma_occurs_split(w, 0, b0 + b1, b2);
    lemma_occurs_split(w, 0, b0, b1);
}

/// What a read of a `CompleteStructType` yields: `struct_flags` as a `u16`, then `header`, then the number of `members` as a `u32` and each of them, each
/// taken from the bytes at its place, and it ends after the last of them.
pub proof fn lemma_complete_struct_type_read_fields(s: Seq<u8>, p: int, e: Endianness)
    requires
        0 <= p,
    ensures
        CompleteStructType::spec_read(s, p, e) matches Ok((v, q)) ==> {
            &&& p + 2 <= s.len()
            &&& v.struct_flags == u16_from_bytes(s[p], s[p + 1], e)
            &&& CompleteStructHeader::spec_read(s, p + 2, e) matches Ok((header_read, r0))
            &&& header_read == v.header
            &&& r0 + 4 <= s.len()
            &&& v.members.len() == u32_from_bytes(s[r0], s[r0 + 1], s[r0 + 2], s[r0 + 3], e)
            &&& spec_read_seq::<CompleteStructMember>(s, r0 + 4, v.members.len(), e) matches Ok((members_read, r1))
            &&& members_read == v.members
            &&& q == r1
        },
{
    reveal(spec_read_complete_struct_type);
    lemma_read_seq_lengths::<CompleteStructMember>();
}

// ---------------------------------------------------------------------------
// CompleteEnumeratedLiteral

/// A literal of an enumeration: its value, flags and name.
#[derive(Debug, Clone, PartialEq, Eq)]
pub struct CompleteEnumeratedLiteral {
    pub value: i32,
    pub flags: u16,
    pub name: String,
}

/// The value of a `CompleteEnumeratedLiteral`.
pub struct SpecCompleteEnumeratedLiteral {
    pub value: i32,
    pub flags: u16,
    pub name: Seq<char>,
}

impl View for CompleteEnumeratedLiteral {
    type V = SpecCompleteEnumeratedLiteral;

    open spec fn view(&self) -> SpecCompleteEnumeratedLiteral {
        SpecCompleteEnumeratedLiteral {
            value: self.value,
            flags: self.flags,
            name: self.name@,
        }
    }
}

/// Reading a `CompleteEnumeratedLiteral` at position `p` of `s`: its fields in order.
#[verifier::opaque]
pub open spec fn spec_read_complete_enumerated_literal(s: Seq<u8>, p: int, e: Endianness) -> Result<(SpecCompleteEnumeratedLiteral, int), ReadError> {
    match spec_read_i32(s, p, e) {
        Err(err) => Err(err),
        Ok((value, q0)) => match spec_read_u16(s, q0, e) {
            Err(err) => Err(err),
            Ok((flags, q1)) => match spec_read_string(s, q1, e) {
                Err(err) => Err(err),
                Ok((name, q2)) => Ok((SpecCompleteEnumeratedLiteral { value, flags, name }, q2)),
            },
        },
    }
}

/// The bytes that encode a `CompleteEnumeratedLiteral`: its fields in order.
#[verifier::opaque]
pub open spec fn spec_write_complete_enumerated_literal(v: SpecCompleteEnumeratedLiteral, e: Endianness) -> Seq<u8> {
    i32_to_bytes(v.value, e) + u16_to_bytes(v.flags, e) + spec_write_string(v.name, e)
}

impl WireFormat for CompleteEnumeratedLiteral {
    open spec fn spec_read(s: Seq<u8>, p: int, e: Endianness) -> Result<(SpecCompleteEnumeratedLiteral, int), ReadError> {
        spec_read_complete_enumerated_literal(s, p, e)
    }

    open spec fn spec_write(v: SpecCompleteEnumeratedLiteral, e: Endianness) -> Seq<u8> {
        spec_write_complete_enumerated_literal(v, e)
    }

    open spec fn spec_lossless(v: SpecCompleteEnumeratedLiteral) -> bool {
        &&& string_lossless(v.name)
    }

    #[verifier::rlimit(30)]
    proof fn lemma_write_read(v: SpecCompleteEnumeratedLiteral, s: Seq<u8>, p: int, e: Endianness) {
        reveal(spec_read_complete_enumerated_literal);
        reveal(spec_write_complete_enumerated_literal);
        let b0 = i32_to_bytes(v.value, e);
        let b1 = u16_to_bytes(v.flags, e);
        let b2 = spec_write_string(v.name, e);
        lemma_occurs_split(s, p, b0 + b1, b2);
        lemma_occurs_split(s, p, b0, b1);
        let o0 = p;
        let o1 = o0 + b0.len();
        let o2 = o1 + b1.len();
        lemma_i32_write_read(s, o0, v.value, e);
        lemma_u16_write_read(s, o1, v.flags, e);
        lemma_string_write_read(s, o2, v.name, e);
    }

    fn read_from(buf: &[u8], pos: usize, endian: Endianness) -> (res: Result<(CompleteEnumeratedLiteral, usize), ReadError>) {
        proof {
            reveal(spec_read_complete_enumerated_literal);
        }
        let (value, q0) = match read_i32(buf, pos, endian) {
            Ok(r) => r,
            Err(err) => return Err(err),
        };
        let (flags, q1) = match read_u16(buf, q0, endian) {
            Ok(r) => r,
            Err(err) => return Err(err),
        };
        let (name, q2) = match read_string(buf, q1, endian) {
            Ok(r) => r,
            Err(err) => return Err(err),
        };
        Ok((CompleteEnumeratedLiteral { value, flags, name }, q2))
    }

    fn write_to(&self, endian: Endianness, out: &mut Vec<u8>) {
        write_i32(self.value, endian, out);
        write_u16(self.flags, endian, out);
        write_string(&self.name, endian, out);
        proof {
            reveal(spec_write_complete_enumerated_literal);
        }
        assert(out@ =~= old(out)@ + Self::spec_write(self@, endian));
    }
}

/// Layout of an encoded `CompleteEnumeratedLiteral`: `value` as an `i32`, then `flags` as a `u16`, then the string `name`, each at its place and
/// nothing more.
pub proof fn lemma_complete_enumerated_literal_layout(v: SpecCompleteEnumeratedLiteral, e: Endianness)
    ensures
        ({
            let w = CompleteEnumeratedLiteral::spec_write(v, e);
            let b0 = i32_to_bytes(v.value, e);
            let b1 = u16_to_bytes(v.flags, e);
            let b2 = spec_write_string(v.name, e);
            let o0 = 0int;
            let o1 = o0 + b0.len();
            let o2 = o1 + b1.len();
            let o3 = o2 + b2.len();
            &&& w.subrange(o0, o1) == b0
            &&& w.subrange(o1, o2) == b1
            &&& w.subrange(o2, o3) == b2
            &&& w.len() == o3
        }),
{
    reveal(spec_write_complete_enumerated_literal);
    let w = CompleteEnumeratedLiteral::spec_write(v, e);
    let b0 = i32_to_bytes(v.value, e);
    let b1 = u16_to_bytes(v.flags, e);
    let b2 = spec_write_string(v.name, e);
    lemma_occurs_whole(w);
    lemma_occurs_split(w, 0, b0 + b1, b2);
    lemma_occurs_split(w, 0, b0, b1);
}

/// What a read of a `CompleteEnumeratedLiteral` yields: `value` as an `i32`, then `flags` as a `u16`, then the string `name`, each
/// taken from the bytes at its place, and it ends after the last of them.
pub proof fn lemma_complete_enumerated_literal_read_fields(s: Seq<u8>, p: int, e: Endianness)
    requires
        0 <= p,
    ensures
        CompleteEnumeratedLiteral::spec_read(s, p, e) matches Ok((v, q)) ==> {
            &&& p + 4 <= s.len()
            &&& v.value == i32_from_bytes(s[p], s[p + 1], s[p + 2], s[p + 3], e)
            &&& p + 4 + 2 <= s.len()
            &&& v.flags == u16_from_bytes(s[p + 4], s[p + 4 + 1], e)
            &&& spec_read_string(s, p + 4 + 2, e) matches Ok((name_read, r0))
            &&& name_read == v.name
            &&& q == r0
        },
{
    reveal(spec_read_complete_enumerated_literal);
}

// ---------------------------------------------------------------------------
// CompleteEnumeratedType

/// An enumeration type: flags, bit bound, name, and literals.
#[derive(Debug, Clone, PartialEq, Eq)]
pub struct CompleteEnumeratedType {
    pub enum_flags: u16,
    pub bit_bound: u16,
    pub name_of_type: String,
    pub literals: Vec<CompleteEnumeratedLiteral>,
}

/// The value of a `CompleteEnumeratedType`.
pub struct SpecCompleteEnumeratedType {
    pub enum_flags: u16,
    pub bit_bound: u16,
    pub name_of_type: Seq<char>,
    pub literals: Seq<SpecCompleteEnumeratedLiteral>,
}

impl View for CompleteEnumeratedType {
    type V = SpecCompleteEnumeratedType;

    open spec fn view(&self) -> SpecCompleteEnumeratedType {
        SpecCompleteEnumeratedType {
            enum_flags: self.enum_flags,
            bit_bound: self.bit_bound,
            name_of_type: self.name_of_type@,
            literals: views(self.literals@),
        }
    }
}

/// Reading a `CompleteEnumeratedType` at position `p` of `s`: its fields in order.
#[verifier::opaque]
pub open spec fn spec_read_complete_enumerated_type(s: Seq<u8>, p: int, e: Endianness) -> Result<(SpecCompleteEnumeratedType, int), ReadError> {
    match spec_read_u16(s, p, e) {
        Err(err) => Err(err),
        Ok((enum_flags, q0)) => match spec_read_u16(s, q0, e) {
            Err(err) => Err(err),
            Ok((bit_bound, q1)) => match spec_read_string(s, q1, e) {
                Err(err) => Err(err),
                Ok((name_of_type, q2)) => match spec_read_u32(s, q2, e) {
                    Err(err) => Err(err),
                    Ok((literals_count, q3c)) => match spec_read_seq::<CompleteEnumeratedLiteral>(s, q3c, literals_count as nat, e) {
                        Err(err) => Err(err),
                        Ok((literals, q3)) => Ok((SpecCompleteEnumeratedType { enum_flags, bit_bound, name_of_type, literals }, q3)),
                    },
                },
            },
        },
    }
}

/// The bytes that encode a `CompleteEnumeratedType`: its fields in order.
#[verifier::opaque]
pub open spec fn spec_write_complete_enumerated_type(v: SpecCompleteEnumeratedType, e: Endianness) -> Seq<u8> {
    u16_to_bytes(v.enum_flags, e) + u16_to_bytes(v.bit_bound, e) + spec_write_string(v.name_of_type, e) + u32_to_bytes(v.literals.len() as u32, e) + spec_write_seq::<CompleteEnumeratedLiteral>(v.literals, e)
}

impl WireFormat for CompleteEnumeratedType {
    open spec fn spec_read(s: Seq<u8>, p: int, e: Endianness) -> Result<(SpecCompleteEnumeratedType, int), ReadError> {
        spec_read_complete_enumerated_type(s, p, e)
    }

    open spec fn spec_write(v: SpecCompleteEnumeratedType, e: Endianness) -> Seq<u8> {
        spec_write_complete_enumerated_type(v, e)
    }

    open spec fn spec_lossless(v: SpecCompleteEnumeratedType) -> bool {
        &&& string_lossless(v.name_of_type)
        &&& v.literals.len() <= u32::MAX && all_lossless::<CompleteEnumeratedLiteral>(v.literals)
    }

    #[verifier::rlimit(30)]
    proof fn lemma_write_read(v: SpecCompleteEnumeratedType, s: Seq<u8>, p: int, e: Endianness) {
        reveal(spec_read_complete_enumerated_type);
        reveal(spec_write_complete_enumerated_type);
        let b0 = u16_to_bytes(v.enum_flags, e);
        let b1 = u16_to_bytes(v.bit_bound, e);
        let b2 = spec_write_string(v.name_of_type, e);
        let b3 = u32_to_bytes(v.literals.len() as u32, e);
        let b4 = spec_write_seq::<CompleteEnumeratedLiteral>(v.literals, e);
        lemma_occurs_split(s, p, b0 + b1 + b2 + b3, b4);
        lemma_occurs_split(s, p, b0 + b1 + b2, b3);
        lemma_occurs_split(s, p, b0 + b1, b2);
        lemma_occurs_split(s, p, b0, b1);
        let o0 = p;
        let o1 = o0 + b0.len();
        let o2 = o1 + b1.len();
        let o3 = o2 + b2.len();
        let o4 = o3 + b3.len();
        lemma_u16_write_read(s, o0, v.enum_flags, e);
        lemma_u16_write_read(s, o1, v.bit_bound, e);
        lemma_string_write_read(s, o2, v.name_of_type, e);
        lemma_u32_write_read(s, o3, v.literals.len() as u32, e);
        lemma_seq_write_read::<CompleteEnumeratedLiteral>(v.literals, s, o4, e);
        assert((v.literals.len() as u32) as nat == v.literals.len());
    }

    fn read_from(buf: &[u8], pos: usize, endian: Endianness) -> (res: Result<(CompleteEnumeratedType, usize), ReadError>) {
        proof {
            reveal(spec_read_complete_enumerated_type);
        }
        let (enum_flags, q0) = match read_u16(buf, pos, endian) {
            Ok(r) => r,
            Err(err) => return Err(err),
        };
        let (bit_bound, q1) = match read_u16(buf, q0, endian) {
            Ok(r) => r,
            Err(err) => return Err(err),
        };
        let (name_of_type, q2) = match read_string(buf, q1, endian) {
            Ok(r) => r,
            Err(err) => return Err(err),
        };
        let (literals_count, q3c) = match read_u32(buf, q2, endian) {
            Ok(r) => r,
            Err(err) => return Err(err),
        };
        let (literals, q3) = match read_seq::<CompleteEnumeratedLiteral>(buf, q3c, literals_count, endian) {
            Ok(r) => r,
            Err(err) => return Err(err),
        };
        Ok((CompleteEnumeratedType { enum_flags, bit_bound, name_of_type, literals }, q3))
    }

    fn write_to(&self, endian: Endianness, out: &mut Vec<u8>) {
        write_u16(self.enum_flags, endian, out);
        write_u16(self.bit_bound, endian, out);
        write_string(&self.name_of_type, endian, out);
        write_u32(self.literals.len() as u32, endian, out);
        write_seq(&self.literals, endian, out);
        proof {
            reveal(spec_write_complete_enumerated_type);
        }
        assert(out@ =~= old(out)@ + Self::spec_write(self@, endian));
    }
}

/// Layout of an encoded `CompleteEnumeratedType`: `enum_flags` as a `u16`, then `bit_bound` as a `u16`, then the string `name_of_type`, then the number of `literals` as a `u32` and each of them, each at its place and
/// nothing more.
pub proof fn lemma_complete_enumerated_type_layout(v: SpecCompleteEnumeratedType, e: Endianness)
    ensures
        ({
            let w = CompleteEnumeratedType::spec_write(v, e);
            let b0 = u16_to_bytes(v.enum_flags, e);
            let b1 = u16_to_bytes(v.bit_bound, e);
            let b2 = spec_write_string(v.name_of_type, e);
            let b3 = u32_to_bytes(v.literals.len() as u32, e);
            let b4 = spec_write_seq::<CompleteEnumeratedLiteral>(v.literals, e);
            let o0 = 0int;
            let o1 = o0 + b0.len();
            let o2 = o1 + b1.len();
            let o3 = o2 + b2.len();
            let o4 = o3 + b3.len();
            let o5 = o4 + b4.len();
            &&& w.subrange(o0, o1) == b0
            &&& w.subrange(o1, o2) == b1
            &&& w.subrange(o2, o3) == b2
            &&& w.subrange(o3, o4) == b3
            &&& w.subrange(o4, o5) == b4
            &&& w.len() == o5
        }),
{
    reveal(spec_write_complete_enumerated_type);
    let w = CompleteEnumeratedType::spec_write(v, e);
    let b0 = u16_to_bytes(v.enum_flags, e);
    let b1 = u16_to_bytes(v.bit_bound, e);
    let b2 = spec_write_string(v.name_of_type, e);
    let b3 = u32_to_bytes(v.literals.len() as u32, e);
    let b4 = spec_write_seq::<CompleteEnumeratedLiteral>(v.literals, e);
    lemma_occurs_whole(w);
    lemma_occurs_split(w, 0, b0 + b1 + b2 + b3, b4);
    lemma_occurs_split(w, 0, b0 + b1 + b2, b3);
    lemma_occurs_split(w, 0, b0 + b1, b2);
    lemma_occurs_split(w, 0, b0, b1);
}

/// What a read of a `CompleteEnumeratedType` yields: `enum_flags` as a `u16`, then `bit_bound` as a `u16`, then the string `name_of_type`, then the number of `literals` as a `u32` and each of them, each
/// taken from the bytes at its place, and it ends after the last of them.
pub proof fn lemma_complete_enumerated_type_read_fields(s: Seq<u8>, p: int, e: Endianness)
    requires
        0 <= p,
    ensures
        CompleteEnumeratedType::spec_read(s, p, e) matches Ok((v, q)) ==> {
            &&& p + 2 <= s.len()
            &&& v.enum_flags == u16_from_bytes(s[p], s[p + 1], e)
            &&& p + 2 + 2 <= s.len()
            &&& v.bit_bound == u16_from_bytes(s[p + 2], s[p + 2 + 1], e)
            &&& spec_read_string(s, p + 2 + 2, e) matches Ok((name_of_type_read, r0))
            &&& name_of_type_read == v.name_of_type
            &&& r0 + 4 <= s.len()
            &&& v.literals.len() == u32_from_bytes(s[r0], s[r0 + 1], s[r0 + 2], s[r0 + 3], e)
            &&& spec_read_seq::<CompleteEnumeratedLiteral>(s, r0 + 4, v.literals.len(), e) matches Ok((literals_read, r1))
            &&& literals_read == v.literals
            &&& q == r1
        },
{
    reveal(spec_read_complete_enumerated_type);
    lemma_read_seq_lengths::<CompleteEnumeratedLiteral>();
}

// ---------------------------------------------------------------------------
// CompleteAliasType

/// An alias type: flags, name, and the type it stands for.
#[derive(Debug, Clone, PartialEq, Eq)]
pub struct CompleteAliasType {
    pub alias_flags: u16,
    pub name_of_type: String,
    pub body_flags: u16,
    pub related_type: TypeIdentifier,
}

/// The value of a `CompleteAliasType`.
pub struct SpecCompleteAliasType {
    pub alias_flags: u16,
    pub name_of_type: Seq<char>,
    pub body_flags: u16,
    pub related_type: SpecTypeIdentifier,
}

impl View for CompleteAliasType {
    type V = SpecCompleteAliasType;

    open spec fn view(&self) -> SpecCompleteAliasType {
        SpecCompleteAliasType {
            alias_flags: self.alias_flags,
            name_of_type: self.name_of_type@,
            body_flags: self.body_flags,
            related_type: self.related_type@,
        }
    }
}

/// Reading a `CompleteAliasType` at position `p` of `s`: its fields in order.
#[verifier::opaque]
pub open spec fn spec_read_complete_alias_type(s: Seq<u8>, p: int, e: Endianness) -> Result<(SpecCompleteAliasType, int), ReadError> {
    match spec_read_u16(s, p, e) {
        Err(err) => Err(err),
        Ok((alias_flags, q0)) => match spec_read_string(s, q0, e) {
            Err(err) => Err(err),
            Ok((name_of_type, q1)) => match spec_read_u16(s, q1, e) {
                Err(err) => Err(err),
                Ok((body_flags, q2)) => match TypeIdentifier::spec_read(s, q2, e) {
                    Err(err) => Err(err),
                    Ok((related_type, q3)) => Ok((SpecCompleteAliasType { alias_flags, name_of_type, body_flags, related_type }, q3)),
                },
            },
        },
    }
}

/// The bytes that encode a `CompleteAliasType`: its fields in order.
#[verifier::opaque]
pub open spec fn spec_write_complete_alias_type(v: SpecCompleteAliasType, e: Endianness) -> Seq<u8> {
    u16_to_bytes(v.alias_flags, e) + spec_write_string(v.name_of_type, e) + u16_to_bytes(v.body_flags, e) + TypeIdentifier::spec_write(v.related_type, e)
}

impl WireFormat for CompleteAliasType {
    open spec fn spec_read(s: Seq<u8>, p: int, e: Endianness) -> Result<(SpecCompleteAliasType, int), ReadError> {
        spec_read_complete_alias_type(s, p, e)
    }

    open spec fn spec_write(v: SpecCompleteAliasType, e: Endianness) -> Seq<u8> {
        spec_write_complete_alias_type(v, e)
    }

    open spec fn spec_lossless(v: SpecCompleteAliasType) -> bool {
        &&& string_lossless(v.name_of_type)
        &&& type_identifier_lossless(v.related_type)
    }

    #[verifier::rlimit(30)]
    proof fn lemma_write_read(v: SpecCompleteAliasType, s: Seq<u8>, p: int, e: Endianness) {
        reveal(spec_read_complete_alias_type);
        reveal(spec_write_complete_alias_type);
        let b0 = u16_to_bytes(v.alias_flags, e);
        let b1 = spec_write_string(v.name_of_type, e);
        let b2 = u16_to_bytes(v.body_flags, e);
        let b3 = TypeIdentifier::spec_write(v.related_type, e);
        lemma_occurs_split(s, p, b0 + b1 + b2, b3);
        lemma_occurs_split(s, p, b0 + b1, b2);
        lemma_occurs_split(s, p, b0, b1);
        let o0 = p;
        let o1 = o0 + b0.len();
        let o2 = o1 + b1.len();
        let o3 = o2 + b2.len();
        lemma_u16_write_read(s, o0, v.alias_flags, e);
        lemma_string_write_read(s, o1, v.name_of_type, e);
        lemma_u16_write_read(s, o2, v.body_flags, e);
        TypeIdentifier::lemma_write_read(v.related_type, s, o3, e);
    }

    fn read_from(buf: &[u8], pos: usize, endian: Endianness) -> (res: Result<(CompleteAliasType, usize), ReadError>) {
        proof {
            reveal(spec_read_complete_alias_type);
        }
        let (alias_flags, q0) = match read_u16(buf, pos, endian) {
            Ok(r) => r,
            Err(err) => return Err(err),
        };
        let (name_of_type, q1) = match read_string(buf, q0, endian) {
            Ok(r) => r,
            Err(err) => return Err(err),
        };
        let (body_flags, q2) = match read_u16(buf, q1, endian) {
            Ok(r) => r,
            Err(err) => return Err(err),
        };
        let (related_type, q3) = match TypeIdentifier::read_from(buf, q2, endian) {
            Ok(r) => r,
            Err(err) => return Err(err),
        };
        Ok((CompleteAliasType { alias_flags, name_of_type, body_flags, related_type }, q3))
    }

    fn write_to(&self, endian: Endianness, out: &mut Vec<u8>) {
        write_u16(self.alias_flags, endian, out);
        write_string(&self.name_of_type, endian, out);
        write_u16(self.body_flags, endian, out);
        self.related_type.write_to(endian, out);
        proof {
            reveal(spec_write_complete_alias_type);
        }
        assert(out@ =~= old(out)@ + Self::spec_write(self@, endian));
    }
}

/// Layout of an encoded `CompleteAliasType`: `alias_flags` as a `u16`, then the string `name_of_type`, then `body_flags` as a `u16`, then the identifier `related_type`, each at its place and
/// nothing more.
pub proof fn lemma_complete_alias_type_layout(v: SpecCompleteAliasType, e: Endianness)
    ensures
        ({
            let w = CompleteAliasType::spec_write(v, e);
            let b0 = u16_to_bytes(v.alias_flags, e);
            let b1 = spec_write_string(v.name_of_type, e);
            let b2 = u16_to_bytes(v.body_flags, e);
            let b3 = TypeIdentifier::spec_write(v.related_type, e);
            let o0 = 0int;
            let o1 = o0 + b0.len();
            let o2 = o1 + b1.len();
            let o3 = o2 + b2.len();
            let o4 = o3 + b3.len();
            &&& w.subrange(o0, o1) == b0
            &&& w.subrange(o1, o2) == b1
            &&& w.subrange(o2, o3) == b2
            &&& w.subrange(o3, o4) == b3
            &&& w.len() == o4
        }),
{
    reveal(spec_write_complete_alias_type);
    let w = CompleteAliasType::spec_write(v, e);
    let b0 = u16_to_bytes(v.alias_flags, e);
    let b1 = spec_write_string(v.name_of_type, e);
    let b2 = u16_to_bytes(v.body_flags, e);
    let b3 = TypeIdentifier::spec_write(v.related_type, e);
    lemma_occurs_whole(w);
    lemma_occurs_split(w, 0, b0 + b1 + b2, b3);
    lemma_occurs_split(w, 0, b0 + b1, b2);
    lemma_occurs_split(w, 0, b0, b1);
}

/// What a read of a `CompleteAliasType` yields: `alias_flags` as a `u16`, then the string `name_of_type`, then `body_flags` as a `u16`, then the identifier `related_type`, each
/// taken from the bytes at its place, and it ends after the last of them.
pub proof fn lemma_complete_alias_type_read_fields(s: Seq<u8>, p: int, e: Endianness)
    requires
        0 <= p,
    ensures
        CompleteAliasType::spec_read(s, p, e) matches Ok((v, q)) ==> {
            &&& p + 2 <= s.len()
            &&& v.alias_flags == u16_from_bytes(s[p], s[p + 1], e)
            &&& spec_read_string(s, p + 2, e) matches Ok((name_of_type_read, r0))
            &&& name_of_type_read == v.name_of_type
            &&& r0 + 2 <= s.len()
            &&& v.body_flags == u16_from_bytes(s[r0], s[r0 + 1], e)
            &&& TypeIdentifier::spec_read(s, r0 + 2, e) matches Ok((related_type_read, r1))
            &&& related_type_read == v.related_type
            &&& q == r1
        },
{
    reveal(spec_read_complete_alias_type);
}

// ---------------------------------------------------------------------------
// CompleteSequenceType

/// A sequence type: flags, bound, and element type.
#[derive(Debug, Clone, PartialEq, Eq)]
pub struct CompleteSequenceType {
    pub collection_flags: u16,
    pub bound: u32,
    pub element_flags: u16,
    pub element_type: TypeIdentifier,
}

/// The value of a `CompleteSequenceType`.
pub struct SpecCompleteSequenceType {
    pub collection_flags: u16,
    pub bound: u32,
    pub element_flags: u16,
    pub element_type: SpecTypeIdentifier,
}

impl View for CompleteSequenceType {
    type V = SpecCompleteSequenceType;

    open spec fn view(&self) -> SpecCompleteSequenceType {
        SpecCompleteSequenceType {
            collection_flags: self.collection_flags,
            bound: self.bound,
            element_flags: self.element_flags,
            element_type: self.element_type@,
        }
    }
}

/// Reading a `CompleteSequenceType` at position `p` of `s`: its fields in order.
#[verifier::opaque]
pub open spec fn spec_read_complete_sequence_type(s: Seq<u8>, p: int, e: Endianness) -> Result<(SpecCompleteSequenceType, int), ReadError> {
    match spec_read_u16(s, p, e) {
        Err(err) => Err(err),
        Ok((collection_flags, q0)) => match spec_read_u32(s, q0, e) {
            Err(err) => Err(err),
            Ok((bound, q1)) => match spec_read_u16(s, q1, e) {
                Err(err) => Err(err),
                Ok((element_flags, q2)) => match TypeIdentifier::spec_read(s, q2, e) {
                    Err(err) => Err(err),
                    Ok((element_type, q3)) => Ok((SpecCompleteSequenceType { collection_flags, bound, element_flags, element_type }, q3)),
                },
            },
        },
    }
}

/// The bytes that encode a `CompleteSequenceType`: its fields in order.
#[verifier::opaque]
pub open spec fn spec_write_complete_sequence_type(v: SpecCompleteSequenceType, e: Endianness) -> Seq<u8> {
    u16_to_bytes(v.collection_flags, e) + u32_to_bytes(v.bound, e) + u16_to_bytes(v.element_flags, e) + TypeIdentifier::spec_write(v.element_type, e)
}

impl WireFormat for CompleteSequenceType {
    open spec fn spec_read(s: Seq<u8>, p: int, e: Endianness) -> Result<(SpecCompleteSequenceType, int), ReadError> {
        spec_read_complete_sequence_type(s, p, e)
    }

    open spec fn spec_write(v: SpecCompleteSequenceType, e: Endianness) -> Seq<u8> {
        spec_write_complete_sequence_type(v, e)
    }

    open spec fn spec_lossless(v: SpecCompleteSequenceType) -> bool {
        &&& type_identifier_lossless(v.element_type)
    }

    #[verifier::rlimit(30)]
    proof fn lemma_write_read(v: SpecCompleteSequenceType, s: Seq<u8>, p: int, e: Endianness) {
        reveal(spec_read_complete_sequence_type);
        reveal(spec_write_complete_sequence_type);
        let b0 = u16_to_bytes(v.collection_flags, e);
        let b1 = u32_to_bytes(v.bound, e);
        let b2 = u16_to_bytes(v.element_flags, e);
        let b3 = TypeIdentifier::spec_write(v.element_type, e);
        lemma_occurs_split(s, p, b0 + b1 + b2, b3);
        lemma_occurs_split(s, p, b0 + b1, b2);
        lemma_occurs_split(s, p, b0, b1);
        let o0 = p;
        let o1 = o0 + b0.len();
        let o2 = o1 + b1.len();
        let o3 = o2 + b2.len();
        lemma_u16_write_read(s, o0, v.collection_flags, e);
        lemma_u32_write_read(s, o1, v.bound, e);
        lemma_u16_write_read(s, o2, v.element_flags, e);
        TypeIdentifier::lemma_write_read(v.element_type, s, o3, e);
    }

    fn read_from(buf: &[u8], pos: usize, endian: Endianness) -> (res: Result<(CompleteSequenceType, usize), ReadError>) {
        proof {
            reveal(spec_read_complete_sequence_type);
        }
        let (collection_flags, q0) = match read_u16(buf, pos, endian) {
            Ok(r) => r,
            Err(err) => return Err(err),
        };
        let (bound, q1) = match read_u32(buf, q0, endian) {
            Ok(r) => r,
            Err(err) => return Err(err),
        };
        let (element_flags, q2) = match read_u16(buf, q1, endian) {
            Ok(r) => r,
            Err(err) => return Err(err),
        };
        let (element_type, q3) = match TypeIdentifier::read_from(buf, q2, endian) {
            Ok(r) => r,
            Err(err) => return Err(err),
        };
        Ok((CompleteSequenceType { collection_flags, bound, element_flags, element_type }, q3))
    }

    fn write_to(&self, endian: Endianness, out: &mut Vec<u8>) {
        write_u16(self.collection_flags, endian, out);
        write_u32(self.bound, endian, out);
        write_u16(self.element_flags, endian, out);
        self.element_type.write_to(endian, out);
        proof {
            reveal(spec_write_complete_sequence_type);
        }
        assert(out@ =~= old(out)@ + Self::spec_write(self@, endian));
    }
}

/// Layout of an encoded `CompleteSequenceType`: `collection_flags` as a `u16`, then `bound` as a `u32`, then `element_flags` as a `u16`, then the identifier `element_type`, each at its place and
/// nothing more.
pub proof fn lemma_complete_sequence_type_layout(v: SpecCompleteSequenceType, e: Endianness)
    ensures
        ({
            let w = CompleteSequenceType::spec_write(v, e);
            let b0 = u16_to_bytes(v.collection_flags, e);
            let b1 = u32_to_bytes(v.bound, e);
            let b2 = u16_to_bytes(v.element_flags, e);
            let b3 = TypeIdentifier::spec_write(v.element_type, e);
            let o0 = 0int;
            let o1 = o0 + b0.len();
            let o2 = o1 + b1.len();
            let o3 = o2 + b2.len();
            let o4 = o3 + b3.len();
            &&& w.subrange(o0, o1) == b0
            &&& w.subrange(o1, o2) == b1
            &&& w.subrange(o2, o3) == b2
            &&& w.subrange(o3, o4) == b3
            &&& w.len() == o4
        }),
{
    reveal(spec_write_complete_sequence_type);
    let w = CompleteSequenceType::spec_write(v, e);
    let b0 = u16_to_bytes(v.collection_flags, e);
    let b1 = u32_to_bytes(v.bound, e);
    let b2 = u16_to_bytes(v.element_flags, e);
    let b3 = TypeIdentifier::spec_write(v.element_type, e);
    lemma_occurs_whole(w);
    lemma_occurs_split(w, 0, b0 + b1 + b2, b3);
    lemma_occurs_split(w, 0, b0 + b1, b2);
    lemma_occurs_split(w, 0, b0, b1);
}

/// What a read of a `CompleteSequenceType` yields: `collection_flags` as a `u16`, then `bound` as a `u32`, then `element_flags` as a `u16`, then the identifier `element_type`, each
/// taken from the bytes at its place, and it ends after the last of them.
pub proof fn lemma_complete_sequence_type_read_fields(s: Seq<u8>, p: int, e: Endianness)
    requires
        0 <= p,
    ensures
        CompleteSequenceType::spec_read(s, p, e) matches Ok((v, q)) ==> {
            &&& p + 2 <= s.len()
            &&& v.collection_flags == u16_from_bytes(s[p], s[p + 1], e)
            &&& p + 2 + 4 <= s.len()
            &&& v.bound == u32_from_bytes(s[p + 2], s[p + 2 + 1], s[p + 2 + 2], s[p + 2 + 3], e)
            &&& p + 2 + 4 + 2 <= s.len()
            &&& v.element_flags == u16_from_bytes(s[p + 2 + 4], s[p + 2 + 4 + 1], e)
            &&& TypeIdentifier::spec_read(s, p + 2 + 4 + 2, e) matches Ok((element_type_read, r0))
            &&& element_type_read == v.element_type
            &&& q == r0
        },
{
    reveal(spec_read_complete_sequence_type);
}

// ---------------------------------------------------------------------------
// CompleteArrayType

/// An array type: flags, the bound of each dimension, and element type.
#[derive(Debug, Clone, PartialEq, Eq)]
pub struct CompleteArrayType {
    pub collection_flags: u16,
    pub bound: Vec<u32>,
    pub element_flags: u16,
    pub element_type: TypeIdentifier,
}

/// The value of a `CompleteArrayType`.
pub struct SpecCompleteArrayType {
    pub collection_flags: u16,
    pub bound: Seq<u32>,
    pub element_flags: u16,
    pub element_type: SpecTypeIdentifier,
}

impl View for CompleteArrayType {
    type V = SpecCompleteArrayType;

    open spec fn view(&self) -> SpecCompleteArrayType {
        SpecCompleteArrayType {
            collection_flags: self.collection_flags,
            bound: views(self.bound@),
            element_flags: self.element_flags,
            element_type: self.element_type@,
        }
    }
}

/// Reading a `CompleteArrayType` at position `p` of `s`: its fields in order.
#[verifier::opaque]
pub open spec fn spec_read_complete_array_type(s: Seq<u8>, p: int, e: Endianness) -> Result<(SpecCompleteArrayType, int), ReadError> {
    match spec_read_u16(s, p, e) {
        Err(err) => Err(err),
        Ok((collection_flags, q0)) => match spec_read_u32(s, q0, e) {
            Err(err) => Err(err),
            Ok((bound_count, q1c)) => match spec_read_seq::<u32>(s, q1c, bound_count as nat, e) {
                Err(err) => Err(err),
                Ok((bound, q1)) => match spec_read_u16(s, q1, e) {
                    Err(err) => Err(err),
                    Ok((element_flags, q2)) => match TypeIdentifier::spec_read(s, q2, e) {
                        Err(err) => Err(err),
                        Ok((element_type, q3)) => Ok((SpecCompleteArrayType { collection_flags, bound, element_flags, element_type }, q3)),
                    },
                },
            },
        },
    }
}

/// The bytes that encode a `CompleteArrayType`: its fields in order.
#[verifier::opaque]
pub open spec fn spec_write_complete_array_type(v: SpecCompleteArrayType, e: Endianness) -> Seq<u8> {
    u16_to_bytes(v.collection_flags, e) + u32_to_bytes(v.bound.len() as u32, e) + spec_write_seq::<u32>(v.bound, e) + u16_to_bytes(v.element_flags, e) + TypeIdentifier::spec_write(v.element_type, e)
}

impl WireFormat for CompleteArrayType {
    open spec fn spec_read(s: Seq<u8>, p: int, e: Endianness) -> Result<(SpecCompleteArrayType, int), ReadError> {
        spec_read_complete_array_type(s, p, e)
    }

    open spec fn spec_write(v: SpecCompleteArrayType, e: Endianness) -> Seq<u8> {
        spec_write_complete_array_type(v, e)
    }

    open spec fn spec_lossless(v: SpecCompleteArrayType) -> bool {
        &&& v.bound.len() <= u32::MAX
        &&& type_identifier_lossless(v.element_type)
    }

    #[verifier::rlimit(30)]
    proof fn lemma_write_read(v: SpecCompleteArrayType, s: Seq<u8>, p: int, e: Endianness) {
        reveal(spec_read_complete_array_type);
        reveal(spec_write_complete_array_type);
        let b0 = u16_to_bytes(v.collection_flags, e);
        let b1 = u32_to_bytes(v.bound.len() as u32, e);
        let b2 = spec_write_seq::<u32>(v.bound, e);
        let b3 = u16_to_bytes(v.element_flags, e);
        let b4 = TypeIdentifier::spec_write(v.element_type, e);
        lemma_occurs_split(s, p, b0 + b1 + b2 + b3, b4);
        lemma_occurs_split(s, p, b0 + b1 + b2, b3);
        lemma_occurs_split(s, p, b0 + b1, b2);
        lemma_occurs_split(s, p, b0, b1);
        let o0 = p;
        let o1 = o0 + b0.len();
        let o2 = o1 + b1.len();
        let o3 = o2 + b2.len();
        let o4 = o3 + b3.len();
        lemma_u16_write_read(s, o0, v.collection_flags, e);
        lemma_u32_write_read(s, o1, v.bound.len() as u32, e);
        lemma_seq_write_read::<u32>(v.bound, s, o2, e);
        lemma_u16_write_read(s, o3, v.element_flags, e);
        TypeIdentifier::lemma_write_read(v.element_type, s, o4, e);
        assert((v.bound.len() as u32) as nat == v.bound.len());
    }

    fn read_from(buf: &[u8], pos: usize, endian: Endianness) -> (res: Result<(CompleteArrayType, usize), ReadError>) {
        proof {
            reveal(spec_read_complete_array_type);
        }
        let (collection_flags, q0) = match read_u16(buf, pos, endian) {
            Ok(r) => r,
            Err(err) => return Err(err),
        };
        let (bound_count, q1c) = match read_u32(buf, q0, endian) {
            Ok(r) => r,
            Err(err) => return Err(err),
        };
        let (bound, q1) = match read_seq::<u32>(buf, q1c, bound_count, endian) {
            Ok(r) => r,
            Err(err) => return Err(err),
        };
        let (element_flags, q2) = match read_u16(buf, q1, endian) {
            Ok(r) => r,
            Err(err) => return Err(err),
        };
        let (element_type, q3) = match TypeIdentifier::read_from(buf, q2, endian) {
            Ok(r) => r,
            Err(err) => return Err(err),
        };
        Ok((CompleteArrayType { collection_flags, bound, element_flags, element_type }, q3))
    }

    fn write_to(&self, endian: Endianness, out: &mut Vec<u8>) {
        write_u16(self.collection_flags, endian, out);
        write_u32(self.bound.len() as u32, endian, out);
        write_seq(&self.bound, endian, out);
        write_u16(self.element_flags, endian, out);
        self.element_type.write_to(endian, out);
        proof {
            reveal(spec_write_complete_array_type);
        }
        assert(out@ =~= old(out)@ + Self::spec_write(self@, endian));
    }
}

/// Layout of an encoded `CompleteArrayType`: `collection_flags` as a `u16`, then the number of `bound` as a `u32` and each of them, then `element_flags` as a `u16`, then the identifier `element_type`, each at its place and
/// nothing more.
pub proof fn lemma_complete_array_type_layout(v: SpecCompleteArrayType, e: Endianness)
    ensures
        ({
            let w = CompleteArrayType::spec_write(v, e);
            let b0 = u16_to_bytes(v.collection_flags, e);
            let b1 = u32_to_bytes(v.bound.len() as u32, e);
            let b2 = spec_write_seq::<u32>(v.bound, e);
            let b3 = u16_to_bytes(v.element_flags, e);
            let b4 = TypeIdentifier::spec_write(v.element_type, e);
            let o0 = 0int;
            let o1 = o0 + b0.len();
            let o2 = o1 + b1.len();
            let o3 = o2 + b2.len();
            let o4 = o3 + b3.len();
            let o5 = o4 + b4.len();
            &&& w.subrange(o0, o1) == b0
            &&& w.subrange(o1, o2) == b1
            &&& w.subrange(o2, o3) == b2
            &&& w.subrange(o3, o4) == b3
            &&& w.subrange(o4, o5) == b4
            &&& w.len() == o5
        }),
{
    reveal(spec_write_complete_array_type);
    let w = CompleteArrayType::spec_write(v, e);
    let b0 = u16_to_bytes(v.collection_flags, e);
    let b1 = u32_to_bytes(v.bound.len() as u32, e);
    let b2 = spec_write_seq::<u32>(v.bound, e);
    let b3 = u16_to_bytes(v.element_flags, e);
    let b4 = TypeIdentifier::spec_write(v.element_type, e);
    lemma_occurs_whole(w);
    lemma_occurs_split(w, 0, b0 + b1 + b2 + b3, b4);
    lemma_occurs_split(w, 0, b0 + b1 + b2, b3);
    lemma_occurs_split(w, 0, b0 + b1, b2);
    lemma_occurs_split(w, 0, b0, b1);
}

/// What a read of a `CompleteArrayType` yields: `collection_flags` as a `u16`, then the number of `bound` as a `u32` and each of them, then `element_flags` as a `u16`, then the identifier `element_type`, each
/// taken from the bytes at its place, and it ends after the last of them.
pub proof fn lemma_complete_array_type_read_fields(s: Seq<u8>, p: int, e: Endianness)
    requires
        0 <= p,
    ensures
        CompleteArrayType::spec_read(s, p, e) matches Ok((v, q)) ==> {
            &&& p + 2 <= s.len()
            &&& v.collection_flags == u16_from_bytes(s[p], s[p + 1], e)
            &&& p + 2 + 4 <= s.len()
            &&& v.bound.len() == u32_from_bytes(s[p + 2], s[p + 2 + 1], s[p + 2 + 2], s[p + 2 + 3], e)
            &&& spec_read_seq::<u32>(s, p + 2 + 4, v.bound.len(), e) matches Ok((bound_read, r0))
            &&& bound_read == v.bound
            &&& r0 + 2 <= s.len()
            &&& v.element_flags == u16_from_bytes(s[r0], s[r0 + 1], e)
            &&& TypeIdentifier::spec_read(s, r0 + 2, e) matches Ok((element_type_read, r1))
            &&& element_type_read == v.element_type
            &&& q == r1
        },
{
    reveal(spec_read_complete_array_type);
    lemma_read_seq_lengths::<u32>();
}

// ---------------------------------------------------------------------------
// CompleteUnionMember

/// A union member: id, flags, type, its case labels (as many as `label_count` says are read), and name.
#[derive(Debug, Clone, PartialEq, Eq)]
pub struct CompleteUnionMember {
    pub member_id: u32,
    pub member_flags: u16,
    pub member_type_id: TypeIdentifier,
    pub label_count: u32,
    pub labels: Vec<i32>,
    pub name: String,
}

/// The value of a `CompleteUnionMember`.
pub struct SpecCompleteUnionMember {
    pub member_id: u32,
    pub member_flags: u16,
    pub member_type_id: SpecTypeIdentifier,
    pub label_count: u32,
    pub labels: Seq<i32>,
    pub name: Seq<char>,
}

impl View for CompleteUnionMember {
    type V = SpecCompleteUnionMember;

    open spec fn view(&self) -> SpecCompleteUnionMember {
        SpecCompleteUnionMember {
            member_id: self.member_id,
            member_flags: self.member_flags,
            member_type_id: self.member_type_id@,
            label_count: self.label_count,
            labels: views(self.labels@),
            name: self.name@,
        }
    }
}

/// Reading a `CompleteUnionMember` at position `p` of `s`: its fields in order.
#[verifier::opaque]
pub open spec fn spec_read_complete_union_member(s: Seq<u8>, p: int, e: Endianness) -> Result<(SpecCompleteUnionMember, int), ReadError> {
    match spec_read_u32(s, p, e) {
        Err(err) => Err(err),
        Ok((member_id, q0)) => match spec_read_u16(s, q0, e) {
            Err(err) => Err(err),
            Ok((member_flags, q1)) => match TypeIdentifier::spec_read(s, q1, e) {
                Err(err) => Err(err),
                Ok((member_type_id, q2)) => match spec_read_u32(s, q2, e) {
                    Err(err) => Err(err),
                    Ok((label_count, q3)) => match spec_read_seq::<i32>(s, q3, label_count as nat, e) {
                        Err(err) => Err(err),
                        Ok((labels, q4)) => match spec_read_string(s, q4, e) {
                            Err(err) => Err(err),
                            Ok((name, q5)) => Ok((SpecCompleteUnionMember { member_id, member_flags, member_type_id, label_count, labels, name }, q5)),
                        },
                    },
                },
            },
        },
    }
}

/// The bytes that encode a `CompleteUnionMember`: its fields in order.
#[verifier::opaque]
pub open spec fn spec_write_complete_union_member(v: SpecCompleteUnionMember, e: Endianness) -> Seq<u8> {
    u32_to_bytes(v.member_id, e) + u16_to_bytes(v.member_flags, e) + TypeIdentifier::spec_write(v.member_type_id, e) + u32_to_bytes(v.label_count, e) + spec_write_seq::<i32>(v.labels, e) + spec_write_string(v.name, e)
}

impl WireFormat for CompleteUnionMember {
    open spec fn spec_read(s: Seq<u8>, p: int, e: Endianness) -> Result<(SpecCompleteUnionMember, int), ReadError> {
        spec_read_complete_union_member(s, p, e)
    }

    open spec fn spec_write(v: SpecCompleteUnionMember, e: Endianness) -> Seq<u8> {
        spec_write_complete_union_member(v, e)
    }

    open spec fn spec_lossless(v: SpecCompleteUnionMember) -> bool {
        &&& type_identifier_lossless(v.member_type_id)
        &&& v.label_count == v.labels.len()
        &&& string_lossless(v.name)
    }

    #[verifier::rlimit(30)]
    proof fn lemma_write_read(v: SpecCompleteUnionMember, s: Seq<u8>, p: int, e: Endianness) {
        reveal(spec_read_complete_union_member);
        reveal(spec_write_complete_union_member);
        let b0 = u32_to_bytes(v.member_id, e);
        let b1 = u16_to_bytes(v.member_flags, e);
        let b2 = TypeIdentifier::spec_write(v.member_type_id, e);
        let b3 = u32_to_bytes(v.label_count, e);
        let b4 = spec_write_seq::<i32>(v.labels, e);
        let b5 = spec_write_string(v.name, e);
        lemma_occurs_split(s, p, b0 + b1 + b2 + b3 + b4, b5);
        lemma_occurs_split(s, p, b0 + b1 + b2 + b3, b4);
        lemma_occurs_split(s, p, b0 + b1 + b2, b3);
        lemma_occurs_split(s, p, b0 + b1, b2);
        lemma_occurs_split(s, p, b0, b1);
        let o0 = p;
        let o1 = o0 + b0.len();
        let o2 = o1 + b1.len();
        let o3 = o2 + b2.len();
        let o4 = o3 + b3.len();
        let o5 = o4 + b4.len();
        lemma_u32_write_read(s, o0, v.member_id, e);
        lemma_u16_write_read(s, o1, v.member_flags, e);
        TypeIdentifier::lemma_write_read(v.member_type_id, s, o2, e);
        lemma_u32_write_read(s, o3, v.label_count, e);
        lemma_seq_write_read::<i32>(v.labels, s, o4, e);
        lemma_string_write_read(s, o5, v.name, e);
    }

    fn read_from(buf: &[u8], pos: usize, endian: Endianness) -> (res: Result<(CompleteUnionMember, usize), ReadError>) {
        proof {
            reveal(spec_read_complete_union_member);
        }
        let (member_id, q0) = match read_u32(buf, pos, endian) {
            Ok(r) => r,
            Err(err) => return Err(err),
        };
        let (member_flags, q1) = match read_u16(buf, q0, endian) {
            Ok(r) => r,
            Err(err) => return Err(err),
        };
        let (member_type_id, q2) = match TypeIdentifier::read_from(buf, q1, endian) {
            Ok(r) => r,
            Err(err) => return Err(err),
        };
        let (label_count, q3) = match read_u32(buf, q2, endian) {
            Ok(r) => r,
            Err(err) => return Err(err),
        };
        let (labels, q4) = match read_seq::<i32>(buf, q3, label_count, endian) {
            Ok(r) => r,
            Err(err) => return Err(err),
        };
        let (name, q5) = match read_string(buf, q4, endian) {
            Ok(r) => r,
            Err(err) => return Err(err),
        };
        Ok((CompleteUnionMember { member_id, member_flags, member_type_id, label_count, labels, name }, q5))
    }

    fn write_to(&self, endian: Endianness, out: &mut Vec<u8>) {
        write_u32(self.member_id, endian, out);
        write_u16(self.member_flags, endian, out);
        self.member_type_id.write_to(endian, out);
        write_u32(self.label_count, endian, out);
        write_seq(&self.labels, endian, out);
        write_string(&self.name, endian, out);
        proof {
            reveal(spec_write_complete_union_member);
        }
        assert(out@ =~= old(out)@ + Self::spec_write(self@, endian));
    }
}

/// Layout of an encoded `CompleteUnionMember`: `member_id` as a `u32`, then `member_flags` as a `u16`, then the identifier `member_type_id`, then `label_count` as a `u32`, then `labels` (`label_count` of them), then the string `name`, each at its place and
/// nothing more.
pub proof fn lemma_complete_union_member_layout(v: SpecCompleteUnionMember, e: Endianness)
    ensures
        ({
            let w = CompleteUnionMember::spec_write(v, e);
            let b0 = u32_to_bytes(v.member_id, e);
            let b1 = u16_to_bytes(v.member_flags, e);
            let b2 = TypeIdentifier::spec_write(v.member_type_id, e);
            let b3 = u32_to_bytes(v.label_count, e);
            let b4 = spec_write_seq::<i32>(v.labels, e);
            let b5 = spec_write_string(v.name, e);
            let o0 = 0int;
            let o1 = o0 + b0.len();
            let o2 = o1 + b1.len();
            let o3 = o2 + b2.len();
            let o4 = o3 + b3.len();
            let o5 = o4 + b4.len();
            let o6 = o5 + b5.len();
            &&& w.subrange(o0, o1) == b0
            &&& w.subrange(o1, o2) == b1
            &&& w.subrange(o2, o3) == b2
            &&& w.subrange(o3, o4) == b3
            &&& w.subrange(o4, o5) == b4
            &&& w.subrange(o5, o6) == b5
            &&& w.len() == o6
        }),
{
    reveal(spec_write_complete_union_member);
    let w = CompleteUnionMember::spec_write(v, e);
    let b0 = u32_to_bytes(v.member_id, e);
    let b1 = u16_to_bytes(v.member_flags, e);
    let b2 = TypeIdentifier::spec_write(v.member_type_id, e);
    let b3 = u32_to_bytes(v.label_count, e);
    let b4 = spec_write_seq::<i32>(v.labels, e);
    let b5 = spec_write_string(v.name, e);
    lemma_occurs_whole(w);
    lemma_occurs_split(w, 0, b0 + b1 + b2 + b3 + b4, b5);
    lemma_occurs_split(w, 0, b0 + b1 + b2 + b3, b4);
    lemma_occurs_split(w, 0, b0 + b1 + b2, b3);
    lemma_occurs_split(w, 0, b0 + b1, b2);
    lemma_occurs_split(w, 0, b0, b1);
}

/// What a read of a `CompleteUnionMember` yields: `member_id` as a `u32`, then `member_flags` as a `u16`, then the identifier `member_type_id`, then `label_count` as a `u32`, then `labels` (`label_count` of them), then the string `name`, each
/// taken from the bytes at its place, and it ends after the last of them.
pub proof fn lemma_complete_union_member_read_fields(s: Seq<u8>, p: int, e: Endianness)
    requires
        0 <= p,
    ensures
        CompleteUnionMember::spec_read(s, p, e) matches Ok((v, q)) ==> {
            &&& p + 4 <= s.len()
            &&& v.member_id == u32_from_bytes(s[p], s[p + 1], s[p + 2], s[p + 3], e)
            &&& p + 4 + 2 <= s.len()
            &&& v.member_flags == u16_from_bytes(s[p + 4], s[p + 4 + 1], e)
            &&& TypeIdentifier::spec_read(s, p + 4 + 2, e) matches Ok((member_type_id_read, r0))
            &&& member_type_id_read == v.member_type_id
            &&& r0 + 4 <= s.len()
            &&& v.label_count == u32_from_bytes(s[r0], s[r0 + 1], s[r0 + 2], s[r0 + 3], e)
            &&& spec_read_seq::<i32>(s, r0 + 4, v.label_count as nat, e) matches Ok((labels_read, r1))
            &&& labels_read == v.labels
            &&& spec_read_string(s, r1, e) matches Ok((name_read, r2))
            &&& name_read == v.name
            &&& q == r2
        },
{
    reveal(spec_read_complete_union_member);
}

// ---------------------------------------------------------------------------
// CompleteUnionType

/// A union type: flags, name, discriminator, and members.
#[derive(Debug, Clone, PartialEq, Eq)]
pub struct CompleteUnionType {
    pub union_flags: u16,
    pub name_of_type: String,
    pub discriminator_flags: u16,
    pub discriminator_type: TypeIdentifier,
    pub members: Vec<CompleteUnionMember>,
}

/// The value of a `CompleteUnionType`.
pub struct SpecCompleteUnionType {
    pub union_flags: u16,
    pub name_of_type: Seq<char>,
    pub discriminator_flags: u16,
    pub discriminator_type: SpecTypeIdentifier,
    pub members: Seq<SpecCompleteUnionMember>,
}

impl View for CompleteUnionType {
    type V = SpecCompleteUnionType;

    open spec fn view(&self) -> SpecCompleteUnionType {
        SpecCompleteUnionType {
            union_flags: self.union_flags,
            name_of_type: self.name_of_type@,
            discriminator_flags: self.discriminator_flags,
            discriminator_type: self.discriminator_type@,
            members: views(self.members@),
        }
    }
}

/// Reading a `CompleteUnionType` at position `p` of `s`: its fields in order.
#[verifier::opaque]
pub open spec fn spec_read_complete_union_type(s: Seq<u8>, p: int, e: Endianness) -> Result<(SpecCompleteUnionType, int), ReadError> {
    match spec_read_u16(s, p, e) {
        Err(err) => Err(err),
        Ok((union_flags, q0)) => match spec_read_string(s, q0, e) {
            Err(err) => Err(err),
            Ok((name_of_type, q1)) => match spec_read_u16(s, q1, e) {
                Err(err) => Err(err),
                Ok((discriminator_flags, q2)) => match TypeIdentifier::spec_read(s, q2, e) {
                    Err(err) => Err(err),
                    Ok((discriminator_type, q3)) => match spec_read_u32(s, q3, e) {
                        Err(err) => Err(err),
                        Ok((members_count, q4c)) => match spec_read_seq::<CompleteUnionMember>(s, q4c, members_count as nat, e) {
                            Err(err) => Err(err),
                            Ok((members, q4)) => Ok((SpecCompleteUnionType { union_flags, name_of_type, discriminator_flags, discriminator_type, members }, q4)),
                        },
                    },
                },
            },
        },
    }
}

/// The bytes that encode a `CompleteUnionType`: its fields in order.
#[verifier::opaque]
pub open spec fn spec_write_complete_union_type(v: SpecCompleteUnionType, e: Endianness) -> Seq<u8> {
    u16_to_bytes(v.union_flags, e) + spec_write_string(v.name_of_type, e) + u16_to_bytes(v.discriminator_flags, e) + TypeIdentifier::spec_write(v.discriminator_type, e) + u32_to_bytes(v.members.len() as u32, e) + spec_write_seq::<CompleteUnionMember>(v.members, e)
}

impl WireFormat for CompleteUnionType {
    open spec fn spec_read(s: Seq<u8>, p: int, e: Endianness) -> Result<(SpecCompleteUnionType, int), ReadError> {
        spec_read_complete_union_type(s, p, e)
    }

    open spec fn spec_write(v: SpecCompleteUnionType, e: Endianness) -> Seq<u8> {
        spec_write_complete_union_type(v, e)
    }

    open spec fn spec_lossless(v: SpecCompleteUnionType) -> bool {
        &&& string_lossless(v.name_of_type)
        &&& type_identifier_lossless(v.discriminator_type)
        &&& v.members.len() <= u32::MAX && all_lossless::<CompleteUnionMember>(v.members)
    }

    #[verifier::rlimit(30)]
    proof fn lemma_write_read(v: SpecCompleteUnionType, s: Seq<u8>, p: int, e: Endianness) {
        reveal(spec_read_complete_union_type);
        reveal(spec_write_complete_union_type);
        let b0 = u16_to_bytes(v.union_flags, e);
        let b1 = spec_write_string(v.name_of_type, e);
        let b2 = u16_to_bytes(v.discriminator_flags, e);
        let b3 = TypeIdentifier::spec_write(v.discriminator_type, e);
        let b4 = u32_to_bytes(v.members.len() as u32, e);
        let b5 = spec_write_seq::<CompleteUnionMember>(v.members, e);
        lemma_occurs_split(s, p, b0 + b1 + b2 + b3 + b4, b5);
        lemma_occurs_split(s, p, b0 + b1 + b2 + b3, b4);
        lemma_occurs_split(s, p, b0 + b1 + b2, b3);
        lemma_occurs_split(s, p, b0 + b1, b2);
        lemma_occurs_split(s, p, b0, b1);
        let o0 = p;
        let o1 = o0 + b0.len();
        let o2 = o1 + b1.len();
        let o3 = o2 + b2.len();
        let o4 = o3 + b3.len();
        let o5 = o4 + b4.len();
        lemma_u16_write_read(s, o0, v.union_flags, e);
        lemma_string_write_read(s, o1, v.name_of_type, e);
        lemma_u16_write_read(s, o2, v.discriminator_flags, e);
        TypeIdentifier::lemma_write_read(v.discriminator_type, s, o3, e);
        lemma_u32_write_read(s, o4, v.members.len() as u32, e);
        lemma_seq_write_read::<CompleteUnionMember>(v.members, s, o5, e);
        assert((v.members.len() as u32) as nat == v.members.len());
    }

    fn read_from(buf: &[u8], pos: usize, endian: Endianness) -> (res: Result<(CompleteUnionType, usize), ReadError>) {
        proof {
            reveal(spec_read_complete_union_type);
        }
        let (union_flags, q0) = match read_u16(buf, pos, endian) {
            Ok(r) => r,
            Err(err) => return Err(err),
        };
        let (name_of_type, q1) = match read_string(buf, q0, endian) {
            Ok(r) => r,
            Err(err) => return Err(err),
        };
        let (discriminator_flags, q2) = match read_u16(buf, q1, endian) {
            Ok(r) => r,
            Err(err) => return Err(err),
        };
        let (discriminator_type, q3) = match TypeIdentifier::read_from(buf, q2, endian) {
            Ok(r) => r,
            Err(err) => return Err(err),
        };
        let (members_count, q4c) = match read_u32(buf, q3, endian) {
            Ok(r) => r,
            Err(err) => return Err(err),
        };
        let (members, q4) = match read_seq::<CompleteUnionMember>(buf, q4c, members_count, endian) {
            Ok(r) => r,
            Err(err) => return Err(err),
        };
        Ok((CompleteUnionType { union_flags, name_of_type, discriminator_flags, discriminator_type, members }, q4))
    }

    fn write_to(&self, endian: Endianness, out: &mut Vec<u8>) {
        write_u16(self.union_flags, endian, out);
        write_string(&self.name_of_type, endian, out);
        write_u16(self.discriminator_flags, endian, out);
        self.discriminator_type.write_to(endian, out);
        write_u32(self.members.len() as u32, endian, out);
        write_seq(&self.members, endian, out);
        proof {
            reveal(spec_write_complete_union_type);
        }
        assert(out@ =~= old(out)@ + Self::spec_write(self@, endian));
    }
}

/// Layout of an encoded `CompleteUnionType`: `union_flags` as a `u16`, then the string `name_of_type`, then `discriminator_flags` as a `u16`, then the identifier `discriminator_type`, then the number of `members` as a `u32` and each of them, each at its place and
/// nothing more.
pub proof fn lemma_complete_union_type_layout(v: SpecCompleteUnionType, e: Endianness)
    ensures
        ({
            let w = CompleteUnionType::spec_write(v, e);
            let b0 = u16_to_bytes(v.union_flags, e);
            let b1 = spec_write_string(v.name_of_type, e);
            let b2 = u16_to_bytes(v.discriminator_flags, e);
            let b3 = TypeIdentifier::spec_write(v.discriminator_type, e);
            let b4 = u32_to_bytes(v.members.len() as u32, e);
            let b5 = spec_write_seq::<CompleteUnionMember>(v.members, e);
            let o0 = 0int;
            let o1 = o0 + b0.len();
            let o2 = o1 + b1.len();
            let o3 = o2 + b2.len();
            let o4 = o3 + b3.len();
            let o5 = o4 + b4.len();
            let o6 = o5 + b5.len();
            &&& w.subrange(o0, o1) == b0
            &&& w.subrange(o1, o2) == b1
            &&& w.subrange(o2, o3) == b2
            &&& w.subrange(o3, o4) == b3
            &&& w.subrange(o4, o5) == b4
            &&& w.subrange(o5, o6) == b5
            &&& w.len() == o6
        }),
{
    reveal(spec_write_complete_union_type);
    let w = CompleteUnionType::spec_write(v, e);
    let b0 = u16_to_bytes(v.union_flags, e);
    let b1 = spec_write_string(v.name_of_type, e);
    let b2 = u16_to_bytes(v.discriminator_flags, e);
    let b3 = TypeIdentifier::spec_write(v.discriminator_type, e);
    let b4 = u32_to_bytes(v.members.len() as u32, e);
    let b5 = spec_write_seq::<CompleteUnionMember>(v.members, e);
    lemma_occurs_whole(w);
    lemma_occurs_split(w, 0, b0 + b1 + b2 + b3 + b4, b5);
    lemma_occurs_split(w, 0, b0 + b1 + b2 + b3, b4);
    lemma_occurs_split(w, 0, b0 + b1 + b2, b3);
    lemma_occurs_split(w, 0, b0 + b1, b2);
    lemma_occurs_split(w, 0, b0, b1);
}

/// What a read of a `CompleteUnionType` yields: `union_flags` as a `u16`, then the string `name_of_type`, then `discriminator_flags` as a `u16`, then the identifier `discriminator_type`, then the number of `members` as a `u32` and each of them, each
/// taken from the bytes at its place, and it ends after the last of them.
pub proof fn lemma_complete_union_type_read_fields(s: Seq<u8>, p: int, e: Endianness)
    requires
        0 <= p,
    ensures
        CompleteUnionType::spec_read(s, p, e) matches Ok((v, q)) ==> {
            &&& p + 2 <= s.len()
            &&& v.union_flags == u16_from_bytes(s[p], s[p + 1], e)
            &&& spec_read_string(s, p + 2, e) matches Ok((name_of_type_read, r0))
            &&& name_of_type_read == v.name_of_type
            &&& r0 + 2 <= s.len()
            &&& v.discriminator_flags == u16_from_bytes(s[r0], s[r0 + 1], e)
            &&& TypeIdentifier::spec_read(s, r0 + 2, e) matches Ok((discriminator_type_read, r1))
            &&& discriminator_type_read == v.discriminator_type
            &&& r1 + 4 <= s.len()
            &&& v.members.len() == u32_from_bytes(s[r1], s[r1 + 1], s[r1 + 2], s[r1 + 3], e)
            &&& spec_read_seq::<CompleteUnionMember>(s, r1 + 4, v.members.len(), e) matches Ok((members_read, r2))
            &&& members_read == v.members
            &&& q == r2
        },
{
    reveal(spec_read_complete_union_type);
    lemma_read_seq_lengths::<CompleteUnionMember>();
}

// ---------------------------------------------------------------------------
// MinimalTypeObject

/// A minimal type object. Its contents are not kept: it reads as one byte
/// and an empty `raw`, and is written as one byte.
#[derive(Debug, Clone, PartialEq, Eq)]
pub struct MinimalTypeObject {
    pub raw: Vec<u8>,
}

/// The value of a `MinimalTypeObject`.
pub struct SpecMinimalTypeObject {
    pub raw: Seq<u8>,
}

impl View for MinimalTypeObject {
    type V = SpecMinimalTypeObject;

    open spec fn view(&self) -> SpecMinimalTypeObject {
        SpecMinimalTypeObject { raw: self.raw@ }
    }
}

impl WireFormat for MinimalTypeObject {
    /// One byte, whatever it is; `raw` is empty.
    open spec fn spec_read(s: Seq<u8>, p: int, e: Endianness) -> Result<(SpecMinimalTypeObject, int), ReadError> {
        match spec_read_u8(s, p) {
            Err(err) => Err(err),
            Ok((_, q)) => Ok((SpecMinimalTypeObject { raw: seq![] }, q)),
        }
    }

    open spec fn spec_write(v: SpecMinimalTypeObject, e: Endianness) -> Seq<u8> {
        seq![TK_UNKNOWN_WRITTEN]
    }

    open spec fn spec_lossless(v: SpecMinimalTypeObject) -> bool {
        v.raw.len() == 0
    }

    proof fn lemma_write_read(v: SpecMinimalTypeObject, s: Seq<u8>, p: int, e: Endianness) {
        assert(v.raw =~= seq![]);
    }

    fn read_from(buf: &[u8], pos: usize, endian: Endianness) -> (res: Result<(MinimalTypeObject, usize), ReadError>) {
        let (_disc, q) = match read_u8(buf, pos) {
            Ok(r) => r,
            Err(err) => return Err(err),
        };
        let raw: Vec<u8> = Vec::new();
        assert(raw@ =~= seq![]);
        Ok((MinimalTypeObject { raw }, q))
    }

    fn write_to(&self, endian: Endianness, out: &mut Vec<u8>) {
        write_u8(TK_UNKNOWN_WRITTEN, out);
    }
}

// ---------------------------------------------------------------------------
// CompleteTypeObject

/// A complete type object: the full description of a type of one kind.
#[derive(Debug, Clone, PartialEq, Eq)]
pub enum CompleteTypeObject {
    Struct(CompleteStructType),
    Enum(CompleteEnumeratedType),
    Alias(CompleteAliasType),
    Sequence(CompleteSequenceType),
    Array(CompleteArrayType),
    Union(CompleteUnionType),
    Unknown,
}

/// The value of a `CompleteTypeObject`.
pub enum SpecCompleteTypeObject {
    Struct(SpecCompleteStructType),
    Enum(SpecCompleteEnumeratedType),
    Alias(SpecCompleteAliasType),
    Sequence(SpecCompleteSequenceType),
    Array(SpecCompleteArrayType),
    Union(SpecCompleteUnionType),
    Unknown,
}

impl View for CompleteTypeObject {
    type V = SpecCompleteTypeObject;

    open spec fn view(&self) -> SpecCompleteTypeObject {
        match self {
            CompleteTypeObject::Struct(x) => SpecCompleteTypeObject::Struct(x@),
            CompleteTypeObject::Enum(x) => SpecCompleteTypeObject::Enum(x@),
            CompleteTypeObject::Alias(x) => SpecCompleteTypeObject::Alias(x@),
            CompleteTypeObject::Sequence(x) => SpecCompleteTypeObject::Sequence(x@),
            CompleteTypeObject::Array(x) => SpecCompleteTypeObject::Array(x@),
            CompleteTypeObject::Union(x) => SpecCompleteTypeObject::Union(x@),
            CompleteTypeObject::Unknown => SpecCompleteTypeObject::Unknown,
        }
    }
}

/// Reading a complete type object at position `p` of `s`: a type kind,
/// then the object of that kind; any other kind reads as `Unknown`.
#[verifier::opaque]
pub open spec fn spec_read_complete_type_object(s: Seq<u8>, p: int, e: Endianness) -> Result<(SpecCompleteTypeObject, int), ReadError> {
    match spec_read_u8(s, p) {
        Err(err) => Err(err),
        Ok((disc, q)) => if disc == TK_STRUCTURE {
            match CompleteStructType::spec_read(s, q, e) {
                Err(err) => Err(err),
                Ok((x, r)) => Ok((SpecCompleteTypeObject::Struct(x), r)),
            }
        } else if disc == TK_ENUM {
            match CompleteEnumeratedType::spec_read(s, q, e) {
                Err(err) => Err(err),
                Ok((x, r)) => Ok((SpecCompleteTypeObject::Enum(x), r)),
            }
        } else if disc == TK_ALIAS {
            match CompleteAliasType::spec_read(s, q, e) {
                Err(err) => Err(err),
                Ok((x, r)) => Ok((SpecCompleteTypeObject::Alias(x), r)),
            }
        } else if disc == TK_SEQUENCE {
            match CompleteSequenceType::spec_read(s, q, e) {
                Err(err) => Err(err),
                Ok((x, r)) => Ok((SpecCompleteTypeObject::Sequence(x), r)),
            }
        } else if disc == TK_ARRAY {
            match CompleteArrayType::spec_read(s, q, e) {
                Err(err) => Err(err),
                Ok((x, r)) => Ok((SpecCompleteTypeObject::Array(x), r)),
            }
        } else if disc == TK_UNION {
            match CompleteUnionType::spec_read(s, q, e) {
                Err(err) => Err(err),
                Ok((x, r)) => Ok((SpecCompleteTypeObject::Union(x), r)),
            }
        } else {
            Ok((SpecCompleteTypeObject::Unknown, q))
        },
    }
}

/// The bytes that encode a complete type object: its type kind, then the
/// object; `Unknown` is the single byte `TK_UNKNOWN_WRITTEN`.
#[verifier::opaque]
pub open spec fn spec_write_complete_type_object(v: SpecCompleteTypeObject, e: Endianness) -> Seq<u8> {
    match v {
        SpecCompleteTypeObject::Struct(x) => seq![TK_STRUCTURE] + CompleteStructType::spec_write(x, e),
        SpecCompleteTypeObject::Enum(x) => seq![TK_ENUM] + CompleteEnumeratedType::spec_write(x, e),
        SpecCompleteTypeObject::Alias(x) => seq![TK_ALIAS] + CompleteAliasType::spec_write(x, e),
        SpecCompleteTypeObject::Sequence(x) => seq![TK_SEQUENCE] + CompleteSequenceType::spec_write(x, e),
        SpecCompleteTypeObject::Array(x) => seq![TK_ARRAY] + CompleteArrayType::spec_write(x, e),
        SpecCompleteTypeObject::Union(x) => seq![TK_UNION] + CompleteUnionType::spec_write(x, e),
        SpecCompleteTypeObject::Unknown => seq![TK_UNKNOWN_WRITTEN],
    }
}

impl WireFormat for CompleteTypeObject {
    open spec fn spec_read(s: Seq<u8>, p: int, e: Endianness) -> Result<(SpecCompleteTypeObject, int), ReadError> {
        spec_read_complete_type_object(s, p, e)
    }

    open spec fn spec_write(v: SpecCompleteTypeObject, e: Endianness) -> Seq<u8> {
        spec_write_complete_type_object(v, e)
    }

    open spec fn spec_lossless(v: SpecCompleteTypeObject) -> bool {
        match v {
            SpecCompleteTypeObject::Struct(x) => CompleteStructType::spec_lossless(x),
            SpecCompleteTypeObject::Enum(x) => CompleteEnumeratedType::spec_lossless(x),
            SpecCompleteTypeObject::Alias(x) => CompleteAliasType::spec_lossless(x),
            SpecCompleteTypeObject::Sequence(x) => CompleteSequenceType::spec_lossless(x),
            SpecCompleteTypeObject::Array(x) => CompleteArrayType::spec_lossless(x),
            SpecCompleteTypeObject::Union(x) => CompleteUnionType::spec_lossless(x),
            SpecCompleteTypeObject::Unknown => true,
        }
    }

    proof fn lemma_write_read(v: SpecCompleteTypeObject, s: Seq<u8>, p: int, e: Endianness) {
        reveal(spec_read_complete_type_object);
        reveal(spec_write_complete_type_object);
        let w = spec_write_complete_type_object(v, e);
        lemma_occurs_byte(s, p, w, 0);
        match v {
            SpecCompleteTypeObject::Struct(x) => {
                lemma_occurs_split(s, p, seq![TK_STRUCTURE], CompleteStructType::spec_write(x, e));
                CompleteStructType::lemma_write_read(x, s, p + 1, e);
            },
            SpecCompleteTypeObject::Enum(x) => {
                lemma_occurs_split(s, p, seq![TK_ENUM], CompleteEnumeratedType::spec_write(x, e));
                CompleteEnumeratedType::lemma_write_read(x, s, p + 1, e);
            },
            SpecCompleteTypeObject::Alias(x) => {
                lemma_occurs_split(s, p, seq![TK_ALIAS], CompleteAliasType::spec_write(x, e));
                CompleteAliasType::lemma_write_read(x, s, p + 1, e);
            },
            SpecCompleteTypeObject::Sequence(x) => {
                lemma_occurs_split(s, p, seq![TK_SEQUENCE], CompleteSequenceType::spec_write(x, e));
                CompleteSequenceType::lemma_write_read(x, s, p + 1, e);
            },
            SpecCompleteTypeObject::Array(x) => {
                lemma_occurs_split(s, p, seq![TK_ARRAY], CompleteArrayType::spec_write(x, e));
                CompleteArrayType::lemma_write_read(x, s, p + 1, e);
            },
            SpecCompleteTypeObject::Union(x) => {
                lemma_occurs_split(s, p, seq![TK_UNION], CompleteUnionType::spec_write(x, e));
                CompleteUnionType::lemma_write_read(x, s, p + 1, e);
            },
            SpecCompleteTypeObject::Unknown => {},
        }
    }

    fn read_from(buf: &[u8], pos: usize, endian: Endianness) -> (res: Result<(CompleteTypeObject, usize), ReadError>) {
        proof {
            reveal(spec_read_complete_type_object);
        }
        let (disc, q) = match read_u8(buf, pos) {
            Ok(r) => r,
            Err(err) => return Err(err),
        };
        if disc == TK_STRUCTURE {
            match CompleteStructType::read_from(buf, q, endian) {
                Ok((x, r)) => Ok((CompleteTypeObject::Struct(x), r)),
                Err(err) => Err(err),
            }
        } else if disc == TK_ENUM {
            match CompleteEnumeratedType::read_from(buf, q, endian) {
                Ok((x, r)) => Ok((CompleteTypeObject::Enum(x), r)),
                Err(err) => Err(err),
            }
        } else if disc == TK_ALIAS {
            match CompleteAliasType::read_from(buf, q, endian) {
                Ok((x, r)) => Ok((CompleteTypeObject::Alias(x), r)),
                Err(err) => Err(err),
            }
        } else if disc == TK_SEQUENCE {
            match CompleteSequenceType::read_from(buf, q, endian) {
                Ok((x, r)) => Ok((CompleteTypeObject::Sequence(x), r)),
                Err(err) => Err(err),
            }
        } else if disc == TK_ARRAY {
            match CompleteArrayType::read_from(buf, q, endian) {
                Ok((x, r)) => Ok((CompleteTypeObject::Array(x), r)),
                Err(err) => Err(err),
            }
        } else if disc == TK_UNION {
            match CompleteUnionType::read_from(buf, q, endian) {
                Ok((x, r)) => Ok((CompleteTypeObject::Union(x), r)),
                Err(err) => Err(err),
            }
        } else {
            Ok((CompleteTypeObject::Unknown, q))
        }
    }

    fn write_to(&self, endian: Endianness, out: &mut Vec<u8>) {
        match self {
            CompleteTypeObject::Struct(x) => {
                write_u8(TK_STRUCTURE, out);
                x.write_to(endian, out);
            },
            CompleteTypeObject::Enum(x) => {
                write_u8(TK_ENUM, out);
                x.write_to(endian, out);
            },
            CompleteTypeObject::Alias(x) => {
                write_u8(TK_ALIAS, out);
                x.write_to(endian, out);
            },
            CompleteTypeObject::Sequence(x) => {
                write_u8(TK_SEQUENCE, out);
                x.write_to(endian, out);
            },
            CompleteTypeObject::Array(x) => {
                write_u8(TK_ARRAY, out);
                x.write_to(endian, out);
            },
            CompleteTypeObject::Union(x) => {
                write_u8(TK_UNION, out);
                x.write_to(endian, out);
            },
            CompleteTypeObject::Unknown => {
                write_u8(TK_UNKNOWN_WRITTEN, out);
            },
        }
        proof {
            reveal(spec_write_complete_type_object);
        }
        assert(out@ =~= old(out)@ + Self::spec_write(self@, endian));
    }
}

// ---------------------------------------------------------------------------
// TypeObject

/// A type object, complete or minimal.
#[derive(Debug, Clone, PartialEq, Eq)]
pub enum TypeObject {
    Complete(CompleteTypeObject),
    Minimal(MinimalTypeObject),
}

/// The value of a `TypeObject`.
pub enum SpecTypeObject {
    Complete(SpecCompleteTypeObject),
    Minimal(SpecMinimalTypeObject),
}

impl View for TypeObject {
    type V = SpecTypeObject;

    open spec fn view(&self) -> SpecTypeObject {
        match self {
            TypeObject::Complete(c) => SpecTypeObject::Complete(c@),
            TypeObject::Minimal(m) => SpecTypeObject::Minimal(m@),
        }
    }
}

/// Reading a type object at position `p` of `s`: an equivalence kind, then
/// the complete or minimal object; any other kind reads as an unknown
/// complete object.
#[verifier::opaque]
pub open spec fn spec_read_type_object(s: Seq<u8>, p: int, e: Endianness) -> Result<(SpecTypeObject, int), ReadError> {
    match spec_read_u8(s, p) {
        Err(err) => Err(err),
        Ok((disc, q)) => if disc == EK_COMPLETE {
            match CompleteTypeObject::spec_read(s, q, e) {
                Err(err) => Err(err),
                Ok((c, r)) => Ok((SpecTypeObject::Complete(c), r)),
            }
        } else if disc == EK_MINIMAL {
            match MinimalTypeObject::spec_read(s, q, e) {
                Err(err) => Err(err),
                Ok((m, r)) => Ok((SpecTypeObject::Minimal(m), r)),
            }
        } else {
            Ok((SpecTypeObject::Complete(SpecCompleteTypeObject::Unknown), q))
        },
    }
}

/// The bytes that encode a type object: its equivalence kind, then the object.
#[verifier::opaque]
pub open spec fn spec_write_type_object(v: SpecTypeObject, e: Endianness) -> Seq<u8> {
    match v {
        SpecTypeObject::Complete(c) => seq![EK_COMPLETE] + CompleteTypeObject::spec_write(c, e),
        SpecTypeObject::Minimal(m) => seq![EK_MINIMAL] + MinimalTypeObject::spec_write(m, e),
    }
}

impl WireFormat for TypeObject {
    open spec fn spec_read(s: Seq<u8>, p: int, e: Endianness) -> Result<(SpecTypeObject, int), ReadError> {
        spec_read_type_object(s, p, e)
    }

    open spec fn spec_write(v: SpecTypeObject, e: Endianness) -> Seq<u8> {
        spec_write_type_object(v, e)
    }

    open spec fn spec_lossless(v: SpecTypeObject) -> bool {
        match v {
            SpecTypeObject::Complete(c) => CompleteTypeObject::spec_lossless(c),
            SpecTypeObject::Minimal(m) => MinimalTypeObject::spec_lossless(m),
        }
    }

    proof fn lemma_write_read(v: SpecTypeObject, s: Seq<u8>, p: int, e: Endianness) {
        reveal(spec_read_type_object);
        reveal(spec_write_type_object);
        let w = spec_write_type_object(v, e);
        lemma_occurs_byte(s, p, w, 0);
        match v {
            SpecTypeObject::Complete(c) => {
                lemma_occurs_split(s, p, seq![EK_COMPLETE], CompleteTypeObject::spec_write(c, e));
                CompleteTypeObject::lemma_write_read(c, s, p + 1, e);
            },
            SpecTypeObject::Minimal(m) => {
                lemma_occurs_split(s, p, seq![EK_MINIMAL], MinimalTypeObject::spec_write(m, e));
                MinimalTypeObject::lemma_write_read(m, s, p + 1, e);
            },
        }
    }

    fn read_from(buf: &[u8], pos: usize, endian: Endianness) -> (res: Result<(TypeObject, usize), ReadError>) {
        proof {
            reveal(spec_read_type_object);
        }
        let (disc, q) = match read_u8(buf, pos) {
            Ok(r) => r,
            Err(err) => return Err(err),
        };
        if disc == EK_COMPLETE {
            match CompleteTypeObject::read_from(buf, q, endian) {
                Ok((c, r)) => Ok((TypeObject::Complete(c), r)),
                Err(err) => Err(err),
            }
        } else if disc == EK_MINIMAL {
            match MinimalTypeObject::read_from(buf, q, endian) {
                Ok((m, r)) => Ok((TypeObject::Minimal(m), r)),
                Err(err) => Err(err),
            }
        } else {
            Ok((TypeObject::Complete(CompleteTypeObject::Unknown), q))
        }
    }

    fn write_to(&self, endian: Endianness, out: &mut Vec<u8>) {
        match self {
            TypeObject::Complete(c) => {
                write_u8(EK_COMPLETE, out);
                c.write_to(endian, out);
            },
            TypeObject::Minimal(m) => {
                write_u8(EK_MINIMAL, out);
                m.write_to(endian, out);
            },
        }
        proof {
            reveal(spec_write_type_object);
        }
        assert(out@ =~= old(out)@ + Self::spec_write(self@, endian));
    }
}

// ---------------------------------------------------------------------------
// Laws on type-kind bytes

/// A minimal type object is written as the single byte `TK_UNKNOWN_WRITTEN`,
/// and reading one takes exactly one byte, keeping no contents.
pub proof fn lemma_minimal_type_object_layout(v: SpecMinimalTypeObject, s: Seq<u8>, p: int, e: Endianness)
    requires
        0 <= p,
    ensures
        MinimalTypeObject::spec_write(v, e) == seq![TK_UNKNOWN_WRITTEN],
        MinimalTypeObject::spec_read(s, p, e) is Ok <==> p < s.len(),
        MinimalTypeObject::spec_read(s, p, e) matches Ok((m, q)) ==> m.raw == Seq::<u8>::empty() && q
            == p + 1,
{
}

/// The encoding of a complete type object begins with the type-kind byte of
/// its kind (`TK_STRUCTURE` for a structure, `TK_ENUM` for an enumeration,
/// and so on), followed by the encoding of the object of that kind; an
/// unknown object is the single byte `TK_UNKNOWN_WRITTEN`.
pub proof fn lemma_complete_type_object_layout(v: SpecCompleteTypeObject, e: Endianness)
    ensures
        ({
            let w = CompleteTypeObject::spec_write(v, e);
            &&& v matches SpecCompleteTypeObject::Struct(x) ==> w == seq![TK_STRUCTURE]
                + CompleteStructType::spec_write(x, e)
            &&& v matches SpecCompleteTypeObject::Enum(x) ==> w == seq![TK_ENUM]
                + CompleteEnumeratedType::spec_write(x, e)
            &&& v matches SpecCompleteTypeObject::Alias(x) ==> w == seq![TK_ALIAS]
                + CompleteAliasType::spec_write(x, e)
            &&& v matches SpecCompleteTypeObject::Sequence(x) ==> w == seq![TK_SEQUENCE]
                + CompleteSequenceType::spec_write(x, e)
            &&& v matches SpecCompleteTypeObject::Array(x) ==> w == seq![TK_ARRAY]
                + CompleteArrayType::spec_write(x, e)
            &&& v matches SpecCompleteTypeObject::Union(x) ==> w == seq![TK_UNION]
                + CompleteUnionType::spec_write(x, e)
            &&& v is Unknown ==> w == seq![TK_UNKNOWN_WRITTEN]
        }),
{
    reveal(spec_write_complete_type_object);
}

/// What a read of a complete type object yields is decided by its first
/// byte: `TK_STRUCTURE` gives a structure read from the bytes after it,
/// `TK_ENUM` an enumeration, and so on; any other byte gives `Unknown`,
/// which takes that one byte.
#[verifier::rlimit(30)]
pub proof fn lemma_complete_type_object_read_kind(s: Seq<u8>, p: int, e: Endianness)
    requires
        0 <= p,
    ensures
        CompleteTypeObject::spec_read(s, p, e) matches Ok((v, q)) ==> {
            &&& p < s.len()
            &&& v is Struct <==> s[p] == TK_STRUCTURE
            &&& v is Enum <==> s[p] == TK_ENUM
            &&& v is Alias <==> s[p] == TK_ALIAS
            &&& v is Sequence <==> s[p] == TK_SEQUENCE
            &&& v is Array <==> s[p] == TK_ARRAY
            &&& v is Union <==> s[p] == TK_UNION
            &&& v matches SpecCompleteTypeObject::Struct(x) ==> CompleteStructType::spec_read(s, p + 1, e)
                == Ok::<(SpecCompleteStructType, int), ReadError>((x, q))
            &&& v matches SpecCompleteTypeObject::Enum(x) ==> CompleteEnumeratedType::spec_read(
                s,
                p + 1,
                e,
            ) == Ok::<(SpecCompleteEnumeratedType, int), ReadError>((x, q))
            &&& v matches SpecCompleteTypeObject::Alias(x) ==> CompleteAliasType::spec_read(s, p + 1, e)
                == Ok::<(SpecCompleteAliasType, int), ReadError>((x, q))
            &&& v matches SpecCompleteTypeObject::Sequence(x) ==> CompleteSequenceType::spec_read(
                s,
                p + 1,
                e,
            ) == Ok::<(SpecCompleteSequenceType, int), ReadError>((x, q))
            &&& v matches SpecCompleteTypeObject::Array(x) ==> CompleteArrayType::spec_read(s, p + 1, e)
                == Ok::<(SpecCompleteArrayType, int), ReadError>((x, q))
            &&& v matches SpecCompleteTypeObject::Union(x) ==> CompleteUnionType::spec_read(s, p + 1, e)
                == Ok::<(SpecCompleteUnionType, int), ReadError>((x, q))
            &&& v is Unknown ==> q == p + 1
        },
        p < s.len() && s[p] != TK_STRUCTURE && s[p] != TK_ENUM && s[p] != TK_ALIAS && s[p]
            != TK_SEQUENCE && s[p] != TK_ARRAY && s[p] != TK_UNION ==> CompleteTypeObject::spec_read(
            s,
            p,
            e,
        ) == Ok::<(SpecCompleteTypeObject, int), ReadError>((SpecCompleteTypeObject::Unknown, p + 1)),
        p >= s.len() ==> CompleteTypeObject::spec_read(s, p, e) == Err::<
            (SpecCompleteTypeObject, int),
            ReadError,
        >(ReadError::EndOfInput),
{
    reveal(spec_read_complete_type_object);
}

/// The encoding of a type object begins with its equivalence kind,
/// `EK_COMPLETE` or `EK_MINIMAL`, followed by the encoding of the object.
pub proof fn lemma_type_object_layout(v: SpecTypeObject, e: Endianness)
    ensures
        ({
            let w = TypeObject::spec_write(v, e);
            &&& v matches SpecTypeObject::Complete(c) ==> w == seq![EK_COMPLETE]
                + CompleteTypeObject::spec_write(c, e)
            &&& v matches SpecTypeObject::Minimal(m) ==> w == seq![EK_MINIMAL, TK_UNKNOWN_WRITTEN]
        }),
{
    reveal(spec_write_type_object);
    if let SpecTypeObject::Minimal(m) = v {
        assert(seq![EK_MINIMAL] + MinimalTypeObject::spec_write(m, e) =~= seq![
            EK_MINIMAL,
            TK_UNKNOWN_WRITTEN,
        ]);
    }
}

/// What a read of a type object yields is decided by its first byte:
/// `EK_COMPLETE` gives the complete object read after it, `EK_MINIMAL` a
/// minimal one, and any other byte an unknown complete object, which takes
/// that one byte.
pub proof fn lemma_type_object_read_kind(s: Seq<u8>, p: int, e: Endianness)
    requires
        0 <= p,
    ensures
        TypeObject::spec_read(s, p, e) matches Ok((v, q)) ==> {
            &&& p < s.len()
            &&& v is Minimal <==> s[p] == EK_MINIMAL
            &&& v matches SpecTypeObject::Minimal(m) ==> MinimalTypeObject::spec_read(s, p + 1, e)
                == Ok::<(SpecMinimalTypeObject, int), ReadError>((m, q))
            &&& s[p] == EK_COMPLETE ==> (v matches SpecTypeObject::Complete(c)
                && CompleteTypeObject::spec_read(s, p + 1, e) == Ok::<
                (SpecCompleteTypeObject, int),
                ReadError,
            >((c, q)))
            &&& s[p] != EK_COMPLETE && s[p] != EK_MINIMAL ==> (v matches SpecTypeObject::Complete(c)
                && c is Unknown && q == p + 1)
        },
        p < s.len() && s[p] != EK_COMPLETE && s[p] != EK_MINIMAL ==> TypeObject::spec_read(s, p, e)
            == Ok::<(SpecTypeObject, int), ReadError>(
            (SpecTypeObject::Complete(SpecCompleteTypeObject::Unknown), p + 1),
        ),
        p >= s.len() ==> TypeObject::spec_read(s, p, e) == Err::<(SpecTypeObject, int), ReadError>(
            ReadError::EndOfInput,
        ),
{
    reveal(spec_read_type_object);
}

} // verus!
