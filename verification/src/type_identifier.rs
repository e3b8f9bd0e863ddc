//! Type identifiers (DDS-XTypes v1.3 §7.3.4.2) and the type information that
//! endpoints announce, with their wire encoding.
use vstd::prelude::*;

use crate::wire::i32_to_bytes;
use crate::wire::lemma_i32_write_read;
use crate::wire::lemma_occurs_byte;
use crate::wire::lemma_occurs_split;
use crate::wire::lemma_occurs_whole;
use crate::wire::lemma_u16_write_read;
use crate::wire::lemma_u32_write_read;
use crate::wire::occurs_at;
use crate::wire::read_agrees;
use crate::wire::read_hash;
use crate::wire::read_i32;
use crate::wire::read_u16;
use crate::wire::read_u32;
use crate::wire::read_u8;
use crate::wire::spec_read_hash;
use crate::wire::spec_read_i32;
use crate::wire::spec_read_u16;
use crate::wire::spec_read_u32;
use crate::wire::spec_read_u8;
use crate::wire::u16_to_bytes;
use crate::wire::u16_from_bytes;
use crate::wire::u32_from_bytes;
use crate::wire::i32_from_bytes;
use crate::wire::u32_to_bytes;
use crate::wire::write_hash;
use crate::wire::write_i32;
use crate::wire::write_u16;
use crate::wire::write_u32;
use crate::wire::write_u8;
use crate::wire::all_lossless;
use crate::wire::lemma_seq_write_read;
use crate::wire::read_seq;
use crate::wire::spec_read_seq;
use crate::wire::spec_write_seq;
use crate::wire::views;
use crate::wire::write_seq;
use crate::wire::lemma_write_seq_prefix_len;
use crate::wire::lemma_write_seq_step;
use crate::wire::lemma_read_seq_len;
use crate::wire::Endianness;
use crate::wire::ReadError;
use crate::wire::WireFormat;

verus! {

/// A 14-byte hash that identifies a type up to equivalence.
pub type EquivalenceHash = [u8; 14];

// DDS-XTypes v1.3 §7.3.1 TypeIdentifier discriminant values
pub const TK_NONE: u8 = 0x00;
pub const TK_BOOLEAN: u8 = 0x01;
pub const TK_BYTE: u8 = 0x02;
pub const TK_INT16: u8 = 0x03;
pub const TK_INT32: u8 = 0x04;
pub const TK_INT64: u8 = 0x05;
pub const TK_UINT16: u8 = 0x06;
pub const TK_UINT32: u8 = 0x07;
pub const TK_UINT64: u8 = 0x08;
pub const TK_FLOAT32: u8 = 0x09;
pub const TK_FLOAT64: u8 = 0x0A;
pub const TK_FLOAT128: u8 = 0x0B;
pub const TK_INT8: u8 = 0x0C;
pub const TK_UINT8: u8 = 0x0D;
pub const TK_CHAR8: u8 = 0x10;
pub const TK_CHAR16: u8 = 0x11;

pub const TI_STRING8_SMALL: u8 = 0x70;
pub const TI_STRING8_LARGE: u8 = 0x71;
pub const TI_STRING16_SMALL: u8 = 0x72;
pub const TI_STRING16_LARGE: u8 = 0x73;

pub const TI_PLAIN_SEQUENCE_SMALL: u8 = 0x80;
pub const TI_PLAIN_SEQUENCE_LARGE: u8 = 0x81;
pub const TI_PLAIN_ARRAY_SMALL: u8 = 0x90;
pub const TI_PLAIN_ARRAY_LARGE: u8 = 0x91;
pub const TI_PLAIN_MAP_SMALL: u8 = 0xA0;
pub const TI_PLAIN_MAP_LARGE: u8 = 0xA1;

pub const TI_STRONGLY_CONNECTED_COMPONENT: u8 = 0xB0;

pub const EK_COMPLETE: u8 = 0xF2;
pub const EK_MINIMAL: u8 = 0xF1;

/// The byte that an `Extended` identifier is written as.
pub const TI_EXTENDED_WRITTEN: u8 = 0xFE;

/// `disc` is the discriminant of a primitive type.
pub open spec fn spec_is_primitive(disc: u8) -> bool {
    ||| disc == TK_NONE
    ||| disc == TK_BOOLEAN
    ||| disc == TK_BYTE
    ||| disc == TK_INT16
    ||| disc == TK_INT32
    ||| disc == TK_INT64
    ||| disc == TK_UINT16
    ||| disc == TK_UINT32
    ||| disc == TK_UINT64
    ||| disc == TK_FLOAT32
    ||| disc == TK_FLOAT64
    ||| disc == TK_FLOAT128
    ||| disc == TK_INT8
    ||| disc == TK_UINT8
    ||| disc == TK_CHAR8
    ||| disc == TK_CHAR16
}

/// Whether `disc` is the discriminant of a primitive type.
pub fn is_primitive(disc: u8) -> (res: bool)
    ensures
        res == spec_is_primitive(disc),
{
    disc == TK_NONE || disc == TK_BOOLEAN || disc == TK_BYTE || disc == TK_INT16 || disc
        == TK_INT32 || disc == TK_INT64 || disc == TK_UINT16 || disc == TK_UINT32 || disc
        == TK_UINT64 || disc == TK_FLOAT32 || disc == TK_FLOAT64 || disc == TK_FLOAT128 || disc
        == TK_INT8 || disc == TK_UINT8 || disc == TK_CHAR8 || disc == TK_CHAR16
}

// ---------------------------------------------------------------------------
// PlainCollectionHeader

/// The header of a plain collection identifier: the equivalence kind of
/// its element and the element's flags.
#[derive(Debug, Clone, PartialEq, Eq)]
pub struct PlainCollectionHeader {
    pub equiv_kind: u8,
    pub element_flags: u16,
}

impl View for PlainCollectionHeader {
    type V = PlainCollectionHeader;

    open spec fn view(&self) -> PlainCollectionHeader {
        *self
    }
}

impl WireFormat for PlainCollectionHeader {
    open spec fn spec_read(s: Seq<u8>, p: int, e: Endianness) -> Result<
        (PlainCollectionHeader, int),
        ReadError,
    > {
        match spec_read_u8(s, p) {
            Err(err) => Err(err),
            Ok((equiv_kind, q)) => match spec_read_u16(s, q, e) {
                Err(err) => Err(err),
                Ok((element_flags, r)) => Ok((PlainCollectionHeader { equiv_kind, element_flags }, r)),
            },
        }
    }

    open spec fn spec_write(v: PlainCollectionHeader, e: Endianness) -> Seq<u8> {
        seq![v.equiv_kind] + u16_to_bytes(v.element_flags, e)
    }

    open spec fn spec_lossless(v: PlainCollectionHeader) -> bool {
        true
    }

    proof fn lemma_write_read(v: PlainCollectionHeader, s: Seq<u8>, p: int, e: Endianness) {
        lemma_occurs_split(s, p, seq![v.equiv_kind], u16_to_bytes(v.element_flags, e));
        assert(s[p] == v.equiv_kind) by {
            assert(s.subrange(p, p + 1)[0] == s[p]);
        }
        lemma_u16_write_read(s, p + 1, v.element_flags, e);
    }

    fn read_from(buf: &[u8], pos: usize, endian: Endianness) -> (res: Result<
        (PlainCollectionHeader, usize),
        ReadError,
    >) {
        let (equiv_kind, q) = match read_u8(buf, pos) {
            Ok(r) => r,
            Err(err) => return Err(err),
        };
        let (element_flags, r) = match read_u16(buf, q, endian) {
            Ok(r) => r,
            Err(err) => return Err(err),
        };
        Ok((PlainCollectionHeader { equiv_kind, element_flags }, r))
    }

    fn write_to(&self, endian: Endianness, out: &mut Vec<u8>) {
        write_u8(self.equiv_kind, out);
        write_u16(self.element_flags, endian, out);
        assert(out@ =~= old(out)@ + Self::spec_write(self@, endian));
    }
}

// ---------------------------------------------------------------------------
// StronglyConnectedComponentId

/// Identifies a type within a strongly connected component of mutually
/// dependent types.
#[derive(Debug, Clone, PartialEq, Eq)]
pub struct StronglyConnectedComponentId {
    pub sc_component_id: EquivalenceHash,
    pub scc_length: i32,
    pub scc_index: i32,
}

/// The value of a `StronglyConnectedComponentId`, its hash as a sequence.
pub struct SpecStronglyConnectedComponentId {
    pub sc_component_id: Seq<u8>,
    pub scc_length: i32,
    pub scc_index: i32,
}

impl View for StronglyConnectedComponentId {
    type V = SpecStronglyConnectedComponentId;

    open spec fn view(&self) -> SpecStronglyConnectedComponentId {
        SpecStronglyConnectedComponentId {
            sc_component_id: self.sc_component_id@,
            scc_length: self.scc_length,
            scc_index: self.scc_index,
        }
    }
}

impl WireFormat for StronglyConnectedComponentId {
    open spec fn spec_read(s: Seq<u8>, p: int, e: Endianness) -> Result<
        (SpecStronglyConnectedComponentId, int),
        ReadError,
    > {
        match spec_read_hash(s, p) {
            Err(err) => Err(err),
            Ok((sc_component_id, q)) => match spec_read_i32(s, q, e) {
                Err(err) => Err(err),
                Ok((scc_length, r)) => match spec_read_i32(s, r, e) {
                    Err(err) => Err(err),
                    Ok((scc_index, t)) => Ok(
                        (SpecStronglyConnectedComponentId { sc_component_id, scc_length, scc_index }, t),
                    ),
                },
            },
        }
    }

    open spec fn spec_write(v: SpecStronglyConnectedComponentId, e: Endianness) -> Seq<u8> {
        v.sc_component_id + i32_to_bytes(v.scc_length, e) + i32_to_bytes(v.scc_index, e)
    }

    open spec fn spec_lossless(v: SpecStronglyConnectedComponentId) -> bool {
        v.sc_component_id.len() == 14
    }

    proof fn lemma_write_read(v: SpecStronglyConnectedComponentId, s: Seq<u8>, p: int, e: Endianness) {
        let a = v.sc_component_id;
        let b = i32_to_bytes(v.scc_length, e);
        let c = i32_to_bytes(v.scc_index, e);
        lemma_occurs_split(s, p, a + b, c);
        lemma_occurs_split(s, p, a, b);
        lemma_i32_write_read(s, p + 14, v.scc_length, e);
        lemma_i32_write_read(s, p + 18, v.scc_index, e);
    }

    fn read_from(buf: &[u8], pos: usize, endian: Endianness) -> (res: Result<
        (StronglyConnectedComponentId, usize),
        ReadError,
    >) {
        let (sc_component_id, q) = match read_hash(buf, pos) {
            Ok(r) => r,
            Err(err) => return Err(err),
        };
        let (scc_length, r) = match read_i32(buf, q, endian) {
            Ok(r) => r,
            Err(err) => return Err(err),
        };
        let (scc_index, t) = match read_i32(buf, r, endian) {
            Ok(r) => r,
            Err(err) => return Err(err),
        };
        Ok((StronglyConnectedComponentId { sc_component_id, scc_length, scc_index }, t))
    }

    fn write_to(&self, endian: Endianness, out: &mut Vec<u8>) {
        write_hash(&self.sc_component_id, out);
        write_i32(self.scc_length, endian, out);
        write_i32(self.scc_index, endian, out);
        assert(out@ =~= old(out)@ + Self::spec_write(self@, endian));
    }
}

// ---------------------------------------------------------------------------
// TypeIdentifier

/// Identifies a type: a primitive type, a string or plain collection
/// described in place, a hash of a type object, or a component of a
/// strongly connected set of types.
#[derive(Debug, PartialEq, Eq)]
#[allow(inconsistent_fields)]
pub enum TypeIdentifier {
    Primitive(u8),
    String8Small { bound: u8 },
    String8Large { bound: u32 },
    String16Small { bound: u8 },
    String16Large { bound: u32 },
    PlainSequenceSmall {
        header: PlainCollectionHeader,
        bound: u8,
        element_identifier: Box<TypeIdentifier>,
    },
    PlainSequenceLarge {
        header: PlainCollectionHeader,
        bound: u32,
        element_identifier: Box<TypeIdentifier>,
    },
    PlainArraySmall {
        header: PlainCollectionHeader,
        bound: u8,
        element_identifier: Box<TypeIdentifier>,
    },
    PlainArrayLarge {
        header: PlainCollectionHeader,
        bound: u32,
        element_identifier: Box<TypeIdentifier>,
    },
    MinimalHash(EquivalenceHash),
    CompleteHash(EquivalenceHash),
    StronglyConnectedComponent(StronglyConnectedComponentId),
    Extended,
}

/// The value of a `TypeIdentifier`, hashes as sequences.
#[allow(inconsistent_fields)]
pub enum SpecTypeIdentifier {
    Primitive(u8),
    String8Small { bound: u8 },
    String8Large { bound: u32 },
    String16Small { bound: u8 },
    String16Large { bound: u32 },
    PlainSequenceSmall {
        header: PlainCollectionHeader,
        bound: u8,
        element_identifier: Box<SpecTypeIdentifier>,
    },
    PlainSequenceLarge {
        header: PlainCollectionHeader,
        bound: u32,
        element_identifier: Box<SpecTypeIdentifier>,
    },
    PlainArraySmall {
        header: PlainCollectionHeader,
        bound: u8,
        element_identifier: Box<SpecTypeIdentifier>,
    },
    PlainArrayLarge {
        header: PlainCollectionHeader,
        bound: u32,
        element_identifier: Box<SpecTypeIdentifier>,
    },
    MinimalHash(Seq<u8>),
    CompleteHash(Seq<u8>),
    StronglyConnectedComponent(SpecStronglyConnectedComponentId),
    Extended,
}

/// The value of a type identifier.
pub open spec fn type_identifier_view(t: TypeIdentifier) -> SpecTypeIdentifier
    decreases t,
{
    match t {
        TypeIdentifier::Primitive(disc) => SpecTypeIdentifier::Primitive(disc),
        TypeIdentifier::String8Small { bound } => SpecTypeIdentifier::String8Small { bound },
        TypeIdentifier::String8Large { bound } => SpecTypeIdentifier::String8Large { bound },
        TypeIdentifier::String16Small { bound } => SpecTypeIdentifier::String16Small { bound },
        TypeIdentifier::String16Large { bound } => SpecTypeIdentifier::String16Large { bound },
        TypeIdentifier::PlainSequenceSmall { header, bound, element_identifier } =>
            SpecTypeIdentifier::PlainSequenceSmall {
            header,
            bound,
            element_identifier: Box::new(type_identifier_view(*element_identifier)),
        },
        TypeIdentifier::PlainSequenceLarge { header, bound, element_identifier } =>
            SpecTypeIdentifier::PlainSequenceLarge {
            header,
            bound,
            element_identifier: Box::new(type_identifier_view(*element_identifier)),
        },
        TypeIdentifier::PlainArraySmall { header, bound, element_identifier } =>
            SpecTypeIdentifier::PlainArraySmall {
            header,
            bound,
            element_identifier: Box::new(type_identifier_view(*element_identifier)),
        },
        TypeIdentifier::PlainArrayLarge { header, bound, element_identifier } =>
            SpecTypeIdentifier::PlainArrayLarge {
            header,
            bound,
            element_identifier: Box::new(type_identifier_view(*element_identifier)),
        },
        TypeIdentifier::MinimalHash(hash) => SpecTypeIdentifier::MinimalHash(hash@),
        TypeIdentifier::CompleteHash(hash) => SpecTypeIdentifier::CompleteHash(hash@),
        TypeIdentifier::StronglyConnectedComponent(scc) => SpecTypeIdentifier::StronglyConnectedComponent(
            scc@,
        ),
        TypeIdentifier::Extended => SpecTypeIdentifier::Extended,
    }
}

impl View for TypeIdentifier {
    type V = SpecTypeIdentifier;

    open spec fn view(&self) -> SpecTypeIdentifier {
        type_identifier_view(*self)
    }
}

/// The bytes that encode a type identifier: its discriminant, then its
/// fields in declaration order.
pub open spec fn spec_write_type_identifier(t: SpecTypeIdentifier, e: Endianness) -> Seq<u8>
    decreases t,
{
    match t {
        SpecTypeIdentifier::Primitive(disc) => seq![disc],
        SpecTypeIdentifier::String8Small { bound } => seq![TI_STRING8_SMALL, bound],
        SpecTypeIdentifier::String8Large { bound } => seq![TI_STRING8_LARGE] + u32_to_bytes(bound, e),
        SpecTypeIdentifier::String16Small { bound } => seq![TI_STRING16_SMALL, bound],
        SpecTypeIdentifier::String16Large { bound } => seq![TI_STRING16_LARGE] + u32_to_bytes(
            bound,
            e,
        ),
        SpecTypeIdentifier::PlainSequenceSmall { header, bound, element_identifier } => seq![
            TI_PLAIN_SEQUENCE_SMALL,
        ] + PlainCollectionHeader::spec_write(header, e) + seq![bound]
            + spec_write_type_identifier(*element_identifier, e),
        SpecTypeIdentifier::PlainSequenceLarge { header, bound, element_identifier } => seq![
            TI_PLAIN_SEQUENCE_LARGE,
        ] + PlainCollectionHeader::spec_write(header, e) + u32_to_bytes(bound, e)
            + spec_write_type_identifier(*element_identifier, e),
        SpecTypeIdentifier::PlainArraySmall { header, bound, element_identifier } => seq![
            TI_PLAIN_ARRAY_SMALL,
        ] + PlainCollectionHeader::spec_write(header, e) + seq![bound]
            + spec_write_type_identifier(*element_identifier, e),
        SpecTypeIdentifier::PlainArrayLarge { header, bound, element_identifier } => seq![
            TI_PLAIN_ARRAY_LARGE,
        ] + PlainCollectionHeader::spec_write(header, e) + u32_to_bytes(bound, e)
            + spec_write_type_identifier(*element_identifier, e),
        SpecTypeIdentifier::MinimalHash(hash) => seq![EK_MINIMAL] + hash,
        SpecTypeIdentifier::CompleteHash(hash) => seq![EK_COMPLETE] + hash,
        SpecTypeIdentifier::StronglyConnectedComponent(scc) => seq![TI_STRONGLY_CONNECTED_COMPONENT]
            + StronglyConnectedComponentId::spec_write(scc, e),
        SpecTypeIdentifier::Extended => seq![TI_EXTENDED_WRITTEN],
    }
}

/// Reading a type identifier at position `p` of `s`. A primitive
/// discriminant stands alone; an unknown one reads as `Extended`.
#[verifier::opaque]
pub open spec fn spec_read_type_identifier(s: Seq<u8>, p: int, e: Endianness) -> Result<
    (SpecTypeIdentifier, int),
    ReadError,
>
    decreases s.len() - p,
{
    match spec_read_u8(s, p) {
        Err(err) => Err(err),
        Ok((disc, q)) => if spec_is_primitive(disc) {
            Ok((SpecTypeIdentifier::Primitive(disc), q))
        } else if disc == TI_STRING8_SMALL {
            match spec_read_u8(s, q) {
                Err(err) => Err(err),
                Ok((bound, r)) => Ok((SpecTypeIdentifier::String8Small { bound }, r)),
            }
        } else if disc == TI_STRING8_LARGE {
            match spec_read_u32(s, q, e) {
                Err(err) => Err(err),
                Ok((bound, r)) => Ok((SpecTypeIdentifier::String8Large { bound }, r)),
            }
        } else if disc == TI_STRING16_SMALL {
            match spec_read_u8(s, q) {
                Err(err) => Err(err),
                Ok((bound, r)) => Ok((SpecTypeIdentifier::String16Small { bound }, r)),
            }
        } else if disc == TI_STRING16_LARGE {
            match spec_read_u32(s, q, e) {
                Err(err) => Err(err),
                Ok((bound, r)) => Ok((SpecTypeIdentifier::String16Large { bound }, r)),
            }
        } else if disc == TI_PLAIN_SEQUENCE_SMALL || disc == TI_PLAIN_ARRAY_SMALL {
            match PlainCollectionHeader::spec_read(s, q, e) {
                Err(err) => Err(err),
                Ok((header, r)) => match spec_read_u8(s, r) {
                    Err(err) => Err(err),
                    Ok((bound, t)) => match spec_read_type_identifier(s, t, e) {
                        Err(err) => Err(err),
                        Ok((element, u)) => {
                            let element_identifier = Box::new(element);
                            if disc == TI_PLAIN_SEQUENCE_SMALL {
                                Ok(
                                    (
                                        SpecTypeIdentifier::PlainSequenceSmall {
                                            header,
                                            bound,
                                            element_identifier,
                                        },
                                        u,
                                    ),
                                )
                            } else {
                                Ok(
                                    (
                                        SpecTypeIdentifier::PlainArraySmall {
                                            header,
                                            bound,
                                            element_identifier,
                                        },
                                        u,
                                    ),
                                )
                            }
                        },
                    },
                },
            }
        } else if disc == TI_PLAIN_SEQUENCE_LARGE || disc == TI_PLAIN_ARRAY_LARGE {
            match PlainCollectionHeader::spec_read(s, q, e) {
                Err(err) => Err(err),
                Ok((header, r)) => match spec_read_u32(s, r, e) {
                    Err(err) => Err(err),
                    Ok((bound, t)) => match spec_read_type_identifier(s, t, e) {
                        Err(err) => Err(err),
                        Ok((element, u)) => {
                            let element_identifier = Box::new(element);
                            if disc == TI_PLAIN_SEQUENCE_LARGE {
                                Ok(
                                    (
                                        SpecTypeIdentifier::PlainSequenceLarge {
                                            header,
                                            bound,
                                            element_identifier,
                                        },
                                        u,
                                    ),
                                )
                            } else {
                                Ok(
                                    (
                                        SpecTypeIdentifier::PlainArrayLarge {
                                            header,
                                            bound,
                                            element_identifier,
                                        },
                                        u,
                                    ),
                                )
                            }
                        },
                    },
                },
            }
        } else if disc == EK_MINIMAL {
            match spec_read_hash(s, q) {
                Err(err) => Err(err),
                Ok((hash, r)) => Ok((SpecTypeIdentifier::MinimalHash(hash), r)),
            }
        } else if disc == EK_COMPLETE {
            match spec_read_hash(s, q) {
                Err(err) => Err(err),
                Ok((hash, r)) => Ok((SpecTypeIdentifier::CompleteHash(hash), r)),
            }
        } else if disc == TI_STRONGLY_CONNECTED_COMPONENT {
            match StronglyConnectedComponentId::spec_read(s, q, e) {
                Err(err) => Err(err),
                Ok((scc, r)) => Ok((SpecTypeIdentifier::StronglyConnectedComponent(scc), r)),
            }
        } else {
            Ok((SpecTypeIdentifier::Extended, q))
        },
    }
}

/// A type identifier reads back as written: its primitive discriminants are
/// primitive ones and its hashes are 14 bytes long.
pub open spec fn type_identifier_lossless(t: SpecTypeIdentifier) -> bool
    decreases t,
{
    match t {
        SpecTypeIdentifier::Primitive(disc) => spec_is_primitive(disc),
        SpecTypeIdentifier::PlainSequenceSmall { element_identifier, .. } => type_identifier_lossless(
            *element_identifier,
        ),
        SpecTypeIdentifier::PlainSequenceLarge { element_identifier, .. } => type_identifier_lossless(
            *element_identifier,
        ),
        SpecTypeIdentifier::PlainArraySmall { element_identifier, .. } => type_identifier_lossless(
            *element_identifier,
        ),
        SpecTypeIdentifier::PlainArrayLarge { element_identifier, .. } => type_identifier_lossless(
            *element_identifier,
        ),
        SpecTypeIdentifier::MinimalHash(hash) => hash.len() == 14,
        SpecTypeIdentifier::CompleteHash(hash) => hash.len() == 14,
        SpecTypeIdentifier::StronglyConnectedComponent(scc) => scc.sc_component_id.len() == 14,
        _ => true,
    }
}

/// A copy of a type identifier, element identifiers copied in turn.
fn copy_type_identifier(t: &TypeIdentifier) -> (res: TypeIdentifier)
    ensures
        res@ == t@,
    decreases t,
{
    match t {
        TypeIdentifier::Primitive(disc) => TypeIdentifier::Primitive(*disc),
        TypeIdentifier::String8Small { bound } => TypeIdentifier::String8Small { bound: *bound },
        TypeIdentifier::String8Large { bound } => TypeIdentifier::String8Large { bound: *bound },
        TypeIdentifier::String16Small { bound } => TypeIdentifier::String16Small { bound: *bound },
        TypeIdentifier::String16Large { bound } => TypeIdentifier::String16Large { bound: *bound },
        TypeIdentifier::PlainSequenceSmall { header, bound, element_identifier } =>
            TypeIdentifier::PlainSequenceSmall {
            header: PlainCollectionHeader {
                equiv_kind: header.equiv_kind,
                element_flags: header.element_flags,
            },
            bound: *bound,
            element_identifier: Box::new(copy_type_identifier(element_identifier)),
        },
        TypeIdentifier::PlainSequenceLarge { header, bound, element_identifier } =>
            TypeIdentifier::PlainSequenceLarge {
            header: PlainCollectionHeader {
                equiv_kind: header.equiv_kind,
                element_flags: header.element_flags,
            },
            bound: *bound,
            element_identifier: Box::new(copy_type_identifier(element_identifier)),
        },
        TypeIdentifier::PlainArraySmall { header, bound, element_identifier } =>
            TypeIdentifier::PlainArraySmall {
            header: PlainCollectionHeader {
                equiv_kind: header.equiv_kind,
                element_flags: header.element_flags,
            },
            bound: *bound,
            element_identifier: Box::new(copy_type_identifier(element_identifier)),
        },
        TypeIdentifier::PlainArrayLarge { header, bound, element_identifier } =>
            TypeIdentifier::PlainArrayLarge {
            header: PlainCollectionHeader {
                equiv_kind: header.equiv_kind,
                element_flags: header.element_flags,
            },
            bound: *bound,
            element_identifier: Box::new(copy_type_identifier(element_identifier)),
        },
        TypeIdentifier::MinimalHash(hash) => TypeIdentifier::MinimalHash(*hash),
        TypeIdentifier::CompleteHash(hash) => TypeIdentifier::CompleteHash(*hash),
        TypeIdentifier::StronglyConnectedComponent(scc) => TypeIdentifier::StronglyConnectedComponent(
            StronglyConnectedComponentId {
                sc_component_id: scc.sc_component_id,
                scc_length: scc.scc_length,
                scc_index: scc.scc_index,
            },
        ),
        TypeIdentifier::Extended => TypeIdentifier::Extended,
    }
}

impl Clone for TypeIdentifier {
    fn clone(&self) -> (res: TypeIdentifier)
        ensures
            res@ == self@,
    {
        copy_type_identifier(self)
    }
}

/// What is written reads back (see `type_identifier_lossless`).
pub proof fn lemma_type_identifier_write_read(t: SpecTypeIdentifier, s: Seq<u8>, p: int, e: Endianness)
    requires
        type_identifier_lossless(t),
        occurs_at(s, p, spec_write_type_identifier(t, e)),
    ensures
        spec_read_type_identifier(s, p, e) == Ok::<(SpecTypeIdentifier, int), ReadError>(
            (t, p + spec_write_type_identifier(t, e).len()),
        ),
    decreases t, 0int,
{
    match t {
        SpecTypeIdentifier::Primitive(_) => lemma_leaf_write_read(t, s, p, e),
        SpecTypeIdentifier::String8Small { .. } => lemma_leaf_write_read(t, s, p, e),
        SpecTypeIdentifier::String16Small { .. } => lemma_leaf_write_read(t, s, p, e),
        SpecTypeIdentifier::String8Large { .. } => lemma_leaf_write_read(t, s, p, e),
        SpecTypeIdentifier::String16Large { .. } => lemma_leaf_write_read(t, s, p, e),
        SpecTypeIdentifier::MinimalHash(_) => lemma_leaf_write_read(t, s, p, e),
        SpecTypeIdentifier::CompleteHash(_) => lemma_leaf_write_read(t, s, p, e),
        SpecTypeIdentifier::StronglyConnectedComponent(_) => lemma_leaf_write_read(t, s, p, e),
        SpecTypeIdentifier::Extended => lemma_leaf_write_read(t, s, p, e),
        SpecTypeIdentifier::PlainSequenceSmall { header, bound, element_identifier } => {
            lemma_small_collection_write_read(
                s,
                p,
                TI_PLAIN_SEQUENCE_SMALL,
                header,
                bound,
                *element_identifier,
                e,
            );
        },
        SpecTypeIdentifier::PlainArraySmall { header, bound, element_identifier } => {
            lemma_small_collection_write_read(
                s,
                p,
                TI_PLAIN_ARRAY_SMALL,
                header,
                bound,
                *element_identifier,
                e,
            );
        },
        SpecTypeIdentifier::PlainSequenceLarge { header, bound, element_identifier } => {
            lemma_large_collection_write_read(
                s,
                p,
                TI_PLAIN_SEQUENCE_LARGE,
                header,
                bound,
                *element_identifier,
                e,
            );
        },
        SpecTypeIdentifier::PlainArrayLarge { header, bound, element_identifier } => {
            lemma_large_collection_write_read(
                s,
                p,
                TI_PLAIN_ARRAY_LARGE,
                header,
                bound,
                *element_identifier,
                e,
            );
        },
    }
}

/// What is written reads back, for an identifier without an element.
#[verifier::rlimit(30)]
proof fn lemma_leaf_write_read(t: SpecTypeIdentifier, s: Seq<u8>, p: int, e: Endianness)
    requires
        type_identifier_lossless(t),
        occurs_at(s, p, spec_write_type_identifier(t, e)),
        !(t is PlainSequenceSmall || t is PlainSequenceLarge || t is PlainArraySmall
            || t is PlainArrayLarge),
    ensures
        spec_read_type_identifier(s, p, e) == Ok::<(SpecTypeIdentifier, int), ReadError>(
            (t, p + spec_write_type_identifier(t, e).len()),
        ),
{
    reveal(spec_read_type_identifier);
    let w = spec_write_type_identifier(t, e);
    lemma_occurs_byte(s, p, w, 0);
    match t {
        SpecTypeIdentifier::String8Small { bound } => {
            lemma_occurs_byte(s, p, w, 1);
        },
        SpecTypeIdentifier::String16Small { bound } => {
            lemma_occurs_byte(s, p, w, 1);
        },
        SpecTypeIdentifier::String8Large { bound } => {
            lemma_occurs_split(s, p, seq![TI_STRING8_LARGE], u32_to_bytes(bound, e));
            lemma_u32_write_read(s, p + 1, bound, e);
        },
        SpecTypeIdentifier::String16Large { bound } => {
            lemma_occurs_split(s, p, seq![TI_STRING16_LARGE], u32_to_bytes(bound, e));
            lemma_u32_write_read(s, p + 1, bound, e);
        },
        SpecTypeIdentifier::MinimalHash(hash) => {
            lemma_occurs_split(s, p, seq![EK_MINIMAL], hash);
        },
        SpecTypeIdentifier::CompleteHash(hash) => {
            lemma_occurs_split(s, p, seq![EK_COMPLETE], hash);
        },
        SpecTypeIdentifier::StronglyConnectedComponent(scc) => {
            lemma_occurs_split(
                s,
                p,
                seq![TI_STRONGLY_CONNECTED_COMPONENT],
                StronglyConnectedComponentId::spec_write(scc, e),
            );
            StronglyConnectedComponentId::lemma_write_read(scc, s, p + 1, e);
        },
        _ => {},
    }
}

/// The prefix of a collection identifier with a one-byte bound reads back,
/// and then so does the whole identifier.
#[verifier::rlimit(30)]
proof fn lemma_small_collection_write_read(
    s: Seq<u8>,
    p: int,
    disc: u8,
    header: PlainCollectionHeader,
    bound: u8,
    element: SpecTypeIdentifier,
    e: Endianness,
)
    requires
        disc == TI_PLAIN_SEQUENCE_SMALL || disc == TI_PLAIN_ARRAY_SMALL,
        type_identifier_lossless(element),
        occurs_at(
            s,
            p,
            seq![disc] + PlainCollectionHeader::spec_write(header, e) + seq![bound]
                + spec_write_type_identifier(element, e),
        ),
    ensures
        spec_read_type_identifier(s, p, e) == Ok::<(SpecTypeIdentifier, int), ReadError>(
            (
                if disc == TI_PLAIN_SEQUENCE_SMALL {
                    SpecTypeIdentifier::PlainSequenceSmall {
                        header,
                        bound,
                        element_identifier: Box::new(element),
                    }
                } else {
                    SpecTypeIdentifier::PlainArraySmall {
                        header,
                        bound,
                        element_identifier: Box::new(element),
                    }
                },
                p + 5 + spec_write_type_identifier(element, e).len(),
            ),
        ),
    decreases element, 1int,
{
    reveal(spec_read_type_identifier);
    let h = PlainCollectionHeader::spec_write(header, e);
    let rest = spec_write_type_identifier(element, e);
    lemma_occurs_split(s, p, seq![disc] + h + seq![bound], rest);
    lemma_occurs_split(s, p, seq![disc] + h, seq![bound]);
    lemma_occurs_split(s, p, seq![disc], h);
    lemma_occurs_byte(s, p, seq![disc], 0);
    lemma_occurs_byte(s, p + 4, seq![bound], 0);
    PlainCollectionHeader::lemma_write_read(header, s, p + 1, e);
    lemma_type_identifier_write_read(element, s, p + 5, e);
}

/// The prefix of a collection identifier with a four-byte bound reads back,
/// and then so does the whole identifier.
#[verifier::rlimit(30)]
proof fn lemma_large_collection_write_read(
    s: Seq<u8>,
    p: int,
    disc: u8,
    header: PlainCollectionHeader,
    bound: u32,
    element: SpecTypeIdentifier,
    e: Endianness,
)
    requires
        disc == TI_PLAIN_SEQUENCE_LARGE || disc == TI_PLAIN_ARRAY_LARGE,
        type_identifier_lossless(element),
        occurs_at(
            s,
            p,
            seq![disc] + PlainCollectionHeader::spec_write(header, e) + u32_to_bytes(bound, e)
                + spec_write_type_identifier(element, e),
        ),
    ensures
        spec_read_type_identifier(s, p, e) == Ok::<(SpecTypeIdentifier, int), ReadError>(
            (
                if disc == TI_PLAIN_SEQUENCE_LARGE {
                    SpecTypeIdentifier::PlainSequenceLarge {
                        header,
                        bound,
                        element_identifier: Box::new(element),
                    }
                } else {
                    SpecTypeIdentifier::PlainArrayLarge {
                        header,
                        bound,
                        element_identifier: Box::new(element),
                    }
                },
                p + 8 + spec_write_type_identifier(element, e).len(),
            ),
        ),
    decreases element, 1int,
{
    reveal(spec_read_type_identifier);
    let h = PlainCollectionHeader::spec_write(header, e);
    let rest = spec_write_type_identifier(element, e);
    lemma_occurs_split(s, p, seq![disc] + h + u32_to_bytes(bound, e), rest);
    lemma_occurs_split(s, p, seq![disc] + h, u32_to_bytes(bound, e));
    lemma_occurs_split(s, p, seq![disc], h);
    lemma_occurs_byte(s, p, seq![disc], 0);
    PlainCollectionHeader::lemma_write_read(header, s, p + 1, e);
    lemma_u32_write_read(s, p + 4, bound, e);
    lemma_type_identifier_write_read(element, s, p + 8, e);
}

/// Reads a type identifier at `pos`.
#[verifier::rlimit(30)]
fn read_type_identifier(buf: &[u8], pos: usize, e: Endianness) -> (res: Result<
    (TypeIdentifier, usize),
    ReadError,
>)
    requires
        pos <= buf@.len(),
    ensures
        read_agrees(res, spec_read_type_identifier(buf@, pos as int, e)),
        res matches Ok((_, q)) ==> pos <= q <= buf@.len(),
    decreases buf@.len() - pos,
{
    proof {
        reveal(spec_read_type_identifier);
    }
    let (disc, q) = match read_u8(buf, pos) {
        Ok(r) => r,
        Err(err) => return Err(err),
    };
    if is_primitive(disc) {
        return Ok((TypeIdentifier::Primitive(disc), q));
    }
    if disc == TI_STRING8_SMALL || disc == TI_STRING16_SMALL {
        let (bound, r) = match read_u8(buf, q) {
            Ok(r) => r,
            Err(err) => return Err(err),
        };
        if disc == TI_STRING8_SMALL {
            Ok((TypeIdentifier::String8Small { bound }, r))
        } else {
            Ok((TypeIdentifier::String16Small { bound }, r))
        }
    } else if disc == TI_STRING8_LARGE || disc == TI_STRING16_LARGE {
        let (bound, r) = match read_u32(buf, q, e) {
            Ok(r) => r,
            Err(err) => return Err(err),
        };
        if disc == TI_STRING8_LARGE {
            Ok((TypeIdentifier::String8Large { bound }, r))
        } else {
            Ok((TypeIdentifier::String16Large { bound }, r))
        }
    } else if disc == TI_PLAIN_SEQUENCE_SMALL || disc == TI_PLAIN_ARRAY_SMALL {
        let (header, r) = match PlainCollectionHeader::read_from(buf, q, e) {
            Ok(r) => r,
            Err(err) => return Err(err),
        };
        let (bound, t) = match read_u8(buf, r) {
            Ok(r) => r,
            Err(err) => return Err(err),
        };
        let (element, u) = match read_type_identifier(buf, t, e) {
            Ok(r) => r,
            Err(err) => return Err(err),
        };
        let element_identifier = Box::new(element);
        if disc == TI_PLAIN_SEQUENCE_SMALL {
            Ok((TypeIdentifier::PlainSequenceSmall { header, bound, element_identifier }, u))
        } else {
            Ok((TypeIdentifier::PlainArraySmall { header, bound, element_identifier }, u))
        }
    } else if disc == TI_PLAIN_SEQUENCE_LARGE || disc == TI_PLAIN_ARRAY_LARGE {
        let (header, r) = match PlainCollectionHeader::read_from(buf, q, e) {
            Ok(r) => r,
            Err(err) => return Err(err),
        };
        let (bound, t) = match read_u32(buf, r, e) {
            Ok(r) => r,
            Err(err) => return Err(err),
        };
        let (element, u) = match read_type_identifier(buf, t, e) {
            Ok(r) => r,
            Err(err) => return Err(err),
        };
        let element_identifier = Box::new(element);
        if disc == TI_PLAIN_SEQUENCE_LARGE {
            Ok((TypeIdentifier::PlainSequenceLarge { header, bound, element_identifier }, u))
        } else {
            Ok((TypeIdentifier::PlainArrayLarge { header, bound, element_identifier }, u))
        }
    } else if disc == EK_MINIMAL || disc == EK_COMPLETE {
        let (hash, r) = match read_hash(buf, q) {
            Ok(r) => r,
            Err(err) => return Err(err),
        };
        if disc == EK_MINIMAL {
            Ok((TypeIdentifier::MinimalHash(hash), r))
        } else {
            Ok((TypeIdentifier::CompleteHash(hash), r))
        }
    } else if disc == TI_STRONGLY_CONNECTED_COMPONENT {
        let (scc, r) = match StronglyConnectedComponentId::read_from(buf, q, e) {
            Ok(r) => r,
            Err(err) => return Err(err),
        };
        Ok((TypeIdentifier::StronglyConnectedComponent(scc), r))
    } else {
        Ok((TypeIdentifier::Extended, q))
    }
}

/// Appends the encoding of a type identifier.
fn write_type_identifier(t: &TypeIdentifier, e: Endianness, out: &mut Vec<u8>)
    ensures
        final(out)@ == old(out)@ + spec_write_type_identifier(t@, e),
    decreases t,
{
    match t {
        TypeIdentifier::Primitive(disc) => {
            write_u8(*disc, out);
        },
        TypeIdentifier::String8Small { bound } => {
            write_u8(TI_STRING8_SMALL, out);
            write_u8(*bound, out);
        },
        TypeIdentifier::String8Large { bound } => {
            write_u8(TI_STRING8_LARGE, out);
            write_u32(*bound, e, out);
        },
        TypeIdentifier::String16Small { bound } => {
            write_u8(TI_STRING16_SMALL, out);
            write_u8(*bound, out);
        },
        TypeIdentifier::String16Large { bound } => {
            write_u8(TI_STRING16_LARGE, out);
            write_u32(*bound, e, out);
        },
        TypeIdentifier::PlainSequenceSmall { header, bound, element_identifier } => {
            write_u8(TI_PLAIN_SEQUENCE_SMALL, out);
            header.write_to(e, out);
            write_u8(*bound, out);
            write_type_identifier(element_identifier, e, out);
        },
        TypeIdentifier::PlainSequenceLarge { header, bound, element_identifier } => {
            write_u8(TI_PLAIN_SEQUENCE_LARGE, out);
            header.write_to(e, out);
            write_u32(*bound, e, out);
            write_type_identifier(element_identifier, e, out);
        },
        TypeIdentifier::PlainArraySmall { header, bound, element_identifier } => {
            write_u8(TI_PLAIN_ARRAY_SMALL, out);
            header.write_to(e, out);
            write_u8(*bound, out);
            write_type_identifier(element_identifier, e, out);
        },
        TypeIdentifier::PlainArrayLarge { header, bound, element_identifier } => {
            write_u8(TI_PLAIN_ARRAY_LARGE, out);
            header.write_to(e, out);
            write_u32(*bound, e, out);
            write_type_identifier(element_identifier, e, out);
        },
        TypeIdentifier::MinimalHash(hash) => {
            write_u8(EK_MINIMAL, out);
            write_hash(hash, out);
        },
        TypeIdentifier::CompleteHash(hash) => {
            write_u8(EK_COMPLETE, out);
            write_hash(hash, out);
        },
        TypeIdentifier::StronglyConnectedComponent(scc) => {
            write_u8(TI_STRONGLY_CONNECTED_COMPONENT, out);
            scc.write_to(e, out);
        },
        TypeIdentifier::Extended => {
            write_u8(TI_EXTENDED_WRITTEN, out);
        },
    }
    assert(out@ =~= old(out)@ + spec_write_type_identifier(t@, e));
}

impl WireFormat for TypeIdentifier {
    open spec fn spec_read(s: Seq<u8>, p: int, e: Endianness) -> Result<(SpecTypeIdentifier, int), ReadError> {
        spec_read_type_identifier(s, p, e)
    }

    open spec fn spec_write(v: SpecTypeIdentifier, e: Endianness) -> Seq<u8> {
        spec_write_type_identifier(v, e)
    }

    open spec fn spec_lossless(v: SpecTypeIdentifier) -> bool {
        type_identifier_lossless(v)
    }

    proof fn lemma_write_read(v: SpecTypeIdentifier, s: Seq<u8>, p: int, e: Endianness) {
        lemma_type_identifier_write_read(v, s, p, e);
    }

    fn read_from(buf: &[u8], pos: usize, endian: Endianness) -> (res: Result<(TypeIdentifier, usize), ReadError>) {
        read_type_identifier(buf, pos, endian)
    }

    fn write_to(&self, endian: Endianness, out: &mut Vec<u8>) {
        write_type_identifier(self, endian, out);
    }
}

/// The length of an encoding does not depend on the byte order.
pub proof fn lemma_type_identifier_write_len(t: SpecTypeIdentifier, e1: Endianness, e2: Endianness)
    ensures
        spec_write_type_identifier(t, e1).len() == spec_write_type_identifier(t, e2).len(),
    decreases t,
{
    match t {
        SpecTypeIdentifier::PlainSequenceSmall { element_identifier, .. } => {
            lemma_type_identifier_write_len(*element_identifier, e1, e2);
        },
        SpecTypeIdentifier::PlainSequenceLarge { element_identifier, .. } => {
            lemma_type_identifier_write_len(*element_identifier, e1, e2);
        },
        SpecTypeIdentifier::PlainArraySmall { element_identifier, .. } => {
            lemma_type_identifier_write_len(*element_identifier, e1, e2);
        },
        SpecTypeIdentifier::PlainArrayLarge { element_identifier, .. } => {
            lemma_type_identifier_write_len(*element_identifier, e1, e2);
        },
        _ => {},
    }
}

impl TypeIdentifier {
    /// The number of bytes that encode `self`.
    pub fn serialized_size(&self) -> (res: usize)
        requires
            spec_write_type_identifier(self@, Endianness::LittleEndian).len() <= usize::MAX,
        ensures
            forall|e: Endianness| res == #[trigger] spec_write_type_identifier(self@, e).len(),
        decreases self,
    {
        proof {
            assert forall|e: Endianness|
                spec_write_type_identifier(self@, Endianness::LittleEndian).len()
                    == #[trigger] spec_write_type_identifier(self@, e).len() by {
                lemma_type_identifier_write_len(self@, Endianness::LittleEndian, e);
            }
        }
        let ghost le = Endianness::LittleEndian;
        match self {
            TypeIdentifier::Primitive(_) => 1,
            TypeIdentifier::String8Small { .. } | TypeIdentifier::String16Small { .. } => 2,
            TypeIdentifier::String8Large { .. } | TypeIdentifier::String16Large { .. } => 5,
            TypeIdentifier::MinimalHash(_) | TypeIdentifier::CompleteHash(_) => 15,
            TypeIdentifier::PlainSequenceSmall { element_identifier, .. } => {
                assert(spec_write_type_identifier(self@, le).len() == 5 + spec_write_type_identifier(
                    element_identifier@,
                    le,
                ).len());
                1 + 3 + 1 + element_identifier.serialized_size()
            },
            TypeIdentifier::PlainSequenceLarge { element_identifier, .. } => {
                assert(spec_write_type_identifier(self@, le).len() == 8 + spec_write_type_identifier(
                    element_identifier@,
                    le,
                ).len());
                1 + 3 + 4 + element_identifier.serialized_size()
            },
            TypeIdentifier::PlainArraySmall { element_identifier, .. } => {
                assert(spec_write_type_identifier(self@, le).len() == 5 + spec_write_type_identifier(
                    element_identifier@,
                    le,
                ).len());
                1 + 3 + 1 + element_identifier.serialized_size()
            },
            TypeIdentifier::PlainArrayLarge { element_identifier, .. } => {
                assert(spec_write_type_identifier(self@, le).len() == 8 + spec_write_type_identifier(
                    element_identifier@,
                    le,
                ).len());
                1 + 3 + 4 + element_identifier.serialized_size()
            },
            TypeIdentifier::StronglyConnectedComponent(_) => 1 + 14 + 4 + 4,
            TypeIdentifier::Extended => 1,
        }
    }
}

// ---------------------------------------------------------------------------
// TypeIdentifierWithSize

/// A type identifier with the serialized size of its type object.
#[derive(Debug, Clone, PartialEq, Eq)]
pub struct TypeIdentifierWithSize {
    pub type_id: TypeIdentifier,
    pub typeobject_serialized_size: u32,
}

/// The value of a `TypeIdentifierWithSize`.
pub struct SpecTypeIdentifierWithSize {
    pub type_id: SpecTypeIdentifier,
    pub typeobject_serialized_size: u32,
}

impl View for TypeIdentifierWithSize {
    type V = SpecTypeIdentifierWithSize;

    open spec fn view(&self) -> SpecTypeIdentifierWithSize {
        SpecTypeIdentifierWithSize {
            type_id: self.type_id@,
            typeobject_serialized_size: self.typeobject_serialized_size,
        }
    }
}

/// The bytes of a `TypeIdentifierWithSize` after its length header.
pub open spec fn with_size_content(v: SpecTypeIdentifierWithSize, e: Endianness) -> Seq<u8> {
    spec_write_type_identifier(v.type_id, e) + u32_to_bytes(v.typeobject_serialized_size, e)
}

/// The length of an encoding does not depend on the byte order.
pub proof fn lemma_with_size_write_len(v: SpecTypeIdentifierWithSize, e1: Endianness, e2: Endianness)
    ensures
        TypeIdentifierWithSize::spec_write(v, e1).len() == TypeIdentifierWithSize::spec_write(
            v,
            e2,
        ).len(),
{
    lemma_type_identifier_write_len(v.type_id, e1, e2);
}

impl WireFormat for TypeIdentifierWithSize {
    /// A length header (whose value is not used), the identifier, the size.
    open spec fn spec_read(s: Seq<u8>, p: int, e: Endianness) -> Result<
        (SpecTypeIdentifierWithSize, int),
        ReadError,
    > {
        match spec_read_u32(s, p, e) {
            Err(err) => Err(err),
            Ok((_, q)) => match spec_read_type_identifier(s, q, e) {
                Err(err) => Err(err),
                Ok((type_id, r)) => match spec_read_u32(s, r, e) {
                    Err(err) => Err(err),
                    Ok((typeobject_serialized_size, t)) => Ok(
                        (SpecTypeIdentifierWithSize { type_id, typeobject_serialized_size }, t),
                    ),
                },
            },
        }
    }

    /// The length of the content (modulo 2^32), then the content.
    open spec fn spec_write(v: SpecTypeIdentifierWithSize, e: Endianness) -> Seq<u8> {
        let content = with_size_content(v, e);
        u32_to_bytes(content.len() as u32, e) + content
    }

    open spec fn spec_lossless(v: SpecTypeIdentifierWithSize) -> bool {
        type_identifier_lossless(v.type_id)
    }

    proof fn lemma_write_read(v: SpecTypeIdentifierWithSize, s: Seq<u8>, p: int, e: Endianness) {
        let content = with_size_content(v, e);
        let head = u32_to_bytes(content.len() as u32, e);
        let ti = spec_write_type_identifier(v.type_id, e);
        assert(head + content =~= head + ti + u32_to_bytes(v.typeobject_serialized_size, e));
        lemma_occurs_split(s, p, head + ti, u32_to_bytes(v.typeobject_serialized_size, e));
        lemma_occurs_split(s, p, head, ti);
        lemma_u32_write_read(s, p, content.len() as u32, e);
        lemma_type_identifier_write_read(v.type_id, s, p + 4, e);
        lemma_u32_write_read(s, p + 4 + ti.len(), v.typeobject_serialized_size, e);
    }

    fn read_from(buf: &[u8], pos: usize, endian: Endianness) -> (res: Result<
        (TypeIdentifierWithSize, usize),
        ReadError,
    >) {
        let (_dheader, q) = match read_u32(buf, pos, endian) {
            Ok(r) => r,
            Err(err) => return Err(err),
        };
        let (type_id, r) = match read_type_identifier(buf, q, endian) {
            Ok(r) => r,
            Err(err) => return Err(err),
        };
        let (typeobject_serialized_size, t) = match read_u32(buf, r, endian) {
            Ok(r) => r,
            Err(err) => return Err(err),
        };
        Ok((TypeIdentifierWithSize { type_id, typeobject_serialized_size }, t))
    }

    fn write_to(&self, endian: Endianness, out: &mut Vec<u8>) {
        let mut content: Vec<u8> = Vec::new();
        write_type_identifier(&self.type_id, endian, &mut content);
        write_u32(self.typeobject_serialized_size, endian, &mut content);
        assert(content@ =~= with_size_content(self@, endian));
        write_u32(content.len() as u32, endian, out);
        out.append(&mut content);
    }
}

impl TypeIdentifierWithSize {
    /// The number of bytes that follow the length header in the encoding.
    pub fn content_size(&self) -> (res: usize)
        requires
            TypeIdentifierWithSize::spec_write(self@, Endianness::LittleEndian).len() <= usize::MAX,
        ensures
            forall|e: Endianness|
                res + 4 == #[trigger] TypeIdentifierWithSize::spec_write(self@, e).len(),
    {
        proof {
            assert forall|e: Endianness|
                TypeIdentifierWithSize::spec_write(self@, Endianness::LittleEndian).len()
                    == #[trigger] TypeIdentifierWithSize::spec_write(self@, e).len() by {
                lemma_with_size_write_len(self@, Endianness::LittleEndian, e);
            }
        }
        self.type_id.serialized_size() + 4
    }
}

// ---------------------------------------------------------------------------
// TypeIdentifierWithDependencies

/// A type identifier with size, and those of the types it depends on.
#[derive(Debug, Clone, PartialEq, Eq)]
pub struct TypeIdentifierWithDependencies {
    pub typeid_with_size: TypeIdentifierWithSize,
    pub dependent_typeids: Vec<TypeIdentifierWithSize>,
}

/// The value of a `TypeIdentifierWithDependencies`.
pub struct SpecTypeIdentifierWithDependencies {
    pub typeid_with_size: SpecTypeIdentifierWithSize,
    pub dependent_typeids: Seq<SpecTypeIdentifierWithSize>,
}

impl View for TypeIdentifierWithDependencies {
    type V = SpecTypeIdentifierWithDependencies;

    open spec fn view(&self) -> SpecTypeIdentifierWithDependencies {
        SpecTypeIdentifierWithDependencies {
            typeid_with_size: self.typeid_with_size@,
            dependent_typeids: views(self.dependent_typeids@),
        }
    }
}

/// The bytes of a `TypeIdentifierWithDependencies` after its length header:
/// the identifier with size, the number of dependencies (as an `i32`), and
/// the dependencies.
pub open spec fn with_deps_content(v: SpecTypeIdentifierWithDependencies, e: Endianness) -> Seq<u8> {
    TypeIdentifierWithSize::spec_write(v.typeid_with_size, e) + i32_to_bytes(
        v.dependent_typeids.len() as i32,
        e,
    ) + spec_write_seq::<TypeIdentifierWithSize>(v.dependent_typeids, e)
}

/// The length of an encoding of dependencies does not depend on the byte order.
pub proof fn lemma_with_size_seq_write_len(
    vs: Seq<SpecTypeIdentifierWithSize>,
    e1: Endianness,
    e2: Endianness,
)
    ensures
        spec_write_seq::<TypeIdentifierWithSize>(vs, e1).len() == spec_write_seq::<
            TypeIdentifierWithSize,
        >(vs, e2).len(),
    decreases vs.len(),
{
    if vs.len() > 0 {
        lemma_with_size_seq_write_len(vs.drop_last(), e1, e2);
        lemma_with_size_write_len(vs.last(), e1, e2);
    }
}

/// The length of an encoding does not depend on the byte order.
pub proof fn lemma_with_deps_write_len(
    v: SpecTypeIdentifierWithDependencies,
    e1: Endianness,
    e2: Endianness,
)
    ensures
        TypeIdentifierWithDependencies::spec_write(v, e1).len()
            == TypeIdentifierWithDependencies::spec_write(v, e2).len(),
{
    reveal(spec_write_with_deps);
    lemma_with_size_write_len(v.typeid_with_size, e1, e2);
    lemma_with_size_seq_write_len(v.dependent_typeids, e1, e2);
}

/// A length header (whose value is not used), the identifier with size,
/// an `i32` count, and that many dependencies (none if it is negative).
#[verifier::opaque]
pub open spec fn spec_read_with_deps(s: Seq<u8>, p: int, e: Endianness) -> Result<
    (SpecTypeIdentifierWithDependencies, int),
    ReadError,
> {
    match spec_read_u32(s, p, e) {
        Err(err) => Err(err),
        Ok((_, q)) => match TypeIdentifierWithSize::spec_read(s, q, e) {
            Err(err) => Err(err),
            Ok((typeid_with_size, r)) => match spec_read_i32(s, r, e) {
                Err(err) => Err(err),
                Ok((count, t)) => if count >= 0 {
                    match spec_read_seq::<TypeIdentifierWithSize>(s, t, count as nat, e) {
                        Err(err) => Err(err),
                        Ok((dependent_typeids, u)) => Ok(
                            (
                                SpecTypeIdentifierWithDependencies {
                                    typeid_with_size,
                                    dependent_typeids,
                                },
                                u,
                            ),
                        ),
                    }
                } else {
                    Ok(
                        (
                            SpecTypeIdentifierWithDependencies {
                                typeid_with_size,
                                dependent_typeids: seq![],
                            },
                            t,
                        ),
                    )
                },
            },
        },
    }
}


/// The length of the content (modulo 2^32), then the content.
#[verifier::opaque]
pub open spec fn spec_write_with_deps(v: SpecTypeIdentifierWithDependencies, e: Endianness) -> Seq<u8> {
    let content = with_deps_content(v, e);
    u32_to_bytes(content.len() as u32, e) + content
}


impl WireFormat for TypeIdentifierWithDependencies {
    open spec fn spec_read(s: Seq<u8>, p: int, e: Endianness) -> Result<
        (SpecTypeIdentifierWithDependencies, int),
        ReadError,
    > {
        spec_read_with_deps(s, p, e)
    }

    open spec fn spec_write(v: SpecTypeIdentifierWithDependencies, e: Endianness) -> Seq<u8> {
        spec_write_with_deps(v, e)
    }

    open spec fn spec_lossless(v: SpecTypeIdentifierWithDependencies) -> bool {
        &&& TypeIdentifierWithSize::spec_lossless(v.typeid_with_size)
        &&& all_lossless::<TypeIdentifierWithSize>(v.dependent_typeids)
        &&& v.dependent_typeids.len() <= i32::MAX
    }

    #[verifier::rlimit(30)]
    proof fn lemma_write_read(v: SpecTypeIdentifierWithDependencies, s: Seq<u8>, p: int, e: Endianness) {
        reveal(spec_read_with_deps);
        reveal(spec_write_with_deps);
        let content = with_deps_content(v, e);
        let head = u32_to_bytes(content.len() as u32, e);
        let tws = TypeIdentifierWithSize::spec_write(v.typeid_with_size, e);
        let count = i32_to_bytes(v.dependent_typeids.len() as i32, e);
        let deps = spec_write_seq::<TypeIdentifierWithSize>(v.dependent_typeids, e);
        assert(head + content =~= head + tws + count + deps);
        lemma_occurs_split(s, p, head + tws + count, deps);
        lemma_occurs_split(s, p, head + tws, count);
        lemma_occurs_split(s, p, head, tws);
        lemma_u32_write_read(s, p, content.len() as u32, e);
        TypeIdentifierWithSize::lemma_write_read(v.typeid_with_size, s, p + 4, e);
        lemma_i32_write_read(s, p + 4 + tws.len(), v.dependent_typeids.len() as i32, e);
        lemma_seq_write_read::<TypeIdentifierWithSize>(
            v.dependent_typeids,
            s,
            p + 8 + tws.len(),
            e,
        );
        let n = v.dependent_typeids.len();
        assert((n as i32) >= 0 && (n as i32) as nat == n);
        let t = p + 8 + tws.len();
        assert(spec_read_seq::<TypeIdentifierWithSize>(s, t, n, e) == Ok::<
            (Seq<SpecTypeIdentifierWithSize>, int),
            ReadError,
        >((v.dependent_typeids, t + deps.len())));
        assert(p + (head + content).len() == t + deps.len());
    }

    fn read_from(buf: &[u8], pos: usize, endian: Endianness) -> (res: Result<
        (TypeIdentifierWithDependencies, usize),
        ReadError,
    >) {
        proof {
            reveal(spec_read_with_deps);
        }
        let (_dheader, q) = match read_u32(buf, pos, endian) {
            Ok(r) => r,
            Err(err) => return Err(err),
        };
        let (typeid_with_size, r) = match TypeIdentifierWithSize::read_from(buf, q, endian) {
            Ok(r) => r,
            Err(err) => return Err(err),
        };
        let (count, t) = match read_i32(buf, r, endian) {
            Ok(r) => r,
            Err(err) => return Err(err),
        };
        if count >= 0 {
            let (dependent_typeids, u) = match read_seq::<TypeIdentifierWithSize>(
                buf,
                t,
                count as u32,
                endian,
            ) {
                Ok(r) => r,
                Err(err) => return Err(err),
            };
            Ok((TypeIdentifierWithDependencies { typeid_with_size, dependent_typeids }, u))
        } else {
            let dependent_typeids: Vec<TypeIdentifierWithSize> = Vec::new();
            assert(views(dependent_typeids@) =~= seq![]);
            Ok((TypeIdentifierWithDependencies { typeid_with_size, dependent_typeids }, t))
        }
    }

    fn write_to(&self, endian: Endianness, out: &mut Vec<u8>) {
        let mut content: Vec<u8> = Vec::new();
        self.typeid_with_size.write_to(endian, &mut content);
        write_i32(self.dependent_typeids.len() as i32, endian, &mut content);
        write_seq(&self.dependent_typeids, endian, &mut content);
        assert(content@ =~= with_deps_content(self@, endian));
        proof {
            reveal(spec_write_with_deps);
        }
        write_u32(content.len() as u32, endian, out);
        out.append(&mut content);
    }
}

/// Encoding one more dependency adds its encoding to the total, which stays
/// within the encoding of all of them.
proof fn lemma_dependency_step(deps: Seq<SpecTypeIdentifierWithSize>, i: int, e: Endianness)
    requires
        0 <= i < deps.len(),
    ensures
        spec_write_seq::<TypeIdentifierWithSize>(deps.take(i + 1), e).len() == spec_write_seq::<
            TypeIdentifierWithSize,
        >(deps.take(i), e).len() + TypeIdentifierWithSize::spec_write(deps[i], e).len(),
        spec_write_seq::<TypeIdentifierWithSize>(deps.take(i + 1), e).len()
            <= spec_write_seq::<TypeIdentifierWithSize>(deps.take(deps.len() as int), e).len(),
{
    lemma_write_seq_step::<TypeIdentifierWithSize>(deps, i, e);
    lemma_write_seq_prefix_len::<TypeIdentifierWithSize>(deps, i + 1, deps.len() as int, e);
}

impl TypeIdentifierWithDependencies {
    /// The number of bytes that follow the length header in the encoding.
    #[verifier::rlimit(30)]
    pub fn content_size(&self) -> (res: usize)
        requires
            TypeIdentifierWithDependencies::spec_write(self@, Endianness::LittleEndian).len()
                <= usize::MAX,
        ensures
            forall|e: Endianness|
                res + 4 == #[trigger] TypeIdentifierWithDependencies::spec_write(self@, e).len(),
    {
        let ghost le = Endianness::LittleEndian;
        let ghost deps = views(self.dependent_typeids@);
        proof {
            reveal(spec_write_with_deps);
            assert forall|e: Endianness|
                TypeIdentifierWithDependencies::spec_write(self@, le).len()
                    == #[trigger] TypeIdentifierWithDependencies::spec_write(self@, e).len() by {
                lemma_with_deps_write_len(self@, le, e);
            }
            assert(deps.take(deps.len() as int) =~= deps);
        }
        let tws_size = 4 + self.typeid_with_size.content_size();
        let ghost all_deps = spec_write_seq::<TypeIdentifierWithSize>(deps, le).len();
        assert(4 + tws_size + 4 + all_deps == TypeIdentifierWithDependencies::spec_write(
            self@,
            le,
        ).len());
        let n = self.dependent_typeids.len();
        let mut deps_size: usize = 0;
        let mut i: usize = 0;
        while i < n
            invariant
                n == deps.len(),
                le == Endianness::LittleEndian,
                deps == views(self.dependent_typeids@),
                i <= n,
                deps_size == spec_write_seq::<TypeIdentifierWithSize>(deps.take(i as int), le).len(),
                tws_size + 4 + all_deps <= usize::MAX,
                all_deps == spec_write_seq::<TypeIdentifierWithSize>(deps.take(n as int), le).len(),
            decreases n - i,
        {
            let d = &self.dependent_typeids[i];
            proof {
                lemma_dependency_step(deps, i as int, le);
            }
            assert(d@ == deps[i as int]);
            let d_size = d.content_size();
            assert(deps_size + 4 + d_size <= all_deps);
            deps_size = deps_size + (4 + d_size);
            i = i + 1;
        }
        assert(deps.take(n as int) =~= deps);
        tws_size + 4 + deps_size
    }
}

// ---------------------------------------------------------------------------
// TypeInformation

/// The type information that an endpoint announces: the minimal and the
/// complete identifiers of its type, with their dependencies.
#[derive(Debug, Clone, PartialEq, Eq)]
pub struct TypeInformation {
    pub minimal: TypeIdentifierWithDependencies,
    pub complete: TypeIdentifierWithDependencies,
}

/// The value of a `TypeInformation`.
pub struct SpecTypeInformation {
    pub minimal: SpecTypeIdentifierWithDependencies,
    pub complete: SpecTypeIdentifierWithDependencies,
}

impl View for TypeInformation {
    type V = SpecTypeInformation;

    open spec fn view(&self) -> SpecTypeInformation {
        SpecTypeInformation { minimal: self.minimal@, complete: self.complete@ }
    }
}

/// Member id of the minimal identifier with dependencies.
pub const TYPEID_WITH_DEPS_MINIMAL: u32 = 0x1001;

/// Member id of the complete identifier with dependencies.
pub const TYPEID_WITH_DEPS_COMPLETE: u32 = 0x1002;

/// The member header for `member_id` with length code `length_code`.
pub open spec fn member_header(member_id: u32, length_code: u32) -> u32 {
    (member_id * 16 + length_code) as u32
}

/// The size of a member whose header carries length code `lc` below 4.
pub open spec fn member_size_of_length_code(lc: u32) -> u32 {
    if lc == 0 {
        1
    } else if lc == 1 {
        2
    } else if lc == 2 {
        4
    } else if lc == 3 {
        8
    } else {
        0
    }
}

/// What stands for a member that is absent: the identifier of no type,
/// size zero, no dependencies.
pub open spec fn absent_with_dependencies() -> SpecTypeIdentifierWithDependencies {
    SpecTypeIdentifierWithDependencies {
        typeid_with_size: SpecTypeIdentifierWithSize {
            type_id: SpecTypeIdentifier::Primitive(TK_NONE),
            typeobject_serialized_size: 0,
        },
        dependent_typeids: seq![],
    }
}

/// The view of an optional value.
pub open spec fn option_view<T: View>(o: Option<T>) -> Option<T::V> {
    match o {
        Some(x) => Some(x@),
        None => None,
    }
}

/// Reading the members of a type information from position `p` of `s`, the
/// members found so far being `minimal` and `complete`. Each member is a
/// header (member id, length code) and, for length codes from 4 on, a `u32`
/// size; the two known members are read as identifiers with dependencies,
/// any other member is skipped. Reading stops once both known members are
/// found, or where fewer than four bytes are left.
pub open spec fn spec_read_members(
    s: Seq<u8>,
    p: int,
    e: Endianness,
    minimal: Option<SpecTypeIdentifierWithDependencies>,
    complete: Option<SpecTypeIdentifierWithDependencies>,
) -> Result<
    (
        Option<SpecTypeIdentifierWithDependencies>,
        Option<SpecTypeIdentifierWithDependencies>,
        int,
    ),
    ReadError,
>
    decreases s.len() - p,
{
    match spec_read_u32(s, p, e) {
        Err(_) => Ok((minimal, complete, p)),
        Ok((header, q)) => {
            let member_id = header / 16;
            let lc = header % 8;
            let size_read = if lc < 4 {
                Ok::<(u32, int), ReadError>((member_size_of_length_code(lc), q))
            } else {
                spec_read_u32(s, q, e)
            };
            match size_read {
                Err(err) => Err(err),
                Ok((size, r)) => {
                    let step = if member_id == TYPEID_WITH_DEPS_MINIMAL {
                        match TypeIdentifierWithDependencies::spec_read(s, r, e) {
                            Err(err) => Err(err),
                            Ok((m, t)) => Ok((Some(m), complete, t)),
                        }
                    } else if member_id == TYPEID_WITH_DEPS_COMPLETE {
                        match TypeIdentifierWithDependencies::spec_read(s, r, e) {
                            Err(err) => Err(err),
                            Ok((c, t)) => Ok((minimal, Some(c), t)),
                        }
                    } else if r + size <= s.len() {
                        Ok((minimal, complete, r + size))
                    } else {
                        Err(ReadError::EndOfInput)
                    };
                    match step {
                        Err(err) => Err(err),
                        Ok((mi, co, t)) => if mi is Some && co is Some {
                            Ok((mi, co, t))
                        } else {
                            proof {
                                lemma_with_deps_read_advances(s, r, e);
                            }
                            spec_read_members(s, t, e, mi, co)
                        },
                    }
                },
            }
        },
    }
}

/// Reading a type identifier ends within the buffer, past where it began.
pub proof fn lemma_type_identifier_read_advances(s: Seq<u8>, p: int, e: Endianness)
    requires
        0 <= p,
    ensures
        spec_read_type_identifier(s, p, e) matches Ok((_, q)) ==> p < q <= s.len(),
    decreases s.len() - p,
{
    reveal(spec_read_type_identifier);
    if p + 5 <= s.len() {
        lemma_type_identifier_read_advances(s, p + 5, e);
    }
    if p + 8 <= s.len() {
        lemma_type_identifier_read_advances(s, p + 8, e);
    }
}

/// Reading dependencies ends within the buffer, not before where it began.
pub proof fn lemma_dependencies_read_advances(s: Seq<u8>, p: int, n: nat, e: Endianness)
    requires
        0 <= p <= s.len(),
    ensures
        spec_read_seq::<TypeIdentifierWithSize>(s, p, n, e) matches Ok((_, q)) ==> p <= q <= s.len(),
    decreases n,
{
    if n > 0 {
        lemma_dependencies_read_advances(s, p, (n - 1) as nat, e);
        if let Ok((_, q)) = spec_read_seq::<TypeIdentifierWithSize>(s, p, (n - 1) as nat, e) {
            lemma_with_size_read_advances(s, q, e);
        }
    }
}

/// Reading an identifier with size ends within the buffer, past where it began.
pub proof fn lemma_with_size_read_advances(s: Seq<u8>, p: int, e: Endianness)
    requires
        0 <= p,
    ensures
        TypeIdentifierWithSize::spec_read(s, p, e) matches Ok((_, q)) ==> p < q <= s.len(),
{
    lemma_type_identifier_read_advances(s, p + 4, e);
}

/// Reading an identifier with dependencies ends within the buffer, past
/// where it began.
pub proof fn lemma_with_deps_read_advances(s: Seq<u8>, p: int, e: Endianness)
    ensures
        TypeIdentifierWithDependencies::spec_read(s, p, e) matches Ok((_, q)) ==> p < q <= s.len(),
{
    reveal(spec_read_with_deps);
    if 0 <= p && p + 4 <= s.len() {
        lemma_with_size_read_advances(s, p + 4, e);
        if let Ok((_, r)) = TypeIdentifierWithSize::spec_read(s, p + 4, e) {
            if let Ok((count, t)) = spec_read_i32(s, r, e) {
                if count >= 0 {
                    lemma_dependencies_read_advances(s, t, count as nat, e);
                }
            }
        }
    }
}

/// The identifier with dependencies that stands for an absent member.
fn absent_type_identifier_with_dependencies() -> (res: TypeIdentifierWithDependencies)
    ensures
        res@ == absent_with_dependencies(),
{
    let dependent_typeids: Vec<TypeIdentifierWithSize> = Vec::new();
    let res = TypeIdentifierWithDependencies {
        typeid_with_size: TypeIdentifierWithSize {
            type_id: TypeIdentifier::Primitive(TK_NONE),
            typeobject_serialized_size: 0,
        },
        dependent_typeids,
    };
    assert(res@.dependent_typeids =~= seq![]);
    res
}

/// Reads the members of a type information from `pos` on (see `spec_read_members`).
#[verifier::rlimit(30)]
fn read_members(buf: &[u8], pos: usize, e: Endianness) -> (res: Result<
    (Option<TypeIdentifierWithDependencies>, Option<TypeIdentifierWithDependencies>, usize),
    ReadError,
>)
    requires
        pos <= buf@.len(),
    ensures
        match res {
            Ok((mi, co, q)) => spec_read_members(buf@, pos as int, e, None, None) == Ok::<
                (
                    Option<SpecTypeIdentifierWithDependencies>,
                    Option<SpecTypeIdentifierWithDependencies>,
                    int,
                ),
                ReadError,
            >((option_view(mi), option_view(co), q as int)) && pos <= q <= buf@.len(),
            Err(err) => spec_read_members(buf@, pos as int, e, None, None) == Err::<
                (
                    Option<SpecTypeIdentifierWithDependencies>,
                    Option<SpecTypeIdentifierWithDependencies>,
                    int,
                ),
                ReadError,
            >(err),
        },
{
    let mut minimal: Option<TypeIdentifierWithDependencies> = None;
    let mut complete: Option<TypeIdentifierWithDependencies> = None;
    let mut q = pos;
    loop
        invariant
            pos <= q <= buf@.len(),
            !(minimal is Some && complete is Some),
            spec_read_members(buf@, pos as int, e, None, None) == spec_read_members(
                buf@,
                q as int,
                e,
                option_view(minimal),
                option_view(complete),
            ),
        decreases buf@.len() - q,
    {
        let (header, r) = match read_u32(buf, q, e) {
            Ok(v) => v,
            Err(_) => {
                return Ok((minimal, complete, q));
            },
        };
        let member_id = header >> 4;
        let lc = header & 0x07;
        assert(member_id == header / 16 && lc == header % 8) by (bit_vector)
            requires
                member_id == header >> 4,
                lc == header & 0x07,
        ;
        let (member_size, t) = if lc < 4 {
            let size: u32 = if lc == 0 {
                1
            } else if lc == 1 {
                2
            } else if lc == 2 {
                4
            } else {
                8
            };
            (size, r)
        } else {
            match read_u32(buf, r, e) {
                Ok(v) => v,
                Err(err) => return Err(err),
            }
        };
        if member_id == TYPEID_WITH_DEPS_MINIMAL {
            let (m, u) = match TypeIdentifierWithDependencies::read_from(buf, t, e) {
                Ok(v) => v,
                Err(err) => return Err(err),
            };
            minimal = Some(m);
            q = u;
        } else if member_id == TYPEID_WITH_DEPS_COMPLETE {
            let (c, u) = match TypeIdentifierWithDependencies::read_from(buf, t, e) {
                Ok(v) => v,
                Err(err) => return Err(err),
            };
            complete = Some(c);
            q = u;
        } else {
            if buf.len() - t < member_size as usize {
                return Err(ReadError::EndOfInput);
            }
            q = t + member_size as usize;
        }
        if minimal.is_some() && complete.is_some() {
            return Ok((minimal, complete, q));
        }
    }
}

/// The bytes of a member that holds an identifier with dependencies: its
/// header (length code 4), its size, and its encoding.
pub open spec fn member_bytes(member_id: u32, v: SpecTypeIdentifierWithDependencies, e: Endianness) -> Seq<u8> {
    let w = TypeIdentifierWithDependencies::spec_write(v, e);
    u32_to_bytes(member_header(member_id, 4), e) + u32_to_bytes(w.len() as u32, e) + w
}

/// The bytes of a type information after its length header: the minimal
/// member, then the complete one.
pub open spec fn type_information_body(v: SpecTypeInformation, e: Endianness) -> Seq<u8> {
    member_bytes(TYPEID_WITH_DEPS_MINIMAL, v.minimal, e) + member_bytes(
        TYPEID_WITH_DEPS_COMPLETE,
        v.complete,
        e,
    )
}

/// Reading the header and size of a written member.
proof fn lemma_member_header_write_read(s: Seq<u8>, p: int, e: Endianness, member_id: u32, w: Seq<u8>)
    requires
        member_id == TYPEID_WITH_DEPS_MINIMAL || member_id == TYPEID_WITH_DEPS_COMPLETE,
        occurs_at(
            s,
            p,
            u32_to_bytes(member_header(member_id, 4), e) + u32_to_bytes(w.len() as u32, e) + w,
        ),
    ensures
        spec_read_u32(s, p, e) == Ok::<(u32, int), ReadError>((member_header(member_id, 4), p + 4)),
        member_header(member_id, 4) / 16 == member_id,
        member_header(member_id, 4) % 8 == 4,
        spec_read_u32(s, p + 4, e) == Ok::<(u32, int), ReadError>((w.len() as u32, p + 8)),
        occurs_at(s, p + 8, w),
{
    let h = u32_to_bytes(member_header(member_id, 4), e);
    let z = u32_to_bytes(w.len() as u32, e);
    lemma_occurs_split(s, p, h + z, w);
    lemma_occurs_split(s, p, h, z);
    lemma_u32_write_read(s, p, member_header(member_id, 4), e);
    lemma_u32_write_read(s, p + 4, w.len() as u32, e);
}

/// Reading the written minimal member first records it and goes on after it.
proof fn lemma_minimal_member_write_read(s: Seq<u8>, p: int, e: Endianness, v: SpecTypeIdentifierWithDependencies)
    requires
        TypeIdentifierWithDependencies::spec_lossless(v),
        occurs_at(s, p, member_bytes(TYPEID_WITH_DEPS_MINIMAL, v, e)),
    ensures
        spec_read_members(s, p, e, None, None) == spec_read_members(
            s,
            p + member_bytes(TYPEID_WITH_DEPS_MINIMAL, v, e).len(),
            e,
            Some(v),
            None,
        ),
{
    let w = TypeIdentifierWithDependencies::spec_write(v, e);
    lemma_member_header_write_read(s, p, e, TYPEID_WITH_DEPS_MINIMAL, w);
    TypeIdentifierWithDependencies::lemma_write_read(v, s, p + 8, e);
}

/// Reading the written complete member after the minimal one ends the members.
proof fn lemma_complete_member_write_read(
    s: Seq<u8>,
    p: int,
    e: Endianness,
    m: SpecTypeIdentifierWithDependencies,
    v: SpecTypeIdentifierWithDependencies,
)
    requires
        TypeIdentifierWithDependencies::spec_lossless(v),
        occurs_at(s, p, member_bytes(TYPEID_WITH_DEPS_COMPLETE, v, e)),
    ensures
        spec_read_members(s, p, e, Some(m), None) == Ok::<
            (
                Option<SpecTypeIdentifierWithDependencies>,
                Option<SpecTypeIdentifierWithDependencies>,
                int,
            ),
            ReadError,
        >((Some(m), Some(v), p + member_bytes(TYPEID_WITH_DEPS_COMPLETE, v, e).len())),
{
    let w = TypeIdentifierWithDependencies::spec_write(v, e);
    lemma_member_header_write_read(s, p, e, TYPEID_WITH_DEPS_COMPLETE, w);
    TypeIdentifierWithDependencies::lemma_write_read(v, s, p + 8, e);
}

/// What is written reads back: both members are found, the minimal one first.
#[verifier::rlimit(30)]
pub proof fn lemma_type_information_write_read(v: SpecTypeInformation, s: Seq<u8>, p: int, e: Endianness)
    requires
        TypeInformation::spec_lossless(v),
        occurs_at(s, p, TypeInformation::spec_write(v, e)),
    ensures
        TypeInformation::spec_read(s, p, e) == Ok::<(SpecTypeInformation, int), ReadError>(
            (v, p + TypeInformation::spec_write(v, e).len()),
        ),
{
    let mb = member_bytes(TYPEID_WITH_DEPS_MINIMAL, v.minimal, e);
    let cb = member_bytes(TYPEID_WITH_DEPS_COMPLETE, v.complete, e);
    let body = type_information_body(v, e);
    let head = u32_to_bytes(body.len() as u32, e);
    assert(head + body =~= head + mb + cb);
    lemma_occurs_split(s, p, head + mb, cb);
    lemma_occurs_split(s, p, head, mb);
    lemma_u32_write_read(s, p, body.len() as u32, e);
    lemma_minimal_member_write_read(s, p + 4, e, v.minimal);
    lemma_complete_member_write_read(s, p + 4 + mb.len(), e, v.minimal, v.complete);
}

impl WireFormat for TypeInformation {
    /// A length header (whose value is not used), then the members; a member
    /// that is not found stands as `absent_with_dependencies`.
    open spec fn spec_read(s: Seq<u8>, p: int, e: Endianness) -> Result<(SpecTypeInformation, int), ReadError> {
        match spec_read_u32(s, p, e) {
            Err(err) => Err(err),
            Ok((_, q)) => match spec_read_members(s, q, e, None, None) {
                Err(err) => Err(err),
                Ok((mi, co, r)) => Ok(
                    (
                        SpecTypeInformation {
                            minimal: match mi {
                                Some(m) => m,
                                None => absent_with_dependencies(),
                            },
                            complete: match co {
                                Some(c) => c,
                                None => absent_with_dependencies(),
                            },
                        },
                        r,
                    ),
                ),
            },
        }
    }

    /// The length of the body (modulo 2^32), then the body.
    open spec fn spec_write(v: SpecTypeInformation, e: Endianness) -> Seq<u8> {
        let body = type_information_body(v, e);
        u32_to_bytes(body.len() as u32, e) + body
    }

    open spec fn spec_lossless(v: SpecTypeInformation) -> bool {
        &&& TypeIdentifierWithDependencies::spec_lossless(v.minimal)
        &&& TypeIdentifierWithDependencies::spec_lossless(v.complete)
    }

    proof fn lemma_write_read(v: SpecTypeInformation, s: Seq<u8>, p: int, e: Endianness) {
        lemma_type_information_write_read(v, s, p, e);
    }

    fn read_from(buf: &[u8], pos: usize, endian: Endianness) -> (res: Result<(TypeInformation, usize), ReadError>) {
        let (_dheader, q) = match read_u32(buf, pos, endian) {
            Ok(r) => r,
            Err(err) => return Err(err),
        };
        let (minimal, complete, r) = match read_members(buf, q, endian) {
            Ok(v) => v,
            Err(err) => return Err(err),
        };
        let minimal = match minimal {
            Some(m) => m,
            None => absent_type_identifier_with_dependencies(),
        };
        let complete = match complete {
            Some(c) => c,
            None => absent_type_identifier_with_dependencies(),
        };
        Ok((TypeInformation { minimal, complete }, r))
    }

    fn write_to(&self, endian: Endianness, out: &mut Vec<u8>) {
        let mut minimal: Vec<u8> = Vec::new();
        self.minimal.write_to(endian, &mut minimal);
        let mut complete: Vec<u8> = Vec::new();
        self.complete.write_to(endian, &mut complete);
        let emheader_minimal: u32 = (TYPEID_WITH_DEPS_MINIMAL << 4) | 4;
        let emheader_complete: u32 = (TYPEID_WITH_DEPS_COMPLETE << 4) | 4;
        assert(emheader_minimal == member_header(TYPEID_WITH_DEPS_MINIMAL, 4)) by (bit_vector)
            requires
                emheader_minimal == (0x1001u32 << 4u32) | 4u32,
        ;
        assert(emheader_complete == member_header(TYPEID_WITH_DEPS_COMPLETE, 4)) by (bit_vector)
            requires
                emheader_complete == (0x1002u32 << 4u32) | 4u32,
        ;
        let mut body: Vec<u8> = Vec::new();
        write_u32(emheader_minimal, endian, &mut body);
        write_u32(minimal.len() as u32, endian, &mut body);
        body.append(&mut minimal);
        write_u32(emheader_complete, endian, &mut body);
        write_u32(complete.len() as u32, endian, &mut body);
        body.append(&mut complete);
        assert(body@ =~= type_information_body(self@, endian));
        write_u32(body.len() as u32, endian, out);
        out.append(&mut body);
    }
}

// ---------------------------------------------------------------------------
// Length headers

/// The length header of an encoded `TypeIdentifierWithSize` gives the number
/// of bytes that follow it (modulo 2^32).
pub proof fn lemma_with_size_length_header(v: SpecTypeIdentifierWithSize, e: Endianness)
    ensures
        ({
            let w = TypeIdentifierWithSize::spec_write(v, e);
            spec_read_u32(w, 0, e) == Ok::<(u32, int), ReadError>((((w.len() - 4) as nat) as u32, 4))
        }),
{
    let w = TypeIdentifierWithSize::spec_write(v, e);
    let content = with_size_content(v, e);
    lemma_occurs_whole(w);
    lemma_occurs_split(w, 0, u32_to_bytes(content.len() as u32, e), content);
    lemma_u32_write_read(w, 0, content.len() as u32, e);
}

/// The length header of an encoded `TypeIdentifierWithDependencies` gives the
/// number of bytes that follow it (modulo 2^32).
pub proof fn lemma_with_deps_length_header(v: SpecTypeIdentifierWithDependencies, e: Endianness)
    ensures
        ({
            let w = TypeIdentifierWithDependencies::spec_write(v, e);
            spec_read_u32(w, 0, e) == Ok::<(u32, int), ReadError>((((w.len() - 4) as nat) as u32, 4))
        }),
{
    reveal(spec_write_with_deps);
    let w = TypeIdentifierWithDependencies::spec_write(v, e);
    let content = with_deps_content(v, e);
    lemma_occurs_whole(w);
    lemma_occurs_split(w, 0, u32_to_bytes(content.len() as u32, e), content);
    lemma_u32_write_read(w, 0, content.len() as u32, e);
}

/// The length header of an encoded `TypeInformation` gives the number of
/// bytes that follow it (modulo 2^32).
pub proof fn lemma_type_information_length_header(v: SpecTypeInformation, e: Endianness)
    ensures
        ({
            let w = TypeInformation::spec_write(v, e);
            spec_read_u32(w, 0, e) == Ok::<(u32, int), ReadError>((((w.len() - 4) as nat) as u32, 4))
        }),
{
    let w = TypeInformation::spec_write(v, e);
    let body = type_information_body(v, e);
    lemma_occurs_whole(w);
    lemma_occurs_split(w, 0, u32_to_bytes(body.len() as u32, e), body);
    lemma_u32_write_read(w, 0, body.len() as u32, e);
}

// ---------------------------------------------------------------------------
// Member order

/// Reading the written complete member first records it and goes on after it.
proof fn lemma_complete_member_first(s: Seq<u8>, p: int, e: Endianness, v: SpecTypeIdentifierWithDependencies)
    requires
        TypeIdentifierWithDependencies::spec_lossless(v),
        occurs_at(s, p, member_bytes(TYPEID_WITH_DEPS_COMPLETE, v, e)),
    ensures
        spec_read_members(s, p, e, None, None) == spec_read_members(
            s,
            p + member_bytes(TYPEID_WITH_DEPS_COMPLETE, v, e).len(),
            e,
            None,
            Some(v),
        ),
{
    let w = TypeIdentifierWithDependencies::spec_write(v, e);
    lemma_member_header_write_read(s, p, e, TYPEID_WITH_DEPS_COMPLETE, w);
    TypeIdentifierWithDependencies::lemma_write_read(v, s, p + 8, e);
}

/// Reading the written minimal member after the complete one ends the members.
proof fn lemma_minimal_member_second(
    s: Seq<u8>,
    p: int,
    e: Endianness,
    c: SpecTypeIdentifierWithDependencies,
    v: SpecTypeIdentifierWithDependencies,
)
    requires
        TypeIdentifierWithDependencies::spec_lossless(v),
        occurs_at(s, p, member_bytes(TYPEID_WITH_DEPS_MINIMAL, v, e)),
    ensures
        spec_read_members(s, p, e, None, Some(c)) == Ok::<
            (
                Option<SpecTypeIdentifierWithDependencies>,
                Option<SpecTypeIdentifierWithDependencies>,
                int,
            ),
            ReadError,
        >((Some(v), Some(c), p + member_bytes(TYPEID_WITH_DEPS_MINIMAL, v, e).len())),
{
    let w = TypeIdentifierWithDependencies::spec_write(v, e);
    lemma_member_header_write_read(s, p, e, TYPEID_WITH_DEPS_MINIMAL, w);
    TypeIdentifierWithDependencies::lemma_write_read(v, s, p + 8, e);
}

/// The members of a type information may come in either order: a length
/// header, the complete member, then the minimal one, followed by anything,
/// reads as the same type information, ending after the minimal member.
#[verifier::rlimit(30)]
pub proof fn lemma_type_information_members_either_order(
    v: SpecTypeInformation,
    header: u32,
    rest: Seq<u8>,
    e: Endianness,
)
    requires
        TypeInformation::spec_lossless(v),
    ensures
        ({
            let cb = member_bytes(TYPEID_WITH_DEPS_COMPLETE, v.complete, e);
            let mb = member_bytes(TYPEID_WITH_DEPS_MINIMAL, v.minimal, e);
            let s = u32_to_bytes(header, e) + cb + mb + rest;
            TypeInformation::spec_read(s, 0, e) == Ok::<(SpecTypeInformation, int), ReadError>(
                (v, 4 + cb.len() + mb.len() as int),
            )
        }),
{
    let cb = member_bytes(TYPEID_WITH_DEPS_COMPLETE, v.complete, e);
    let mb = member_bytes(TYPEID_WITH_DEPS_MINIMAL, v.minimal, e);
    let h = u32_to_bytes(header, e);
    let s = h + cb + mb + rest;
    assert(s.subrange(0, (h + cb + mb).len() as int) =~= h + cb + mb);
    lemma_occurs_split(s, 0, h + cb, mb);
    lemma_occurs_split(s, 0, h, cb);
    lemma_u32_write_read(s, 0, header, e);
    lemma_complete_member_first(s, 4, e, v.complete);
    lemma_minimal_member_second(s, 4 + cb.len() as int, e, v.complete, v.minimal);
}

// ---------------------------------------------------------------------------
// Laws on the bytes of type identifiers

/// The encoding of a type identifier begins with its discriminant: the
/// primitive kind itself, `TI_STRING8_SMALL` and the other string and
/// collection discriminants, `EK_MINIMAL` for a minimal hash and
/// `EK_COMPLETE` for a complete one, `TI_STRONGLY_CONNECTED_COMPONENT`; and
/// the fields follow it in declaration order.
pub proof fn lemma_type_identifier_layout(v: SpecTypeIdentifier, e: Endianness)
    ensures
        ({
            let w = spec_write_type_identifier(v, e);
            &&& v matches SpecTypeIdentifier::Primitive(d) ==> w == seq![d]
            &&& v matches SpecTypeIdentifier::String8Small { bound } ==> w == seq![
                TI_STRING8_SMALL,
                bound,
            ]
            &&& v matches SpecTypeIdentifier::String16Small { bound } ==> w == seq![
                TI_STRING16_SMALL,
                bound,
            ]
            &&& v matches SpecTypeIdentifier::String8Large { bound } ==> w == seq![TI_STRING8_LARGE]
                + u32_to_bytes(bound, e)
            &&& v matches SpecTypeIdentifier::String16Large { bound } ==> w == seq![TI_STRING16_LARGE]
                + u32_to_bytes(bound, e)
            &&& v matches SpecTypeIdentifier::PlainSequenceSmall { header, bound, element_identifier }
                ==> w == seq![TI_PLAIN_SEQUENCE_SMALL, header.equiv_kind] + u16_to_bytes(
                header.element_flags,
                e,
            ) + seq![bound] + spec_write_type_identifier(*element_identifier, e)
            &&& v matches SpecTypeIdentifier::PlainArraySmall { header, bound, element_identifier }
                ==> w == seq![TI_PLAIN_ARRAY_SMALL, header.equiv_kind] + u16_to_bytes(
                header.element_flags,
                e,
            ) + seq![bound] + spec_write_type_identifier(*element_identifier, e)
            &&& v matches SpecTypeIdentifier::PlainSequenceLarge { header, bound, element_identifier }
                ==> w == seq![TI_PLAIN_SEQUENCE_LARGE, header.equiv_kind] + u16_to_bytes(
                header.element_flags,
                e,
            ) + u32_to_bytes(bound, e) + spec_write_type_identifier(*element_identifier, e)
            &&& v matches SpecTypeIdentifier::PlainArrayLarge { header, bound, element_identifier }
                ==> w == seq![TI_PLAIN_ARRAY_LARGE, header.equiv_kind] + u16_to_bytes(
                header.element_flags,
                e,
            ) + u32_to_bytes(bound, e) + spec_write_type_identifier(*element_identifier, e)
            &&& v matches SpecTypeIdentifier::MinimalHash(hash) ==> w == seq![EK_MINIMAL] + hash
            &&& v matches SpecTypeIdentifier::CompleteHash(hash) ==> w == seq![EK_COMPLETE] + hash
            &&& v matches SpecTypeIdentifier::StronglyConnectedComponent(scc) ==> w == seq![
                TI_STRONGLY_CONNECTED_COMPONENT,
            ] + scc.sc_component_id + i32_to_bytes(scc.scc_length, e) + i32_to_bytes(
                scc.scc_index,
                e,
            )
            &&& v is Extended ==> w == seq![TI_EXTENDED_WRITTEN]
        }),
{
    match v {
        SpecTypeIdentifier::PlainSequenceSmall { header, bound, element_identifier } => {
            assert(spec_write_type_identifier(v, e) =~= seq![TI_PLAIN_SEQUENCE_SMALL, header.equiv_kind]
                + u16_to_bytes(header.element_flags, e) + seq![bound] + spec_write_type_identifier(
                *element_identifier,
                e,
            ));
        },
        SpecTypeIdentifier::PlainArraySmall { header, bound, element_identifier } => {
            assert(spec_write_type_identifier(v, e) =~= seq![TI_PLAIN_ARRAY_SMALL, header.equiv_kind]
                + u16_to_bytes(header.element_flags, e) + seq![bound] + spec_write_type_identifier(
                *element_identifier,
                e,
            ));
        },
        SpecTypeIdentifier::PlainSequenceLarge { header, bound, element_identifier } => {
            assert(spec_write_type_identifier(v, e) =~= seq![TI_PLAIN_SEQUENCE_LARGE, header.equiv_kind]
                + u16_to_bytes(header.element_flags, e) + u32_to_bytes(bound, e)
                + spec_write_type_identifier(*element_identifier, e));
        },
        SpecTypeIdentifier::PlainArrayLarge { header, bound, element_identifier } => {
            assert(spec_write_type_identifier(v, e) =~= seq![TI_PLAIN_ARRAY_LARGE, header.equiv_kind]
                + u16_to_bytes(header.element_flags, e) + u32_to_bytes(bound, e)
                + spec_write_type_identifier(*element_identifier, e));
        },
        SpecTypeIdentifier::String8Small { bound } => {
            assert(spec_write_type_identifier(v, e) =~= seq![TI_STRING8_SMALL, bound]);
        },
        SpecTypeIdentifier::String16Small { bound } => {
            assert(spec_write_type_identifier(v, e) =~= seq![TI_STRING16_SMALL, bound]);
        },
        SpecTypeIdentifier::StronglyConnectedComponent(scc) => {
            assert(spec_write_type_identifier(v, e) =~= seq![TI_STRONGLY_CONNECTED_COMPONENT]
                + scc.sc_component_id + i32_to_bytes(scc.scc_length, e) + i32_to_bytes(
                scc.scc_index,
                e,
            ));
        },
        _ => {},
    }
}

/// The discriminant among the known ones (not a primitive kind) that `d` is.
pub open spec fn is_known_compound_discriminant(d: u8) -> bool {
    ||| d == TI_STRING8_SMALL
    ||| d == TI_STRING8_LARGE
    ||| d == TI_STRING16_SMALL
    ||| d == TI_STRING16_LARGE
    ||| d == TI_PLAIN_SEQUENCE_SMALL
    ||| d == TI_PLAIN_SEQUENCE_LARGE
    ||| d == TI_PLAIN_ARRAY_SMALL
    ||| d == TI_PLAIN_ARRAY_LARGE
    ||| d == EK_MINIMAL
    ||| d == EK_COMPLETE
    ||| d == TI_STRONGLY_CONNECTED_COMPONENT
}

/// What a read of a type identifier yields is decided by its first byte:
/// a primitive kind gives that primitive; `EK_MINIMAL` gives a minimal hash
/// and `EK_COMPLETE` a complete one, of the 14 bytes after it; each string
/// and collection discriminant gives its own variant, with the fields taken
/// from the bytes after it; any other byte gives `Extended`, which takes that
/// one byte.
#[verifier::rlimit(40)]
pub proof fn lemma_type_identifier_read_kind(s: Seq<u8>, p: int, e: Endianness)
    requires
        0 <= p,
    ensures
        spec_read_type_identifier(s, p, e) matches Ok((v, q)) ==> {
            &&& p < s.len()
            &&& v is Primitive <==> spec_is_primitive(s[p])
            &&& v matches SpecTypeIdentifier::Primitive(d) ==> d == s[p] && q == p + 1
            &&& v is String8Small <==> s[p] == TI_STRING8_SMALL
            &&& v is String16Small <==> s[p] == TI_STRING16_SMALL
            &&& v is String8Large <==> s[p] == TI_STRING8_LARGE
            &&& v is String16Large <==> s[p] == TI_STRING16_LARGE
            &&& v matches SpecTypeIdentifier::String8Small { bound } ==> bound == s[p + 1] && q == p
                + 2
            &&& v matches SpecTypeIdentifier::String16Small { bound } ==> bound == s[p + 1] && q == p
                + 2
            &&& v matches SpecTypeIdentifier::String8Large { bound } ==> bound == u32_from_bytes(
                s[p + 1],
                s[p + 2],
                s[p + 3],
                s[p + 4],
                e,
            ) && q == p + 5
            &&& v matches SpecTypeIdentifier::String16Large { bound } ==> bound == u32_from_bytes(
                s[p + 1],
                s[p + 2],
                s[p + 3],
                s[p + 4],
                e,
            ) && q == p + 5
            &&& v is PlainSequenceSmall <==> s[p] == TI_PLAIN_SEQUENCE_SMALL
            &&& v is PlainArraySmall <==> s[p] == TI_PLAIN_ARRAY_SMALL
            &&& v is PlainSequenceLarge <==> s[p] == TI_PLAIN_SEQUENCE_LARGE
            &&& v is PlainArrayLarge <==> s[p] == TI_PLAIN_ARRAY_LARGE
            &&& v is MinimalHash <==> s[p] == EK_MINIMAL
            &&& v is CompleteHash <==> s[p] == EK_COMPLETE
            &&& v matches SpecTypeIdentifier::MinimalHash(hash) ==> hash == s.subrange(p + 1, p + 15)
                && q == p + 15
            &&& v matches SpecTypeIdentifier::CompleteHash(hash) ==> hash == s.subrange(p + 1, p + 15)
                && q == p + 15
            &&& v is StronglyConnectedComponent <==> s[p] == TI_STRONGLY_CONNECTED_COMPONENT
            &&& v matches SpecTypeIdentifier::StronglyConnectedComponent(scc) ==> {
                &&& scc.sc_component_id == s.subrange(p + 1, p + 15)
                &&& scc.scc_length == i32_from_bytes(s[p + 15], s[p + 16], s[p + 17], s[p + 18], e)
                &&& scc.scc_index == i32_from_bytes(s[p + 19], s[p + 20], s[p + 21], s[p + 22], e)
                &&& q == p + 23
            }
            &&& v is Extended <==> !spec_is_primitive(s[p]) && !is_known_compound_discriminant(s[p])
            &&& v is Extended ==> q == p + 1
        },
        p + 15 <= s.len() && (s[p] == EK_MINIMAL || s[p] == EK_COMPLETE) ==> spec_read_type_identifier(
            s,
            p,
            e,
        ) is Ok,
        p < s.len() && spec_is_primitive(s[p]) ==> spec_read_type_identifier(s, p, e) == Ok::<
            (SpecTypeIdentifier, int),
            ReadError,
        >((SpecTypeIdentifier::Primitive(s[p]), p + 1)),
        p < s.len() && !spec_is_primitive(s[p]) && !is_known_compound_discriminant(s[p])
            ==> spec_read_type_identifier(s, p, e) == Ok::<(SpecTypeIdentifier, int), ReadError>(
            (SpecTypeIdentifier::Extended, p + 1),
        ),
        p >= s.len() ==> spec_read_type_identifier(s, p, e) == Err::<(SpecTypeIdentifier, int), ReadError>(
            ReadError::EndOfInput,
        ),
{
    reveal(spec_read_type_identifier);
}

/// How the element of a plain collection identifier is read: after the
/// discriminant, the header (equivalence kind, then element flags as a
/// `u16`), the bound (one byte for the small forms, a `u32` for the large
/// ones), then the element identifier, where the read ends.
#[verifier::rlimit(40)]
pub proof fn lemma_collection_identifier_read_fields(s: Seq<u8>, p: int, e: Endianness)
    requires
        0 <= p,
    ensures
        spec_read_type_identifier(s, p, e) matches Ok((v, q)) ==> {
            &&& (v matches SpecTypeIdentifier::PlainSequenceSmall { header, bound, element_identifier }
                ==> {
                &&& header.equiv_kind == s[p + 1]
                &&& header.element_flags == u16_from_bytes(s[p + 2], s[p + 3], e)
                &&& bound == s[p + 4]
                &&& spec_read_type_identifier(s, p + 5, e) == Ok::<(SpecTypeIdentifier, int), ReadError>(
                    (*element_identifier, q),
                )
            })
            &&& (v matches SpecTypeIdentifier::PlainArraySmall { header, bound, element_identifier }
                ==> {
                &&& header.equiv_kind == s[p + 1]
                &&& header.element_flags == u16_from_bytes(s[p + 2], s[p + 3], e)
                &&& bound == s[p + 4]
                &&& spec_read_type_identifier(s, p + 5, e) == Ok::<(SpecTypeIdentifier, int), ReadError>(
                    (*element_identifier, q),
                )
            })
            &&& (v matches SpecTypeIdentifier::PlainSequenceLarge { header, bound, element_identifier }
                ==> {
                &&& header.equiv_kind == s[p + 1]
                &&& header.element_flags == u16_from_bytes(s[p + 2], s[p + 3], e)
                &&& bound == u32_from_bytes(s[p + 4], s[p + 5], s[p + 6], s[p + 7], e)
                &&& spec_read_type_identifier(s, p + 8, e) == Ok::<(SpecTypeIdentifier, int), ReadError>(
                    (*element_identifier, q),
                )
            })
            &&& (v matches SpecTypeIdentifier::PlainArrayLarge { header, bound, element_identifier }
                ==> {
                &&& header.equiv_kind == s[p + 1]
                &&& header.element_flags == u16_from_bytes(s[p + 2], s[p + 3], e)
                &&& bound == u32_from_bytes(s[p + 4], s[p + 5], s[p + 6], s[p + 7], e)
                &&& spec_read_type_identifier(s, p + 8, e) == Ok::<(SpecTypeIdentifier, int), ReadError>(
                    (*element_identifier, q),
                )
            })
        },
{
    reveal(spec_read_type_identifier);
}

// ---------------------------------------------------------------------------
// Laws on the bytes of the other identifier types

/// A collection header is written as its equivalence kind, then its element
/// flags as a `u16`; reading one takes those three bytes.
pub proof fn lemma_collection_header_layout(v: PlainCollectionHeader, s: Seq<u8>, p: int, e: Endianness)
    requires
        0 <= p,
    ensures
        PlainCollectionHeader::spec_write(v, e) == seq![v.equiv_kind] + u16_to_bytes(v.element_flags, e),
        PlainCollectionHeader::spec_read(s, p, e) matches Ok((h, q)) ==> {
            &&& h.equiv_kind == s[p]
            &&& h.element_flags == u16_from_bytes(s[p + 1], s[p + 2], e)
            &&& q == p + 3
        },
{
}

/// A strongly connected component id is written as its 14-byte hash, its
/// length and its index as `i32`s; reading one takes those 22 bytes.
pub proof fn lemma_scc_id_layout(v: SpecStronglyConnectedComponentId, s: Seq<u8>, p: int, e: Endianness)
    requires
        0 <= p,
    ensures
        StronglyConnectedComponentId::spec_write(v, e) == v.sc_component_id + i32_to_bytes(
            v.scc_length,
            e,
        ) + i32_to_bytes(v.scc_index, e),
        StronglyConnectedComponentId::spec_read(s, p, e) matches Ok((c, q)) ==> {
            &&& c.sc_component_id == s.subrange(p, p + 14)
            &&& c.scc_length == i32_from_bytes(s[p + 14], s[p + 15], s[p + 16], s[p + 17], e)
            &&& c.scc_index == i32_from_bytes(s[p + 18], s[p + 19], s[p + 20], s[p + 21], e)
            &&& q == p + 22
        },
{
}

/// An identifier with size is written as its length header, the identifier,
/// then the size as a `u32`.
pub proof fn lemma_with_size_layout(v: SpecTypeIdentifierWithSize, e: Endianness)
    ensures
        ({
            let w = TypeIdentifierWithSize::spec_write(v, e);
            let t = spec_write_type_identifier(v.type_id, e);
            &&& w.len() == 4 + t.len() + 4
            &&& w.subrange(4, 4 + t.len() as int) == t
            &&& w.subrange(4 + t.len() as int, w.len() as int) == u32_to_bytes(v.typeobject_serialized_size, e)
        }),
{
    let w = TypeIdentifierWithSize::spec_write(v, e);
    let t = spec_write_type_identifier(v.type_id, e);
    let content = with_size_content(v, e);
    assert(w =~= u32_to_bytes(content.len() as u32, e) + t + u32_to_bytes(
        v.typeobject_serialized_size,
        e,
    ));
    lemma_occurs_whole(w);
    lemma_occurs_split(
        w,
        0,
        u32_to_bytes(content.len() as u32, e) + t,
        u32_to_bytes(v.typeobject_serialized_size, e),
    );
    lemma_occurs_split(w, 0, u32_to_bytes(content.len() as u32, e), t);
}

/// What a read of an identifier with size yields: whatever its four header
/// bytes hold, the identifier read after them and the `u32` that follows
/// the identifier, where the read ends.
pub proof fn lemma_with_size_read_fields(s: Seq<u8>, p: int, e: Endianness)
    requires
        0 <= p,
    ensures
        TypeIdentifierWithSize::spec_read(s, p, e) matches Ok((v, q)) ==> {
            &&& p + 4 <= s.len()
            &&& spec_read_type_identifier(s, p + 4, e) matches Ok((t, r))
            &&& t == v.type_id
            &&& r + 4 <= s.len()
            &&& v.typeobject_serialized_size == u32_from_bytes(s[r], s[r + 1], s[r + 2], s[r + 3], e)
            &&& q == r + 4
        },
{
}

/// An identifier with dependencies is written as its length header, the
/// identifier with size, the number of dependencies as an `i32`, then the
/// dependencies.
pub proof fn lemma_with_deps_layout(v: SpecTypeIdentifierWithDependencies, e: Endianness)
    ensures
        ({
            let w = TypeIdentifierWithDependencies::spec_write(v, e);
            let t = TypeIdentifierWithSize::spec_write(v.typeid_with_size, e);
            let d = spec_write_seq::<TypeIdentifierWithSize>(v.dependent_typeids, e);
            &&& w.len() == 4 + t.len() + 4 + d.len()
            &&& w.subrange(4, 4 + t.len() as int) == t
            &&& w.subrange(4 + t.len() as int, 8 + t.len() as int) == i32_to_bytes(v.dependent_typeids.len() as i32, e)
            &&& w.subrange(8 + t.len() as int, w.len() as int) == d
        }),
{
    reveal(spec_write_with_deps);
    let w = TypeIdentifierWithDependencies::spec_write(v, e);
    let t = TypeIdentifierWithSize::spec_write(v.typeid_with_size, e);
    let c = i32_to_bytes(v.dependent_typeids.len() as i32, e);
    let d = spec_write_seq::<TypeIdentifierWithSize>(v.dependent_typeids, e);
    let h = u32_to_bytes(with_deps_content(v, e).len() as u32, e);
    assert(w =~= h + t + c + d);
    lemma_occurs_whole(w);
    lemma_occurs_split(w, 0, h + t + c, d);
    lemma_occurs_split(w, 0, h + t, c);
    lemma_occurs_split(w, 0, h, t);
}

/// What a read of an identifier with dependencies yields: whatever its four
/// header bytes hold, the identifier with size read after them, then an
/// `i32` count, then that many dependencies, or none when the count is
/// negative.
pub proof fn lemma_with_deps_read_fields(s: Seq<u8>, p: int, e: Endianness)
    requires
        0 <= p,
    ensures
        TypeIdentifierWithDependencies::spec_read(s, p, e) matches Ok((v, q)) ==> {
            &&& p + 4 <= s.len()
            &&& TypeIdentifierWithSize::spec_read(s, p + 4, e) matches Ok((t, r))
            &&& t == v.typeid_with_size
            &&& r + 4 <= s.len()
            &&& ({
                let count = i32_from_bytes(s[r], s[r + 1], s[r + 2], s[r + 3], e);
                if count >= 0 {
                    spec_read_seq::<TypeIdentifierWithSize>(s, r + 4, count as nat, e) == Ok::<
                        (Seq<SpecTypeIdentifierWithSize>, int),
                        ReadError,
                    >((v.dependent_typeids, q)) && v.dependent_typeids.len() == count
                } else {
                    v.dependent_typeids.len() == 0 && q == r + 4
                }
            })
        },
{
    reveal(spec_read_with_deps);
    if let Ok((_, r)) = TypeIdentifierWithSize::spec_read(s, p + 4, e) {
        if r + 4 <= s.len() {
            let count = i32_from_bytes(s[r], s[r + 1], s[r + 2], s[r + 3], e);
            if count >= 0 {
                lemma_read_seq_len::<TypeIdentifierWithSize>(s, r + 4, count as nat, e);
            }
        }
    }
}

/// A type information is written as its length header, then the member
/// header `0x0001_0014` (member 0x1001, length code 4), the size of the
/// minimal identifier and its encoding, then the member header `0x0001_0024`
/// (member 0x1002), the size of the complete one and its encoding.
#[verifier::rlimit(30)]
pub proof fn lemma_type_information_layout(v: SpecTypeInformation, e: Endianness)
    ensures
        ({
            let w = TypeInformation::spec_write(v, e);
            let m = TypeIdentifierWithDependencies::spec_write(v.minimal, e);
            let c = TypeIdentifierWithDependencies::spec_write(v.complete, e);
            &&& w.len() == 12 + m.len() + 8 + c.len()
            &&& w.subrange(4, 8) == u32_to_bytes(0x0001_0014, e)
            &&& w.subrange(8, 12) == u32_to_bytes(m.len() as u32, e)
            &&& w.subrange(12, 12 + m.len() as int) == m
            &&& w.subrange(12 + m.len() as int, 16 + m.len() as int) == u32_to_bytes(0x0001_0024, e)
            &&& w.subrange(16 + m.len() as int, 20 + m.len() as int) == u32_to_bytes(c.len() as u32, e)
            &&& w.subrange(20 + m.len() as int, w.len() as int) == c
        }),
{
    let w = TypeInformation::spec_write(v, e);
    let m = TypeIdentifierWithDependencies::spec_write(v.minimal, e);
    let c = TypeIdentifierWithDependencies::spec_write(v.complete, e);
    let body = type_information_body(v, e);
    let h = u32_to_bytes(body.len() as u32, e);
    let hm = u32_to_bytes(member_header(TYPEID_WITH_DEPS_MINIMAL, 4), e);
    let sm = u32_to_bytes(m.len() as u32, e);
    let hc = u32_to_bytes(member_header(TYPEID_WITH_DEPS_COMPLETE, 4), e);
    let sc = u32_to_bytes(c.len() as u32, e);
    let mb = member_bytes(TYPEID_WITH_DEPS_MINIMAL, v.minimal, e);
    let cb = member_bytes(TYPEID_WITH_DEPS_COMPLETE, v.complete, e);
    assert(member_header(TYPEID_WITH_DEPS_MINIMAL, 4) == 0x0001_0014);
    assert(member_header(TYPEID_WITH_DEPS_COMPLETE, 4) == 0x0001_0024);
    assert(w == h + mb + cb);
    lemma_occurs_whole(w);
    lemma_occurs_split(w, 0, h + mb, cb);
    lemma_occurs_split(w, 0, h, mb);
    lemma_occurs_split(w, 4, hm + sm, m);
    lemma_occurs_split(w, 4, hm, sm);
    lemma_occurs_split(w, 4 + mb.len() as int, hc + sc, c);
    lemma_occurs_split(w, 4 + mb.len() as int, hc, sc);
}

/// Reading the members of a type information skips a member whose id is
/// neither of the two known ones: with length code 0, 1, 2 or 3 it takes 1,
/// 2, 4 or 8 bytes after its header, with a larger code the number of bytes
/// that the `u32` after its header gives; where fewer than four bytes are
/// left, reading stops there with what was found.
pub proof fn lemma_unknown_member_skipped(
    s: Seq<u8>,
    p: int,
    e: Endianness,
    minimal: Option<SpecTypeIdentifierWithDependencies>,
    complete: Option<SpecTypeIdentifierWithDependencies>,
)
    requires
        0 <= p,
        !(minimal is Some && complete is Some),
    ensures
        p + 4 > s.len() ==> spec_read_members(s, p, e, minimal, complete) == Ok::<
            (
                Option<SpecTypeIdentifierWithDependencies>,
                Option<SpecTypeIdentifierWithDependencies>,
                int,
            ),
            ReadError,
        >((minimal, complete, p)),
        p + 4 <= s.len() ==> ({
            let header = u32_from_bytes(s[p], s[p + 1], s[p + 2], s[p + 3], e);
            let id = header / 16;
            let lc = header % 8;
            let end = if lc == 0 {
                p + 4 + 1
            } else if lc == 1 {
                p + 4 + 2
            } else if lc == 2 {
                p + 4 + 4
            } else if lc == 3 {
                p + 4 + 8
            } else {
                p + 8 + u32_from_bytes(s[p + 4], s[p + 5], s[p + 6], s[p + 7], e)
            };
            (id != TYPEID_WITH_DEPS_MINIMAL && id != TYPEID_WITH_DEPS_COMPLETE && (lc < 4 || p + 8
                <= s.len()) && end <= s.len()) ==> spec_read_members(s, p, e, minimal, complete)
                == spec_read_members(s, end, e, minimal, complete)
        }),
{
}

} // verus!
