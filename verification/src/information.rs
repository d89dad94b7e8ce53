//! The geometry records: one layout for each format version, and the sum of
//! them that the decoder dispatches on.

use crate::buffer::{bytes_as_slice, bytes_contents, bytes_from_vec};
use crate::error::Error;
use crate::header::{Channels, Flags};
use crate::wire::{lemma_u32_le_round_trip, push_u32_le, read_u32_le, u32_from_le, u32_le_bytes};
use bytes::Bytes;
use vstd::prelude::*;
use vstd::slice::slice_subrange;

verus! {

/// The geometry record of format version 1: a flag word, the width and the
/// height, each a little-endian `u32`. The payload takes the rest of the
/// file.
#[derive(Clone, Copy, Debug, PartialEq, Eq, Structural)]
pub struct InformationV1 {
    pub flags: Flags,
    pub width: u32,
    pub height: u32,
}

impl InformationV1 {
    /// The length of a serialised record.
    pub const SIZE: usize = 12;

    pub fn new(flags: Flags, width: u32, height: u32) -> (info: InformationV1)
        ensures
            info == (InformationV1 { flags, width, height }),
    {
        Self { flags, width, height }
    }

    /// The serialised form: flags, width, height.
    pub open spec fn wire(self) -> Seq<u8> {
        u32_le_bytes(self.flags.bits) + u32_le_bytes(self.width) + u32_le_bytes(self.height)
    }

    /// What the first twelve bytes of `b` hold: `MalformedHeader` where
    /// there are fewer, or where the flag word has a bit that the format
    /// does not define.
    pub open spec fn parse(b: Seq<u8>) -> Result<InformationV1, Error> {
        let flags = Flags { bits: u32_from_le(b.subrange(0, 4)) };
        if b.len() < 12 || !flags.is_known() {
            Err(Error::MalformedHeader)
        } else {
            Ok(
                InformationV1 {
                    flags,
                    width: u32_from_le(b.subrange(4, 8)),
                    height: u32_from_le(b.subrange(8, 12)),
                },
            )
        }
    }

    /// Serialises the record.
    pub fn to_bytes(&self) -> (out: Bytes)
        ensures
            bytes_contents(out) == self.wire(),
            bytes_contents(out).len() == Self::SIZE,
    {
        let mut bytes: Vec<u8> = Vec::with_capacity(Self::SIZE);
        push_u32_le(&mut bytes, self.flags.bits());
        push_u32_le(&mut bytes, self.width);
        push_u32_le(&mut bytes, self.height);
        bytes_from_vec(bytes)
    }

    /// Reads a record from the first twelve bytes of `src`.
    pub fn from_bytes(src: Bytes) -> (r: Result<InformationV1, Error>)
        ensures
            r == Self::parse(bytes_contents(src)),
    {
        let bytes = bytes_as_slice(&src);
        if bytes.len() < Self::SIZE {
            return Err(Error::MalformedHeader);
        }
        match Flags::from_bits(read_u32_le(bytes, 0)) {
            None => Err(Error::MalformedHeader),
            Some(flags) => {
                let width: u32 = read_u32_le(bytes, 4);
                let height: u32 = read_u32_le(bytes, 8);
                Ok(Self { flags, width, height })
            },
        }
    }
}

/// The geometry record of format version 0: the width and the height, each
/// a little-endian `u32`. Pixels are RGB, and the payload that follows is
/// preceded by its length.
#[derive(Clone, Copy, Debug, PartialEq, Eq, Structural)]
pub struct InformationV0 {
    pub width: u32,
    pub height: u32,
}

impl InformationV0 {
    /// The length of a serialised record.
    pub const SIZE: usize = 8;

    pub fn new(width: u32, height: u32) -> (info: InformationV0)
        ensures
            info == (InformationV0 { width, height }),
    {
        Self { width, height }
    }

    /// The serialised form: width, height.
    pub open spec fn wire(self) -> Seq<u8> {
        u32_le_bytes(self.width) + u32_le_bytes(self.height)
    }

    /// What the first eight bytes of `b` hold: `MalformedHeader` where
    /// there are fewer.
    pub open spec fn parse(b: Seq<u8>) -> Result<InformationV0, Error> {
        if b.len() < 8 {
            Err(Error::MalformedHeader)
        } else {
            Ok(
                InformationV0 {
                    width: u32_from_le(b.subrange(0, 4)),
                    height: u32_from_le(b.subrange(4, 8)),
                },
            )
        }
    }

    /// Serialises the record.
    pub fn to_bytes(&self) -> (out: Bytes)
        ensures
            bytes_contents(out) == self.wire(),
            bytes_contents(out).len() == Self::SIZE,
    {
        let mut bytes: Vec<u8> = Vec::with_capacity(Self::SIZE);
        push_u32_le(&mut bytes, self.width);
        push_u32_le(&mut bytes, self.height);
        bytes_from_vec(bytes)
    }

    /// Reads a record from the first eight bytes of `src`.
    pub fn from_bytes(src: Bytes) -> (r: Result<InformationV0, Error>)
        ensures
            r == Self::parse(bytes_contents(src)),
    {
        let bytes = bytes_as_slice(&src);
        if bytes.len() < Self::SIZE {
            return Err(Error::MalformedHeader);
        }
        let width: u32 = read_u32_le(bytes, 0);
        let height: u32 = read_u32_le(bytes, 4);
        Ok(Self { width, height })
    }
}

/// The geometry record of a file, by format version. Each variant holds the
/// fields that its version defines and nothing else.
#[derive(Clone, Copy, Debug, PartialEq, Eq, Structural)]
pub enum Information {
    V0(InformationV0),
    V1(InformationV1),
}

impl Information {
    /// The length of the field that, in version 0, gives the payload's length.
    pub const LENGTH_FIELD: usize = 4;

    /// The format version that the record belongs to.
    pub open spec fn spec_version(&self) -> u8 {
        match self {
            Information::V0(_) => 0,
            Information::V1(_) => 1,
        }
    }

    /// The length of the serialised record.
    pub open spec fn spec_size(&self) -> usize {
        match self {
            Information::V0(_) => 8,
            Information::V1(_) => 12,
        }
    }

    pub open spec fn spec_width(&self) -> u32 {
        match self {
            Information::V0(info) => info.width,
            Information::V1(info) => info.width,
        }
    }

    pub open spec fn spec_height(&self) -> u32 {
        match self {
            Information::V0(info) => info.height,
            Information::V1(info) => info.height,
        }
    }

    /// The channel layout: RGB in version 0, which has no field for it, and
    /// what the flags say in version 1.
    pub open spec fn spec_channels(&self) -> Channels {
        match self {
            Information::V0(_) => Channels::RGB,
            Information::V1(info) => info.flags.layout(),
        }
    }

    /// The serialised form of the record.
    pub open spec fn wire(&self) -> Seq<u8> {
        match self {
            Information::V0(info) => info.wire(),
            Information::V1(info) => info.wire(),
        }
    }

    /// The record that `b` starts with, read as version `version` lays it
    /// out: `Unsupported` for a version that this implementation does not
    /// know, whatever the bytes; else what that version's record gives.
    pub open spec fn parse(version: u8, b: Seq<u8>) -> Result<Information, Error> {
        if version == 0 {
            match InformationV0::parse(b) {
                Ok(info) => Ok(Information::V0(info)),
                Err(e) => Err(e),
            }
        } else if version == 1 {
            match InformationV1::parse(b) {
                Ok(info) => Ok(Information::V1(info)),
                Err(e) => Err(e),
            }
        } else {
            Err(Error::Unsupported)
        }
    }

    /// The payload within `body`, the bytes that follow the record.
    ///
    /// Version 0 bounds the payload: `body` starts with the payload's length
    /// as a little-endian `u32`, and the payload is that many bytes after
    /// it; `MalformedBody` where `body` is too short for the length field or
    /// for the length it declares. Version 1 does not: the payload is all of
    /// `body`.
    pub open spec fn payload_of(&self, body: Seq<u8>) -> Result<Seq<u8>, Error> {
        match self {
            Information::V0(_) => {
                let declared = u32_from_le(body.subrange(0, 4));
                if body.len() < 4 || body.len() - 4 < declared {
                    Err(Error::MalformedBody)
                } else {
                    Ok(body.subrange(4, 4 + declared))
                }
            },
            Information::V1(_) => Ok(body),
        }
    }

    #[verifier::when_used_as_spec(spec_version)]
    pub fn version(&self) -> (version: u8)
        ensures
            version == self.spec_version(),
    {
        match self {
            Information::V0(_) => 0,
            Information::V1(_) => 1,
        }
    }

    #[verifier::when_used_as_spec(spec_size)]
    pub fn size(&self) -> (size: usize)
        ensures
            size == self.spec_size(),
    {
        match self {
            Information::V0(_) => InformationV0::SIZE,
            Information::V1(_) => InformationV1::SIZE,
        }
    }

    #[verifier::when_used_as_spec(spec_width)]
    pub fn width(&self) -> (width: u32)
        ensures
            width == self.spec_width(),
    {
        match self {
            Information::V0(info) => info.width,
            Information::V1(info) => info.width,
        }
    }

    #[verifier::when_used_as_spec(spec_height)]
    pub fn height(&self) -> (height: u32)
        ensures
            height == self.spec_height(),
    {
        match self {
            Information::V0(info) => info.height,
            Information::V1(info) => info.height,
        }
    }

    #[verifier::when_used_as_spec(spec_channels)]
    pub fn channels(&self) -> (channels: Channels)
        ensures
            channels == self.spec_channels(),
    {
        match self {
            Information::V0(_) => Channels::RGB,
            Information::V1(info) => info.flags.channels(),
        }
    }

    /// Serialises the record as its version lays it out.
    pub fn to_bytes(&self) -> (out: Bytes)
        ensures
            bytes_contents(out) == self.wire(),
            bytes_contents(out).len() == self.size(),
    {
        match self {
            Information::V0(info) => info.to_bytes(),
            Information::V1(info) => info.to_bytes(),
        }
    }

    /// Reads the record that `src` starts with, as version `version` lays it
    /// out. No byte of `src` is looked at for a version that this
    /// implementation does not know.
    pub fn from_bytes(version: u8, src: Bytes) -> (r: Result<Information, Error>)
        ensures
            r == Self::parse(version, bytes_contents(src)),
    {
        if version == 0 {
            match InformationV0::from_bytes(src) {
                Ok(info) => Ok(Information::V0(info)),
                Err(e) => Err(e),
            }
        } else if version == 1 {
            match InformationV1::from_bytes(src) {
                Ok(info) => Ok(Information::V1(info)),
                Err(e) => Err(e),
            }
        } else {
            Err(Error::Unsupported)
        }
    }

    /// Finds the payload within `body`, the bytes that follow the record.
    pub fn payload<'a>(&self, body: &'a [u8]) -> (r: Result<&'a [u8], Error>)
        ensures
            match r {
                Ok(payload) => self.payload_of(body@) == Ok::<Seq<u8>, Error>(payload@),
                Err(e) => self.payload_of(body@) == Err::<Seq<u8>, Error>(e),
            },
    {
        match self {
            Information::V0(_) => {
                if body.len() < Self::LENGTH_FIELD {
                    return Err(Error::MalformedBody);
                }
                let declared: u32 = read_u32_le(body, 0);
                if body.len() - Self::LENGTH_FIELD < declared as usize {
                    return Err(Error::MalformedBody);
                }
                Ok(slice_subrange(body, Self::LENGTH_FIELD, Self::LENGTH_FIELD + declared as usize))
            },
            Information::V1(_) => Ok(body),
        }
    }
}

/// A record is read from the first twelve bytes at most: what follows them
/// does not change what is read.
pub proof fn lemma_parse_reads_a_prefix(version: u8, b: Seq<u8>, n: int)
    requires
        n == b.len() || 12 <= n <= b.len(),
    ensures
        Information::parse(version, b.subrange(0, n)) == Information::parse(version, b),
{
    let head = b.subrange(0, n);
    if n == b.len() {
        assert(head =~= b);
    } else {
        assert(head.subrange(0, 4) =~= b.subrange(0, 4));
        assert(head.subrange(4, 8) =~= b.subrange(4, 8));
        assert(head.subrange(8, 12) =~= b.subrange(8, 12));
    }
}

/// A version 1 record whose flags the format defines reads back from its
/// serialised form unchanged.
pub proof fn lemma_information_v1_round_trip(info: InformationV1)
    requires
        info.flags.is_known(),
    ensures
        info.wire().len() == 12,
        InformationV1::parse(info.wire()) == Ok::<InformationV1, Error>(info),
{
    let w = info.wire();
    lemma_u32_le_round_trip(info.flags.bits);
    lemma_u32_le_round_trip(info.width);
    lemma_u32_le_round_trip(info.height);
    assert(w.subrange(0, 4) =~= u32_le_bytes(info.flags.bits));
    assert(w.subrange(4, 8) =~= u32_le_bytes(info.width));
    assert(w.subrange(8, 12) =~= u32_le_bytes(info.height));
}

/// A version 0 record reads back from its serialised form unchanged.
pub proof fn lemma_information_v0_round_trip(info: InformationV0)
    ensures
        info.wire().len() == 8,
        InformationV0::parse(info.wire()) == Ok::<InformationV0, Error>(info),
{
    let w = info.wire();
    lemma_u32_le_round_trip(info.width);
    lemma_u32_le_round_trip(info.height);
    assert(w.subrange(0, 4) =~= u32_le_bytes(info.width));
    assert(w.subrange(4, 8) =~= u32_le_bytes(info.height));
}

} // verus!
