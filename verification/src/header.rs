//! The five-byte header that every file starts with, the channel layout, and
//! the flag word that encodes the layout on the wire.

use crate::buffer::{bytes_as_slice, bytes_contents, bytes_from_vec};
use crate::error::Error;
use bytes::Bytes;
use vstd::prelude::*;

verus! {

/// The bytes of one pixel.
#[derive(Clone, Copy, Debug, PartialEq, Eq, Structural)]
pub enum Channels {
    /// Red, green, blue: three bytes.
    RGB,
    /// Red, green, blue, alpha: four bytes.
    RGBA,
}

impl Channels {
    /// How many bytes one pixel takes.
    pub open spec fn pixel_size(self) -> nat {
        match self {
            Channels::RGB => 3,
            Channels::RGBA => 4,
        }
    }

    /// How many bytes one pixel takes.
    pub fn bytes_per_pixel(&self) -> (n: u8)
        ensures
            n == self.pixel_size(),
    {
        match self {
            Channels::RGB => 3,
            Channels::RGBA => 4,
        }
    }
}

/// The option bits of a version 1 geometry record.
#[derive(Clone, Copy, Debug, PartialEq, Eq, Structural)]
pub struct Flags {
    pub bits: u32,
}

impl Flags {
    /// The bit that marks a fourth, alpha byte in every pixel.
    pub const ALPHA: u32 = 1;

    /// Whether every bit that is set is one that the format defines.
    pub open spec fn is_known(self) -> bool {
        self.bits & !Self::ALPHA == 0
    }

    /// Whether the alpha bit is set.
    pub open spec fn has_alpha(self) -> bool {
        self.bits & Self::ALPHA != 0
    }

    /// The flag set with no bit set.
    pub fn empty() -> (flags: Flags)
        ensures
            flags.bits == 0,
    {
        Flags { bits: 0 }
    }

    /// The flag set that holds the alpha bit alone.
    pub fn alpha() -> (flags: Flags)
        ensures
            flags.bits == Self::ALPHA,
    {
        Flags { bits: Self::ALPHA }
    }

    /// The raw bits.
    pub fn bits(&self) -> (bits: u32)
        ensures
            bits == self.bits,
    {
        self.bits
    }

    /// The flag set with exactly these bits, known to the format or not.
    pub fn from_bits_retain(bits: u32) -> (flags: Flags)
        ensures
            flags.bits == bits,
    {
        Flags { bits }
    }

    /// The flag set with these bits, or `None` where a bit is set that the
    /// format does not define.
    pub fn from_bits(bits: u32) -> (r: Option<Flags>)
        ensures
            r == if (Flags { bits }).is_known() {
                Some(Flags { bits })
            } else {
                None
            },
    {
        if bits & !Self::ALPHA == 0 {
            Some(Flags { bits })
        } else {
            None
        }
    }

    /// Whether every bit of `other` is set in `self`.
    pub fn contains(&self, other: Flags) -> (r: bool)
        ensures
            r == (self.bits & other.bits == other.bits),
    {
        self.bits & other.bits == other.bits
    }

    /// The flag set that encodes a channel layout.
    pub fn from_channels(channels: Channels) -> (flags: Flags)
        ensures
            flags == Self::of_channels(channels),
    {
        match channels {
            Channels::RGB => Flags::empty(),
            Channels::RGBA => Flags::alpha(),
        }
    }

    /// The flag set that encodes a channel layout.
    pub open spec fn of_channels(channels: Channels) -> Flags {
        match channels {
            Channels::RGB => Flags { bits: 0 },
            Channels::RGBA => Flags { bits: Self::ALPHA },
        }
    }

    /// The channel layout that the flags encode: four bytes with the alpha
    /// bit, three without.
    pub open spec fn layout(self) -> Channels {
        if self.has_alpha() {
            Channels::RGBA
        } else {
            Channels::RGB
        }
    }

    /// The channel layout that the flags encode.
    pub fn channels(&self) -> (channels: Channels)
        ensures
            channels == self.layout(),
    {
        if self.bits & Self::ALPHA != 0 {
            Channels::RGBA
        } else {
            Channels::RGB
        }
    }
}

/// The flags of a channel layout are known to the format and encode that
/// layout and no other.
pub proof fn lemma_flags_of_channels(channels: Channels)
    ensures
        Flags::of_channels(channels).is_known(),
        Flags::of_channels(channels).layout() == channels,
{
    assert(0u32 & !1u32 == 0) by (bit_vector);
    assert(1u32 & !1u32 == 0) by (bit_vector);
    assert(0u32 & 1u32 == 0) by (bit_vector);
    assert(1u32 & 1u32 != 0) by (bit_vector);
}

/// The fixed start of every file: the magic and the format version.
#[derive(Debug)]
pub struct Header {
    pub magic: [u8; 4],
    pub version: u8,
}

impl Header {
    /// The ASCII letters `BOOP`.
    pub const MAGIC: [u8; 4] = [0x42, 0x4f, 0x4f, 0x50];

    /// The highest format version that this implementation reads, and the
    /// one that it writes.
    pub const VERSION: u8 = 1;

    /// The length of a serialised header.
    pub const SIZE: usize = 5;

    /// The magic as a byte sequence.
    pub open spec fn magic_bytes() -> Seq<u8> {
        seq![0x42u8, 0x4fu8, 0x4fu8, 0x50u8]
    }

    /// The serialised form: the magic, then the version byte.
    pub open spec fn wire(self) -> Seq<u8> {
        self.magic@.push(self.version)
    }

    /// Whether `b` starts with a well-formed header.
    pub open spec fn accepts(b: Seq<u8>) -> bool {
        b.len() >= 5 && b.subrange(0, 4) == Self::magic_bytes()
    }

    /// Whether the magic is the format's.
    pub fn is_valid(&self) -> (r: bool)
        ensures
            r == (self.magic@ == Self::magic_bytes()),
    {
        let r = self.magic[0] == Self::MAGIC[0] && self.magic[1] == Self::MAGIC[1] && self.magic[2]
            == Self::MAGIC[2] && self.magic[3] == Self::MAGIC[3];
        proof {
            if r {
                assert(self.magic@ =~= Self::magic_bytes());
            }
        }
        r
    }

    /// Whether this implementation can read the header's version.
    pub fn is_supported(&self) -> (r: bool)
        ensures
            r == (self.version <= Self::VERSION),
    {
        self.version <= Self::VERSION
    }

    /// Serialises the header: its magic, then its version byte.
    pub fn to_bytes(&self) -> (out: Bytes)
        ensures
            bytes_contents(out) == self.wire(),
            bytes_contents(out).len() == Self::SIZE,
    {
        let mut bytes: Vec<u8> = Vec::with_capacity(Self::SIZE);
        bytes.push(self.magic[0]);
        bytes.push(self.magic[1]);
        bytes.push(self.magic[2]);
        bytes.push(self.magic[3]);
        bytes.push(self.version);
        assert(bytes@ =~= self.wire());
        bytes_from_vec(bytes)
    }

    /// Reads a header from the first five bytes of `src`.
    ///
    /// Fails with `MalformedHeader` when `src` is shorter than that or does
    /// not start with the magic. The version is not judged here.
    pub fn from_bytes(src: Bytes) -> (r: Result<Header, Error>)
        ensures
            match r {
                Ok(header) => Self::accepts(bytes_contents(src)) && header.wire() == bytes_contents(
                    src,
                ).subrange(0, 5),
                Err(e) => e is MalformedHeader && !Self::accepts(bytes_contents(src)),
            },
    {
        let bytes = bytes_as_slice(&src);
        if bytes.len() < Self::SIZE {
            return Err(Error::MalformedHeader);
        }
        let header = Header { magic: [bytes[0], bytes[1], bytes[2], bytes[3]], version: bytes[4] };
        assert(header.magic@ =~= bytes@.subrange(0, 4));
        if !header.is_valid() {
            return Err(Error::MalformedHeader);
        }
        assert(header.wire() =~= bytes@.subrange(0, 5));
        Ok(header)
    }
}

impl Default for Header {
    /// The header of a file that this implementation writes.
    fn default() -> (header: Header)
        ensures
            header.magic@ == Header::magic_bytes(),
            header.version == Header::VERSION,
    {
        let header = Header { magic: Self::MAGIC, version: Self::VERSION };
        assert(header.magic@ =~= Header::magic_bytes());
        header
    }
}

/// A header with the format's magic reads back from its serialised form
/// unchanged: its bytes are accepted, and a header that serialises to the
/// same five bytes is the same header.
pub proof fn lemma_header_round_trip(header: Header, parsed: Header)
    requires
        header.magic@ == Header::magic_bytes(),
        parsed.wire() == header.wire().subrange(0, 5),
    ensures
        Header::accepts(header.wire()),
        parsed == header,
{
    assert(header.wire().subrange(0, 4) =~= header.magic@);
    assert(header.wire().subrange(0, 5) =~= header.wire());
    assert(parsed.version == header.version) by {
        assert(parsed.wire()[4] == header.wire()[4]);
    }
    assert forall|i: int| 0 <= i < 4 implies parsed.magic[i] == header.magic[i] by {
        assert(parsed.wire()[i] == header.wire()[i]);
    }
    assert(parsed.magic =~= header.magic);
}

} // verus!
