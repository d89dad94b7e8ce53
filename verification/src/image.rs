//! The raster image and the codec's two entry points, `encode` and `decode`.

use crate::buffer::{bytes_as_slice, bytes_contents, bytes_from_vec};
use crate::compression::{compress, decompress, zstd_decoded};
use crate::container::{
    build_container, container_of, lemma_container_round_trip, lemma_truncated_body,
    lemma_version_gating, parse_container, split_container,
};
use crate::delta::{delta_forward, delta_inverse, lemma_delta_inverse_of_forward, running_sum};
use crate::error::Error;
use crate::header::{lemma_flags_of_channels, Channels, Flags, Header};
use crate::information::{Information, InformationV1};
use crate::wire::u32_from_le;
use bytes::Bytes;
use vstd::prelude::*;

verus! {

/// What a `BoopImage` holds.
pub struct ImageView {
    pub width: u32,
    pub height: u32,
    pub channels: Channels,
    pub data: Seq<u8>,
}

impl ImageView {
    /// How many bytes the pixels of the declared geometry take.
    pub open spec fn pixel_bytes(self) -> nat {
        (self.width as nat) * (self.height as nat) * self.channels.pixel_size()
    }

    /// Whether the buffer is exactly as long as the geometry asks: width
    /// times height times the bytes of a pixel. An image with no pixels has
    /// an empty buffer.
    pub open spec fn well_formed(self) -> bool {
        self.data.len() == self.pixel_bytes()
    }

    /// The record that a file of the current version holds for this image.
    pub open spec fn information(self) -> InformationV1 {
        InformationV1 {
            flags: Flags::of_channels(self.channels),
            width: self.width,
            height: self.height,
        }
    }
}

/// A raster image: its geometry, and its pixels as raw bytes, row by row,
/// neither filtered nor compressed.
#[derive(Debug)]
pub struct BoopImage {
    width: u32,
    height: u32,
    channels: Channels,
    data: Vec<u8>,
}

impl View for BoopImage {
    type V = ImageView;

    closed spec fn view(&self) -> ImageView {
        ImageView {
            width: self.width,
            height: self.height,
            channels: self.channels,
            data: self.data@,
        }
    }
}

/// The image that a record and the filtered pixel bytes give: the bytes
/// after the inverse filter, under the record's geometry; `MalformedBody`
/// where they are not as many as that geometry asks.
pub open spec fn restore(info: Information, filtered: Seq<u8>) -> Result<ImageView, Error> {
    let image = ImageView {
        width: info.width(),
        height: info.height(),
        channels: info.channels(),
        data: delta_inverse(filtered),
    };
    if image.well_formed() {
        Ok(image)
    } else {
        Err(Error::MalformedBody)
    }
}

/// Whether `r` is an outcome that encoding `image` may have: a file of the
/// current version whose payload decompresses to the filtered pixel bytes,
/// or a failure of the compression backend.
pub open spec fn encode_outcome(image: ImageView, r: Result<Bytes, Error>) -> bool {
    match r {
        Ok(out) => {
            let file = bytes_contents(out);
            &&& file.len() >= 17
            &&& file == container_of(image.information(), file.skip(17))
            &&& zstd_decoded(file.skip(17)) == Some(delta_forward(image.data))
        },
        Err(e) => e is Io,
    }
}

/// Whether `r` is an outcome that decoding `data` may have.
///
/// Where `data` holds no record and payload, `r` is the error that says
/// why. Where it does, the backend decides whether the payload
/// decompresses: `r` is then the image restored from what it gave, or
/// `MalformedBody` where that does not fit the geometry, or the backend's
/// failure.
pub open spec fn decode_outcome(data: Seq<u8>, r: Result<BoopImage, Error>) -> bool {
    match parse_container(data) {
        Err(e) => r matches Err(f) && f == e,
        Ok((info, payload)) => match r {
            Ok(image) => restored_as(info, payload, Ok(image@)),
            Err(Error::Io(_)) => true,
            Err(Error::MalformedBody) => restored_as(info, payload, Err(Error::MalformedBody)),
            Err(_) => false,
        },
    }
}

/// Whether `payload` decompresses, and the image restored from what it
/// decompresses to under `info` is `image`.
pub open spec fn restored_as(
    info: Information,
    payload: Seq<u8>,
    image: Result<ImageView, Error>,
) -> bool {
    match zstd_decoded(payload) {
        Some(filtered) => restore(info, filtered) == image,
        None => false,
    }
}

impl BoopImage {
    /// An image of RGB pixels.
    pub fn new(width: u32, height: u32, data: Vec<u8>) -> (image: BoopImage)
        ensures
            image@ == (ImageView { width, height, channels: Channels::RGB, data: data@ }),
    {
        Self { width, height, channels: Channels::RGB, data }
    }

    /// An image of pixels in the given channel layout.
    pub fn with_channels(width: u32, height: u32, channels: Channels, data: Vec<u8>) -> (image:
        BoopImage)
        ensures
            image@ == (ImageView { width, height, channels, data: data@ }),
    {
        Self { width, height, channels, data }
    }

    pub fn height(&self) -> (height: u32)
        ensures
            height == self@.height,
    {
        self.height
    }

    pub fn width(&self) -> (width: u32)
        ensures
            width == self@.width,
    {
        self.width
    }

    pub fn dimensions(&self) -> (dimensions: (u32, u32))
        ensures
            dimensions == (self@.width, self@.height),
    {
        (self.width, self.height)
    }

    pub fn channels(&self) -> (channels: Channels)
        ensures
            channels == self@.channels,
    {
        self.channels
    }

    /// The pixel bytes.
    pub fn as_raw(&self) -> (raw: &[u8])
        ensures
            raw@ == self@.data,
    {
        self.data.as_slice()
    }

    /// The pixel bytes, the image given up for them.
    pub fn into_raw(self) -> (raw: Vec<u8>)
        ensures
            raw@ == self@.data,
    {
        self.data
    }

    /// Whether the buffer is as long as the geometry asks.
    pub fn is_well_formed(&self) -> (r: bool)
        ensures
            r == self@.well_formed(),
    {
        let width: u64 = self.width as u64;
        let height: u64 = self.height as u64;
        let size: u128 = self.channels.bytes_per_pixel() as u128;
        assert(width * height <= 0xffff_ffff * 0xffff_ffff) by (nonlinear_arith)
            requires
                width <= 0xffff_ffff,
                height <= 0xffff_ffff,
        ;
        let pixels: u128 = (width * height) as u128;
        assert(pixels * size <= 0xffff_ffff * 0xffff_ffff * 4) by (nonlinear_arith)
            requires
                pixels <= 0xffff_ffff * 0xffff_ffff,
                size <= 4,
        ;
        self.data.len() as u128 == pixels * size
    }

    /// Applies the delta filter to the pixel bytes.
    pub fn delta_encode(&self) -> (encoded: Bytes)
        ensures
            bytes_contents(encoded) == delta_forward(self@.data),
    {
        let len: usize = self.data.len();
        let mut encoded: Vec<u8> = Vec::with_capacity(len);
        if len > 0 {
            // The first byte is the reference point and stays as it is.
            encoded.push(self.data[0]);
            let mut i: usize = 1;
            while i < len
                invariant
                    1 <= i <= len,
                    len == self.data@.len(),
                    encoded@ == delta_forward(self.data@).subrange(0, i as int),
                decreases len - i,
            {
                encoded.push(self.data[i].wrapping_sub(self.data[i - 1]));
                i = i + 1;
            }
        }
        assert(encoded@ =~= delta_forward(self.data@));
        bytes_from_vec(encoded)
    }

    /// Undoes the delta filter.
    pub fn delta_decode(data: &[u8]) -> (decoded: Vec<u8>)
        ensures
            decoded@ == delta_inverse(data@),
    {
        let len: usize = data.len();
        let mut decoded: Vec<u8> = Vec::with_capacity(len);
        if len > 0 {
            // The first byte was stored as it is.
            decoded.push(data[0]);
            let mut prev: u8 = data[0];
            let mut i: usize = 1;
            while i < len
                invariant
                    1 <= i <= len,
                    len == data@.len(),
                    prev == running_sum(data@, i - 1),
                    decoded@ == delta_inverse(data@).subrange(0, i as int),
                decreases len - i,
            {
                let current: u8 = prev.wrapping_add(data[i]);
                decoded.push(current);
                prev = current;
                i = i + 1;
            }
        }
        assert(decoded@ =~= delta_inverse(data@));
        decoded
    }

    /// Makes an image of a record and the filtered pixel bytes that the
    /// payload decompressed to. Fails with `MalformedBody` where the bytes
    /// are not as many as the record's geometry asks.
    pub fn from_filtered(info: &Information, filtered: &[u8]) -> (r: Result<BoopImage, Error>)
        ensures
            match r {
                Ok(image) => restore(*info, filtered@) == Ok::<ImageView, Error>(image@),
                Err(e) => e is MalformedBody && restore(*info, filtered@) is Err,
            },
    {
        let image = Self {
            width: info.width(),
            height: info.height(),
            channels: info.channels(),
            data: Self::delta_decode(filtered),
        };
        if image.is_well_formed() {
            Ok(image)
        } else {
            Err(Error::MalformedBody)
        }
    }

    /// Encodes the image as a file of the current version: the pixel bytes
    /// go through the delta filter and the compressor, and the header and
    /// the geometry record are put in front. The only failure is one of the
    /// compression backend.
    pub fn encode(&self) -> (r: Result<Bytes, Error>)
        ensures
            encode_outcome(self@, r),
    {
        let filtered = self.delta_encode();
        let compressed = match compress(bytes_as_slice(&filtered)) {
            Ok(compressed) => compressed,
            Err(e) => {
                return Err(e);
            },
        };
        let info = InformationV1::new(Flags::from_channels(self.channels), self.width, self.height);
        let out = build_container(&info, compressed.as_slice());
        proof {
            let file = bytes_contents(out);
            assert(info.wire().len() == 12);
            assert(file.skip(17) =~= compressed@);
        }
        Ok(out)
    }

    /// Decodes a file.
    ///
    /// The header is read first: input shorter than it, or with other magic,
    /// fails with `MalformedHeader`. Then the version is judged: one above
    /// `Header::VERSION` fails with `Unsupported`, and no field after it is
    /// read. Then the version's record is read (`MalformedHeader` where the
    /// input ends before it does, or a flag is unknown) and the payload is
    /// found (`MalformedBody` where a declared length runs past the end).
    /// The payload is decompressed, which fails with `Io` as the backend
    /// says; the inverse filter is applied, and the bytes must be as many
    /// as the geometry asks, else `MalformedBody`.
    pub fn decode(data: &[u8]) -> (r: Result<BoopImage, Error>)
        ensures
            decode_outcome(data@, r),
            !Header::accepts(data@) ==> r is Err && r->Err_0 is MalformedHeader,
            Header::accepts(data@) ==> (data@[4] > Header::VERSION <==> r is Err && r->Err_0
                is Unsupported),
            Header::accepts(data@) && ((data@[4] == 0 && data@.len() < 13) || (data@[4] == 1
                && data@.len() < 17)) ==> r is Err && r->Err_0 is MalformedHeader,
            Header::accepts(data@) && data@[4] == 0 && data@.len() >= 17 && u32_from_le(
                data@.subrange(13, 17),
            ) > data@.len() - 17 ==> r is Err && r->Err_0 is MalformedBody,
            r matches Ok(image) ==> image@.well_formed(),
    {
        proof {
            if Header::accepts(data@) {
                lemma_version_gating(data@);
                if data@[4] == 0 && data@.len() >= 17 && u32_from_le(data@.subrange(13, 17))
                    > data@.len() - 17 {
                    lemma_truncated_body(data@);
                }
            }
        }
        let (info, payload) = match split_container(data) {
            Ok(parts) => parts,
            Err(e) => {
                return Err(e);
            },
        };
        let filtered = match decompress(payload) {
            Ok(filtered) => filtered,
            Err(e) => {
                return Err(e);
            },
        };
        Self::from_filtered(&info, filtered.as_slice())
    }
}

/// Decoding what `encode` made of a well-formed image gives that image
/// back: the same width, height, channel layout and pixel bytes. The one
/// other outcome is a failure that the compression backend reports.
pub proof fn lemma_decode_inverts_encode(
    image: ImageView,
    encoded: Result<Bytes, Error>,
    decoded: Result<BoopImage, Error>,
)
    requires
        image.well_formed(),
        encode_outcome(image, encoded),
        encoded is Ok,
        decode_outcome(bytes_contents(encoded->Ok_0), decoded),
    ensures
        decoded matches Ok(restored) ==> restored@ == image,
        decoded matches Err(e) ==> e is Io,
{
    let file = bytes_contents(encoded->Ok_0);
    let info = image.information();
    let payload = file.skip(17);
    lemma_flags_of_channels(image.channels);
    lemma_container_round_trip(info, payload);
    lemma_delta_inverse_of_forward(image.data);
    assert(restore(Information::V1(info), delta_forward(image.data)) == Ok::<ImageView, Error>(
        image,
    ));
}

} // verus!
