//! The container: header, geometry record and payload as one run of bytes.
//!
//! Reading goes in the order that lets a file be told apart before any
//! version-specific field is read: the header, then the version gate, then
//! the record of that version, then the payload as that version bounds it.

use crate::buffer::{bytes_as_slice, bytes_contents, bytes_from_vec};
use crate::error::Error;
use crate::header::Header;
use crate::information::{
    lemma_information_v1_round_trip, lemma_parse_reads_a_prefix, Information, InformationV1,
};
use crate::wire::u32_from_le;
use bytes::Bytes;
use vstd::prelude::*;
use vstd::slice::{slice_subrange, slice_to_vec};

verus! {

/// The record and the payload that `data` holds, or why it holds none.
///
/// - `MalformedHeader`: fewer than five bytes, or other magic;
/// - `Unsupported`: a version above `Header::VERSION`, whatever follows;
/// - `MalformedHeader`: too few bytes for the version's record, or an
///   unknown flag in it;
/// - `MalformedBody`: too few bytes for the payload that the file declares.
pub open spec fn parse_container(data: Seq<u8>) -> Result<(Information, Seq<u8>), Error> {
    if !Header::accepts(data) {
        Err(Error::MalformedHeader)
    } else if data[4] > Header::VERSION {
        Err(Error::Unsupported)
    } else {
        match Information::parse(data[4], data.skip(5)) {
            Err(e) => Err(e),
            Ok(info) => match info.payload_of(data.skip(5 + info.size())) {
                Err(e) => Err(e),
                Ok(payload) => Ok((info, payload)),
            },
        }
    }
}

/// The file that the current version makes of a record and a payload: the
/// header, the record, the payload.
pub open spec fn container_of(info: InformationV1, payload: Seq<u8>) -> Seq<u8> {
    Header::magic_bytes().push(Header::VERSION) + info.wire() + payload
}

/// Copies `bytes` into a buffer of its own.
fn copy_to_bytes(bytes: &[u8]) -> (out: Bytes)
    ensures
        bytes_contents(out) == bytes@,
{
    bytes_from_vec(slice_to_vec(bytes))
}

/// Takes a file apart into its record and its payload.
pub fn split_container(data: &[u8]) -> (r: Result<(Information, &[u8]), Error>)
    ensures
        match r {
            Ok((info, payload)) => parse_container(data@) == Ok::<(Information, Seq<u8>), Error>(
                (info, payload@),
            ),
            Err(e) => parse_container(data@) == Err::<(Information, Seq<u8>), Error>(e),
        },
{
    if data.len() < Header::SIZE {
        return Err(Error::MalformedHeader);
    }
    let head = slice_subrange(data, 0, Header::SIZE);
    assert(head@.subrange(0, 4) =~= data@.subrange(0, 4));
    let header = match Header::from_bytes(copy_to_bytes(head)) {
        Ok(header) => header,
        Err(e) => {
            return Err(e);
        },
    };
    assert(header.version == data@[4]) by {
        assert(header.wire()[4] == head@.subrange(0, 5)[4]);
    }
    if !header.is_supported() {
        return Err(Error::Unsupported);
    }
    let rest = slice_subrange(data, Header::SIZE, data.len());
    assert(rest@ =~= data@.skip(5));
    // No record is longer than that of version 1.
    let reach: usize = if rest.len() < InformationV1::SIZE {
        rest.len()
    } else {
        InformationV1::SIZE
    };
    let record = slice_subrange(rest, 0, reach);
    proof {
        lemma_parse_reads_a_prefix(header.version, rest@, reach as int);
    }
    let info = match Information::from_bytes(header.version, copy_to_bytes(record)) {
        Ok(info) => info,
        Err(e) => {
            return Err(e);
        },
    };
    let body = slice_subrange(rest, info.size(), rest.len());
    assert(body@ =~= data@.skip(5 + info.size()));
    match info.payload(body) {
        Ok(payload) => Ok((info, payload)),
        Err(e) => Err(e),
    }
}

/// Puts a file together from a record and a payload, in the current
/// version's layout.
pub fn build_container(info: &InformationV1, payload: &[u8]) -> (out: Bytes)
    ensures
        bytes_contents(out) == container_of(*info, payload@),
{
    let header = Header::default().to_bytes();
    let record = info.to_bytes();
    let mut bytes: Vec<u8> = Vec::new();
    bytes.extend_from_slice(bytes_as_slice(&header));
    bytes.extend_from_slice(bytes_as_slice(&record));
    bytes.extend_from_slice(payload);
    assert(bytes@ =~= container_of(*info, payload@));
    bytes_from_vec(bytes)
}

/// A file that `build_container` makes of a record with flags that the
/// format defines is taken apart again into that record and that payload.
pub proof fn lemma_container_round_trip(info: InformationV1, payload: Seq<u8>)
    requires
        info.flags.is_known(),
    ensures
        container_of(info, payload).len() == 17 + payload.len(),
        parse_container(container_of(info, payload)) == Ok::<(Information, Seq<u8>), Error>(
            (Information::V1(info), payload),
        ),
{
    let file = container_of(info, payload);
    lemma_information_v1_round_trip(info);
    assert(file.subrange(0, 4) =~= Header::magic_bytes());
    assert(file[4] == Header::VERSION);
    assert(file.skip(5) =~= info.wire() + payload);
    let record = file.skip(5);
    assert(record.subrange(0, 4) =~= info.wire().subrange(0, 4));
    assert(record.subrange(4, 8) =~= info.wire().subrange(4, 8));
    assert(record.subrange(8, 12) =~= info.wire().subrange(8, 12));
    assert(InformationV1::parse(record) == InformationV1::parse(info.wire()));
    assert(file.skip(17) =~= payload);
}

/// Input that is shorter than the header, or that starts with other bytes
/// than the magic, holds no container: `MalformedHeader`. So does input
/// with a known version that ends before that version's record does.
pub proof fn lemma_header_rejection(data: Seq<u8>)
    ensures
        data.len() < 5 ==> parse_container(data) is Err && parse_container(data)->Err_0
            is MalformedHeader,
        data.len() >= 4 && data.subrange(0, 4) != Header::magic_bytes() ==> parse_container(data)
            is Err && parse_container(data)->Err_0 is MalformedHeader,
        Header::accepts(data) && data[4] == 0 && data.len() < 13 ==> parse_container(data) is Err
            && parse_container(data)->Err_0 is MalformedHeader,
        Header::accepts(data) && data[4] == 1 && data.len() < 17 ==> parse_container(data) is Err
            && parse_container(data)->Err_0 is MalformedHeader,
{
}

/// After a well-formed header, `Unsupported` is the answer exactly where
/// the version byte is above `Header::VERSION`: one above is refused
/// whatever follows, and neither version 0 nor the current one ever is.
pub proof fn lemma_version_gating(data: Seq<u8>)
    requires
        Header::accepts(data),
    ensures
        data[4] > Header::VERSION <==> parse_container(data) is Err && parse_container(
            data,
        )->Err_0 is Unsupported,
{
}

/// A version 0 file that declares a payload longer than the bytes that
/// follow the length field holds no container: `MalformedBody`.
pub proof fn lemma_truncated_body(data: Seq<u8>)
    requires
        Header::accepts(data),
        data[4] == 0,
        data.len() >= 17,
        u32_from_le(data.subrange(13, 17)) > data.len() - 17,
    ensures
        parse_container(data) is Err,
        parse_container(data)->Err_0 is MalformedBody,
{
    let body = data.skip(13);
    assert(body.subrange(0, 4) =~= data.subrange(13, 17));
}

} // verus!
