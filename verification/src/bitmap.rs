//! Sets of row positions, held in `roaring::RoaringTreemap` bitmaps, and their framed
//! serialization: four magic bytes followed by the portable 64-bit Roaring format.

use bytes::Bytes;
use roaring::RoaringTreemap;
use vstd::prelude::*;

use crate::buffer::{byte_buffer, byte_slice, contents};
use crate::error::{generic, DeltaResult, Error, ErrorModel};

verus! {

/// The bitmap type of the `roaring` crate: a set of `u64` values.
#[verifier::external_type_specification]
#[verifier::external_body]
pub struct ExRoaringTreemap(RoaringTreemap);

/// The values that a bitmap holds.
pub uninterp spec fn positions(map: RoaringTreemap) -> Set<u64>;

/// The values that a serialized bitmap stands for, or why `roaring` refuses to read the bytes.
pub uninterp spec fn decoded_positions(bytes: Seq<u8>) -> Result<Set<u64>, Seq<char>>;

/// Calls `RoaringTreemap::new`: a bitmap that holds nothing.
#[verifier::external_body]
pub(crate) fn empty_bitmap() -> (map: RoaringTreemap)
    ensures
        positions(map) == Set::<u64>::empty(),
{
    RoaringTreemap::new()
}

/// Calls `RoaringTreemap::insert`: the value is in the bitmap afterwards, every other
/// value stays in or out as it was.
#[verifier::external_body]
pub(crate) fn insert_position(map: &mut RoaringTreemap, position: u64)
    ensures
        positions(*final(map)) == positions(*old(map)).insert(position),
{
    map.insert(position);
}

/// Applies `|=` of `RoaringTreemap` with a borrowed right-hand side: the union of the
/// two sets.
#[verifier::external_body]
pub(crate) fn union_positions(map: &mut RoaringTreemap, other: &RoaringTreemap)
    ensures
        positions(*final(map)) == positions(*old(map)).union(positions(*other)),
{
    *map |= other;
}

/// Calls `RoaringTreemap::len`: the number of values in the set. The one set whose number of
/// values is no `u64`, that of all of them, is a bitmap for each of 2^32 high halves with 2^16
/// containers each, which no memory holds.
#[verifier::external_body]
pub(crate) fn count_positions(map: &RoaringTreemap) -> (count: u64)
    ensures
        count == positions(*map).len(),
{
    map.len()
}

/// Calls `RoaringTreemap::is_empty`.
#[verifier::external_body]
pub(crate) fn has_no_positions(map: &RoaringTreemap) -> (empty: bool)
    ensures
        empty == (positions(*map) == Set::<u64>::empty()),
{
    map.is_empty()
}

/// Calls `RoaringTreemap::max`: the largest value of the set, `None` for the empty set.
#[verifier::external_body]
pub(crate) fn largest_position(map: &RoaringTreemap) -> (max: Option<u64>)
    ensures
        match max {
            Some(m) => positions(*map).contains(m) && forall|p: u64| #[trigger]
                positions(*map).contains(p) ==> p <= m,
            None => positions(*map) == Set::<u64>::empty(),
        },
{
    map.max()
}

/// Calls the `Clone` impl of `RoaringTreemap`: a bitmap that holds the same values.
#[verifier::external_body]
pub(crate) fn clone_bitmap(map: &RoaringTreemap) -> (copy: RoaringTreemap)
    ensures
        positions(copy) == positions(*map),
{
    map.clone()
}

/// Calls `RoaringTreemap::serialize_into` with a `Vec<u8>`. It fails only where the writer
/// does, and a vector takes whatever is written to it. What was written stands behind what
/// the vector held before, and `deserialize_from` reads it back as the same set. Nothing is
/// said of the written bytes themselves.
#[verifier::external_body]
pub(crate) fn write_bitmap(map: &RoaringTreemap, out: &mut Vec<u8>) -> (written: Result<(), ()>)
    ensures
        written is Ok,
        final(out)@.len() >= old(out)@.len(),
        final(out)@.take(old(out)@.len() as int) == old(out)@,
        decoded_positions(final(out)@.skip(old(out)@.len() as int)) is Ok,
        decoded_positions(final(out)@.skip(old(out)@.len() as int))->Ok_0 == positions(*map),
{
    map.serialize_into(out).map_err(|_| ())
}

/// Calls `RoaringTreemap::deserialize_from`: which values the bytes stand for, whether they
/// can be read, and the text of the error, depend on the bytes alone.
#[verifier::external_body]
pub(crate) fn read_bitmap(bytes: &[u8]) -> (map: Result<RoaringTreemap, String>)
    ensures
        match map {
            Ok(m) => decoded_positions(bytes@) == Ok::<Set<u64>, Seq<char>>(positions(m)),
            Err(e) => decoded_positions(bytes@) == Err::<Set<u64>, Seq<char>>(e@),
        },
{
    RoaringTreemap::deserialize_from(bytes).map_err(|error| error.to_string())
}

/// The big-endian bytes of `n`.
pub open spec fn big_endian(n: u32) -> Seq<u8> {
    seq![
        (n as int / 0x1000000) as u8,
        (n as int / 0x10000 % 0x100) as u8,
        (n as int / 0x100 % 0x100) as u8,
        (n as int % 0x100) as u8,
    ]
}

/// The magic bytes of the portable format.
pub open spec fn magic_bytes() -> Seq<u8> {
    big_endian(1681511377)
}

/// The set that a framed bitmap stands for: the four leading bytes are skipped, whatever
/// they are.
pub open spec fn framed_positions(frame: Seq<u8>) -> Option<Set<u64>> {
    if frame.len() < 4 {
        None
    } else {
        match decoded_positions(frame.skip(4)) {
            Ok(set) => Some(set),
            Err(_) => None,
        }
    }
}

/// Whether `frame` is a framed serialization of `set`.
pub open spec fn frames(frame: Seq<u8>, set: Set<u64>) -> bool {
    &&& frame.len() >= 4
    &&& frame.take(4) == magic_bytes()
    &&& framed_positions(frame) == Some(set)
}

/// The error for a frame that is too short to hold the magic bytes.
pub open spec fn frame_too_short() -> ErrorModel {
    generic("Invalid manifest DV: bytes too small (less than 4 bytes)"@)
}

/// The error for a frame whose bitmap cannot be read.
pub open spec fn frame_unreadable(cause: Seq<char>) -> ErrorModel {
    generic("Failed to deserialize deletion vector bitmap: "@ + cause)
}

/// The error for a frame that stands for no set.
pub open spec fn frame_error(frame: Seq<u8>) -> ErrorModel {
    if frame.len() < 4 {
        frame_too_short()
    } else {
        frame_unreadable(decoded_positions(frame.skip(4))->Err_0)
    }
}

/// Serializes a bitmap with the magic number in front.
pub fn serialize_roaring_treemap(treemap: &RoaringTreemap) -> (frame: DeltaResult<Bytes>)
    ensures
        frame matches Ok(f) && frames(contents(f), positions(*treemap)),
{
    let mut serialized: Vec<u8> = Vec::new();
    serialized.push(0x64);
    serialized.push(0x39);
    serialized.push(0xd3);
    serialized.push(0xd1);
    assert(serialized@ =~= magic_bytes());
    if write_bitmap(treemap, &mut serialized).is_err() {
        return Err(
            Error::generic("Failed to serialize deletion vector bitmap".to_owned()),
        );
    }
    Ok(byte_buffer(serialized))
}

/// Reads a bitmap that stands behind a magic number.
pub fn deserialize_roaring_treemap(bytes: &Bytes) -> (treemap: DeltaResult<RoaringTreemap>)
    ensures
        match treemap {
            Ok(map) => framed_positions(contents(*bytes)) == Some(positions(map)),
            Err(e) => framed_positions(contents(*bytes)) is None && e@ == frame_error(
                contents(*bytes),
            ),
        },
{
    let slice = byte_slice(bytes);
    if slice.len() < 4 {
        return Err(
            Error::generic("Invalid manifest DV: bytes too small (less than 4 bytes)".to_owned()),
        );
    }
    let rest = vstd::slice::slice_subrange(slice, 4, slice.len());
    assert(rest@ =~= contents(*bytes).skip(4));
    match read_bitmap(rest) {
        Ok(map) => Ok(map),
        Err(cause) => {
            let mut message = "Failed to deserialize deletion vector bitmap: ".to_owned();
            message.append(cause.as_str());
            Err(Error::generic(message))
        },
    }
}

} // verus!
