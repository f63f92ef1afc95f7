//! CBOR trees as bytes: how a tree is written, and how one is read.
//!
//! A tree is written in the shortest form: every head takes the fewest
//! bytes that hold its number, and arrays, maps and strings are written
//! with their length up front. Both ways go through `cbored`: its writer
//! gives the bytes of every head and string, its reader takes them apart.

use crate::cbor::{Cbor, CborCodec, Undecodable};
use crate::cbor_helper::{boundary, cbor_buf_validate, readable_len, readable_prefix};
use crate::cbor_helper::{CborBoundary, CborBufValidate};
use vstd::prelude::*;
use vstd::utf8::encode_utf8;

verus! {

/// The `count` low bytes of `value`, highest first.
pub open spec fn be_bytes(value: nat, count: nat) -> Seq<u8>
    decreases count,
{
    if count == 0 {
        Seq::empty()
    } else {
        be_bytes(value / 256, (count - 1) as nat).push((value % 256) as u8)
    }
}

/// The head of an item of major type `major` with the number `value`, in
/// the fewest bytes that hold the number.
pub open spec fn head(major: u8, value: nat) -> Seq<u8> {
    let top = major * 32;
    if value < 24 {
        seq![(top + value) as u8]
    } else if value < 0x100 {
        seq![(top + 24) as u8, value as u8]
    } else if value < 0x1_0000 {
        seq![(top + 25) as u8] + be_bytes(value, 2)
    } else if value < 0x1_0000_0000 {
        seq![(top + 26) as u8] + be_bytes(value, 4)
    } else {
        seq![(top + 27) as u8] + be_bytes(value, 8)
    }
}

/// The bits of a floating-point number, as wide as it was written.
#[derive(Clone, Copy, Debug, PartialEq, Eq, Structural)]
pub enum FloatBits {
    /// 16 bits.
    Half(u16),
    /// 32 bits.
    Single(u32),
    /// 64 bits.
    Double(u64),
}

/// The bits of a floating-point number of `bits` bits that are the low bits
/// of `v`: 16 or 32 bits where `bits` says so, else 64.
pub open spec fn float_bits(bits: u8, v: u64) -> FloatBits {
    if bits == 16 {
        FloatBits::Half((v % 0x1_0000) as u16)
    } else if bits == 32 {
        FloatBits::Single((v % 0x1_0000_0000) as u32)
    } else {
        FloatBits::Double(v)
    }
}

/// The bytes of a floating-point number: the lead byte that says how wide
/// it is, then its bits, highest byte first.
pub open spec fn float_bytes(bits: FloatBits) -> Seq<u8> {
    match bits {
        FloatBits::Half(v) => seq![0xf9u8] + be_bytes(v as nat, 2),
        FloatBits::Single(v) => seq![0xfau8] + be_bytes(v as nat, 4),
        FloatBits::Double(v) => seq![0xfbu8] + be_bytes(v as nat, 8),
    }
}

/// The bytes of the simple value `v`.
pub open spec fn simple_bytes(v: u8) -> Seq<u8> {
    if v < 24 {
        seq![(0xe0 + v) as u8]
    } else {
        seq![0xf8u8, v]
    }
}

/// The bytes of the first `count` of `items`, one item after the other.
pub open spec fn items_bytes(items: Vec<Cbor>, count: nat) -> Seq<u8>
    decreases items, count,
{
    if count == 0 || count > items@.len() {
        Seq::empty()
    } else {
        items_bytes(items, (count - 1) as nat) + bytes_of(items@[count - 1])
    }
}

/// The bytes of the first `count` of `entries`, one after the other, each
/// as its key and then its value.
pub open spec fn entries_bytes(entries: Vec<(Cbor, Cbor)>, count: nat) -> Seq<u8>
    decreases entries, count,
{
    if count == 0 || count > entries@.len() {
        Seq::empty()
    } else {
        entries_bytes(entries, (count - 1) as nat) + bytes_of(entries@[count - 1].0) + bytes_of(
            entries@[count - 1].1,
        )
    }
}

/// The bytes that `tree` is written as.
///
/// Integers, lengths and tags take the shortest head. A simple value below
/// 24 is written in its lead byte, any other in the byte that follows; the
/// simple values 20 to 23 are the two booleans, null and undefined. A
/// floating-point number is written with its bits, in 2 bytes where it has
/// 16 bits, in 4 where it has 32, else in 8.
pub open spec fn bytes_of(tree: Cbor) -> Seq<u8>
    decreases tree, 0nat,
{
    match tree {
        Cbor::Positive(v) => head(0, v as nat),
        Cbor::Negative(v) => head(1, v as nat),
        Cbor::Bytes(data) => head(2, data@.len()) + data@,
        Cbor::Text(text) => head(3, encode_utf8(text@).len()) + encode_utf8(text@),
        Cbor::Array(items) => head(4, items@.len()) + items_bytes(items, items@.len()),
        Cbor::Entries(entries) => head(5, entries@.len()) + entries_bytes(
            entries,
            entries@.len(),
        ),
        Cbor::Tag(tag, inner) => head(6, tag as nat) + bytes_of(*inner),
        Cbor::Bool(b) => if b {
            seq![0xf5u8]
        } else {
            seq![0xf4u8]
        },
        Cbor::Null => seq![0xf6u8],
        Cbor::Undefined => seq![0xf7u8],
        Cbor::Byte(v) => simple_bytes(v),
        Cbor::Float(bits, v) => float_bytes(float_bits(bits, v)),
    }
}

/// The head of an unsigned integer, from `cbored`.
///
/// Calls `Writer::positive` with `Positive::canonical(value)` on a new
/// writer, and `Writer::finalize`. The writer puts the major type in the
/// three high bits of the lead byte and the number in the fewest bytes that
/// hold it, highest first.
#[verifier::external_body]
fn cbored_positive(value: u64) -> (bytes: Vec<u8>)
    ensures
        bytes@ == head(0, value as nat),
{
    let mut writer = cbored::Writer::new();
    writer.positive(cbored::Positive::canonical(value));
    writer.finalize()
}

/// The head of the negative integer minus one minus `value`, from `cbored`.
///
/// Calls `Writer::negative` with `Negative::canonical(value)` on a new
/// writer, and `Writer::finalize`.
#[verifier::external_body]
fn cbored_negative(value: u64) -> (bytes: Vec<u8>)
    ensures
        bytes@ == head(1, value as nat),
{
    let mut writer = cbored::Writer::new();
    writer.negative(cbored::Negative::canonical(value));
    writer.finalize()
}

/// The byte string `data` of definite length, from `cbored`.
///
/// Calls `Writer::bytes` with `Bytes::from_slice(data)` on a new writer, and
/// `Writer::finalize`: the head with the length, then the bytes.
#[verifier::external_body]
fn cbored_byte_string(data: &[u8]) -> (bytes: Vec<u8>)
    ensures
        bytes@ == head(2, data@.len()) + data@,
{
    let mut writer = cbored::Writer::new();
    writer.bytes(&cbored::Bytes::from_slice(data));
    writer.finalize()
}

/// The text string `text` of definite length, from `cbored`.
///
/// Calls `Writer::text` with `Text::from_str(text)` on a new writer, and
/// `Writer::finalize`: the head with the number of bytes, then the bytes of
/// the text, which are its characters in UTF-8.
#[verifier::external_body]
fn cbored_text_string(text: &str) -> (bytes: Vec<u8>)
    ensures
        bytes@ == head(3, encode_utf8(text@).len()) + encode_utf8(text@),
{
    let mut writer = cbored::Writer::new();
    writer.text(&cbored::Text::from_str(text));
    writer.finalize()
}

/// The head of an array of `count` items, from `cbored`.
///
/// Calls `Writer::array_build` with `StructureLength::from(count)` and
/// nothing to write within, on a new writer, and `Writer::finalize`. For a
/// definite length the writer puts the head and no more.
#[verifier::external_body]
fn cbored_array_head(count: u64) -> (bytes: Vec<u8>)
    ensures
        bytes@ == head(4, count as nat),
{
    let mut writer = cbored::Writer::new();
    writer.array_build(cbored::StructureLength::from(count), |_| ());
    writer.finalize()
}

/// The head of a map of `count` entries, from `cbored`.
///
/// Calls `Writer::map_build` with `StructureLength::from(count)` and nothing
/// to write within, on a new writer, and `Writer::finalize`.
#[verifier::external_body]
fn cbored_map_head(count: u64) -> (bytes: Vec<u8>)
    ensures
        bytes@ == head(5, count as nat),
{
    let mut writer = cbored::Writer::new();
    writer.map_build(cbored::StructureLength::from(count), |_| ());
    writer.finalize()
}

/// The head of an item with the tag `tag`, from `cbored`.
///
/// Calls `Writer::tag_build` with `TagValue::from_u64(tag)` and nothing to
/// write within, on a new writer, and `Writer::finalize`.
#[verifier::external_body]
fn cbored_tag_head(tag: u64) -> (bytes: Vec<u8>)
    ensures
        bytes@ == head(6, tag as nat),
{
    let mut writer = cbored::Writer::new();
    writer.tag_build(cbored::TagValue::from_u64(tag), |_| ());
    writer.finalize()
}

/// The boolean `b`, from `cbored`: `Writer::bool` on a new writer, and
/// `Writer::finalize`. The writer puts one byte.
#[verifier::external_body]
fn cbored_bool(b: bool) -> (bytes: Vec<u8>)
    ensures
        bytes@ == if b {
            seq![0xf5u8]
        } else {
            seq![0xf4u8]
        },
{
    let mut writer = cbored::Writer::new();
    writer.bool(b);
    writer.finalize()
}

/// Null, from `cbored`: `Writer::constant` with `Constant::Null` on a new
/// writer, and `Writer::finalize`. The writer puts one byte.
#[verifier::external_body]
fn cbored_null() -> (bytes: Vec<u8>)
    ensures
        bytes@ == seq![0xf6u8],
{
    let mut writer = cbored::Writer::new();
    writer.constant(cbored::Constant::Null);
    writer.finalize()
}

/// Undefined, from `cbored`: `Writer::constant` with `Constant::Undefined`
/// on a new writer, and `Writer::finalize`. The writer puts one byte.
#[verifier::external_body]
fn cbored_undefined() -> (bytes: Vec<u8>)
    ensures
        bytes@ == seq![0xf7u8],
{
    let mut writer = cbored::Writer::new();
    writer.constant(cbored::Constant::Undefined);
    writer.finalize()
}

/// The simple value `v`, from `cbored`.
///
/// Calls `Writer::byte` with `Byte::canonical(v)` on a new writer, and
/// `Writer::finalize`. The writer refuses the values 20 to 23, which the
/// caller does not hand in; a value below 20 goes into the lead byte, any
/// other into the byte that follows.
#[verifier::external_body]
fn cbored_simple(v: u8) -> (bytes: Vec<u8>)
    requires
        v < 20 || v >= 24,
    ensures
        bytes@ == simple_bytes(v),
{
    let mut writer = cbored::Writer::new();
    writer.byte(cbored::Byte::canonical(v));
    writer.finalize()
}

/// A floating-point number with the bits `bits`, from `cbored`.
///
/// Calls `Writer::float` with the bits, variant for variant, on a new
/// writer, and `Writer::finalize`. The writer puts the lead byte for the
/// width, then the bits, highest byte first.
#[verifier::external_body]
fn cbored_float_bits(bits: FloatBits) -> (bytes: Vec<u8>)
    ensures
        bytes@ == float_bytes(bits),
{
    let mut writer = cbored::Writer::new();
    match bits {
        FloatBits::Half(v) => writer.float(cbored::Float::FP16(v)),
        FloatBits::Single(v) => writer.float(cbored::Float::FP32(v)),
        FloatBits::Double(v) => writer.float(cbored::Float::FP64(v)),
    }
    writer.finalize()
}

/// The bytes of the simple value `v`. The values 20 to 23 are written as
/// what they are: false, true, null and undefined.
fn simple_value(v: u8) -> (bytes: Vec<u8>)
    ensures
        bytes@ == simple_bytes(v),
{
    if v == 20 {
        cbored_bool(false)
    } else if v == 21 {
        cbored_bool(true)
    } else if v == 22 {
        cbored_null()
    } else if v == 23 {
        cbored_undefined()
    } else {
        cbored_simple(v)
    }
}

/// The bits of a floating-point number of `bits` bits that are the low bits
/// of `v`.
fn bits_of(bits: u8, v: u64) -> (r: FloatBits)
    ensures
        r == float_bits(bits, v),
{
    if bits == 16 {
        FloatBits::Half((v % 0x1_0000) as u16)
    } else if bits == 32 {
        FloatBits::Single((v % 0x1_0000_0000) as u32)
    } else {
        FloatBits::Double(v)
    }
}

/// Appends the bytes of `tree` to `out`.
#[verifier::loop_isolation(false)]
pub fn write_tree(tree: &Cbor, out: &mut Vec<u8>)
    ensures
        final(out)@ == old(out)@ + bytes_of(*tree),
    decreases tree,
{
    match tree {
        Cbor::Positive(v) => {
            let mut part = cbored_positive(*v);
            out.append(&mut part);
        },
        Cbor::Negative(v) => {
            let mut part = cbored_negative(*v);
            out.append(&mut part);
        },
        Cbor::Bytes(data) => {
            let mut part = cbored_byte_string(data.as_slice());
            out.append(&mut part);
        },
        Cbor::Text(text) => {
            let mut part = cbored_text_string(text.as_str());
            out.append(&mut part);
        },
        Cbor::Array(items) => {
            let mut part = cbored_array_head(items.len() as u64);
            out.append(&mut part);
            let ghost start = out@;
            let mut i: usize = 0;
            while i < items.len()
                invariant
                    i <= items@.len(),
                    out@ == start + items_bytes(*items, i as nat),
                decreases items@.len() - i,
            {
                proof {
                    vstd::std_specs::vec::axiom_vec_index_decreases(*items, i as int);
                }
                write_tree(&items[i], out);
                assert(out@ =~= start + items_bytes(*items, (i + 1) as nat));
                i += 1;
            }
            assert(out@ =~= old(out)@ + (head(4, items@.len()) + items_bytes(
                *items,
                items@.len(),
            )));
        },
        Cbor::Entries(entries) => {
            let mut part = cbored_map_head(entries.len() as u64);
            out.append(&mut part);
            let ghost start = out@;
            let mut i: usize = 0;
            while i < entries.len()
                invariant
                    i <= entries@.len(),
                    out@ == start + entries_bytes(*entries, i as nat),
                decreases entries@.len() - i,
            {
                proof {
                    vstd::std_specs::vec::axiom_vec_index_decreases(*entries, i as int);
                }
                write_tree(&entries[i].0, out);
                write_tree(&entries[i].1, out);
                assert(out@ =~= start + entries_bytes(*entries, (i + 1) as nat));
                i += 1;
            }
            assert(out@ =~= old(out)@ + (head(5, entries@.len()) + entries_bytes(
                *entries,
                entries@.len(),
            )));
        },
        Cbor::Tag(tag, inner) => {
            let mut part = cbored_tag_head(*tag);
            out.append(&mut part);
            write_tree(inner, out);
            assert(out@ =~= old(out)@ + (head(6, *tag as nat) + bytes_of(**inner)));
        },
        Cbor::Bool(b) => {
            let mut part = cbored_bool(*b);
            out.append(&mut part);
        },
        Cbor::Null => {
            let mut part = cbored_null();
            out.append(&mut part);
        },
        Cbor::Undefined => {
            let mut part = cbored_undefined();
            out.append(&mut part);
        },
        Cbor::Byte(v) => {
            let mut part = simple_value(*v);
            out.append(&mut part);
        },
        Cbor::Float(bits, v) => {
            let mut part = cbored_float_bits(bits_of(*bits, *v));
            out.append(&mut part);
        },
    }
}

/// The bytes of `tree`.
pub fn to_bytes(tree: &Cbor) -> (bytes: Vec<u8>)
    ensures
        bytes@ == bytes_of(*tree),
{
    let mut out: Vec<u8> = Vec::new();
    write_tree(tree, &mut out);
    assert(out@ =~= bytes_of(*tree));
    out
}

/// The deepest nesting of items that is read.
pub const MAX_DEPTH: usize = 128;

/// What `cbored` reads from `data` where its first item is an integer, a
/// simple value, a boolean, null or undefined: that item as a tree. `None`
/// where the first item is of another kind or cannot be read.
pub uninterp spec fn cbor_scalar(data: Seq<u8>) -> Option<Cbor>;

/// What `cbored` reads from `data` where its first item is a floating-point
/// number: its bits. `None` where it is no such item.
pub uninterp spec fn cbor_float(data: Seq<u8>) -> Option<FloatBits>;

/// What `cbored` reads from `data` where its first item is a byte string:
/// its bytes. `None` where it is no such item.
pub uninterp spec fn cbor_byte_string(data: Seq<u8>) -> Option<Seq<u8>>;

/// What `cbored` reads from `data` where its first item is a text string:
/// its characters. `None` where it is no such item.
pub uninterp spec fn cbor_text_string(data: Seq<u8>) -> Option<Seq<char>>;

/// What `cbored` reads from `data` where its first item is an array: the
/// bytes of each of its items, in order. `None` where it is no such item.
pub uninterp spec fn cbor_array_items(data: Seq<u8>) -> Option<Seq<Seq<u8>>>;

/// What `cbored` reads from `data` where its first item is a map: the bytes
/// of each key and of its value, in order. `None` where it is no such item.
pub uninterp spec fn cbor_map_entries(data: Seq<u8>) -> Option<Seq<(Seq<u8>, Seq<u8>)>>;

/// What `cbored` reads from `data` where its first item is a tagged item:
/// the tag, and the bytes of the item that it is put on. `None` where it is
/// no such item.
pub uninterp spec fn cbor_tagged(data: Seq<u8>) -> Option<(u64, Seq<u8>)>;

/// Whether `data` may be shown to the reader: it is not empty, and holds no
/// string that announces more bytes than can be addressed.
pub open spec fn shown(data: Seq<u8>) -> bool {
    data.len() > 0 && readable_prefix(data) == data.len()
}

/// Reads the first item of `data` where it is an integer, a simple value, a
/// boolean, null or undefined.
///
/// Calls `cbored::Reader::new(data).data()` and hands on the item, variant
/// for variant, with the number that `to_u64`, `negative_u64` or `to_u8`
/// gives for it. The answer is named, not described. The caller shows no
/// empty buffer, which `new` refuses, and no string that announces more
/// bytes than can be addressed.
#[verifier::external_body]
fn cbored_scalar(data: &[u8]) -> (r: Option<Cbor>)
    requires
        shown(data@),
    ensures
        r == cbor_scalar(data@),
{
    match cbored::Reader::new(data).data() {
        Ok(cbored::Data::Positive(v)) => Some(Cbor::Positive(v.to_u64())),
        Ok(cbored::Data::Negative(v)) => Some(Cbor::Negative(v.negative_u64())),
        Ok(cbored::Data::Byte(v)) => Some(Cbor::Byte(v.to_u8())),
        Ok(cbored::Data::True) => Some(Cbor::Bool(true)),
        Ok(cbored::Data::False) => Some(Cbor::Bool(false)),
        Ok(cbored::Data::Null) => Some(Cbor::Null),
        Ok(cbored::Data::Undefined) => Some(Cbor::Undefined),
        _ => None,
    }
}

/// Reads the first item of `data` where it is a floating-point number.
///
/// Calls `cbored::Reader::new(data).float()` and hands on the bits, variant
/// for variant. The answer is named, not described. The caller shows what
/// `shown` admits.
#[verifier::external_body]
fn cbored_float(data: &[u8]) -> (r: Option<FloatBits>)
    requires
        shown(data@),
    ensures
        r == cbor_float(data@),
{
    match cbored::Reader::new(data).float() {
        Ok(cbored::Float::FP16(v)) => Some(FloatBits::Half(v)),
        Ok(cbored::Float::FP32(v)) => Some(FloatBits::Single(v)),
        Ok(cbored::Float::FP64(v)) => Some(FloatBits::Double(v)),
        Err(_) => None,
    }
}

/// Reads the first item of `data` where it is a byte string.
///
/// Calls `cbored::Reader::new(data).bytes()` and `Bytes::to_vec` on what it
/// gives. The answer is named, not described. The caller shows what `shown`
/// admits.
#[verifier::external_body]
fn cbored_bytes(data: &[u8]) -> (r: Option<Vec<u8>>)
    requires
        shown(data@),
    ensures
        r matches Some(bytes) ==> cbor_byte_string(data@) == Some(bytes@),
        r is None ==> cbor_byte_string(data@) is None,
{
    cbored::Reader::new(data).bytes().ok().map(|bytes| bytes.to_vec())
}

/// Reads the first item of `data` where it is a text string.
///
/// Calls `cbored::Reader::new(data).text()` and `Text::to_string` on what it
/// gives. The answer is named, not described. The caller shows what `shown`
/// admits.
#[verifier::external_body]
fn cbored_text(data: &[u8]) -> (r: Option<String>)
    requires
        shown(data@),
    ensures
        r matches Some(text) ==> cbor_text_string(data@) == Some(text@),
        r is None ==> cbor_text_string(data@) is None,
{
    cbored::Reader::new(data).text().ok().map(|text| text.to_string())
}

/// Reads the first item of `data` where it is an array, and gives the bytes
/// of each of its items.
///
/// Calls `cbored::Reader::new(data).array()` and copies the slice of each
/// item, in order. The answer is named, not described. The caller shows
/// what `shown` admits.
#[verifier::external_body]
fn cbored_array(data: &[u8]) -> (r: Option<Vec<Vec<u8>>>)
    requires
        shown(data@),
    ensures
        r matches Some(items) ==> cbor_array_items(data@) matches Some(found) && found.len()
            == items@.len() && forall|i: int|
            0 <= i < found.len() ==> (#[trigger] items@[i])@ == found[i],
        r is None ==> cbor_array_items(data@) is None,
{
    let array = cbored::Reader::new(data).array().ok()?;
    Some((0..array.len()).map(|i| array[i].as_ref().to_vec()).collect())
}

/// Reads the first item of `data` where it is a map, and gives the bytes of
/// each key and of its value.
///
/// Calls `cbored::Reader::new(data).map()` and copies the slices of each
/// entry, in order. The answer is named, not described. The caller shows
/// what `shown` admits.
#[verifier::external_body]
fn cbored_map(data: &[u8]) -> (r: Option<Vec<(Vec<u8>, Vec<u8>)>>)
    requires
        shown(data@),
    ensures
        r matches Some(entries) ==> cbor_map_entries(data@) matches Some(found) && found.len()
            == entries@.len() && forall|i: int|
            0 <= i < found.len() ==> (#[trigger] entries@[i]).0@ == found[i].0 && entries@[i].1@
                == found[i].1,
        r is None ==> cbor_map_entries(data@) is None,
{
    let map = cbored::Reader::new(data).map().ok()?;
    Some((0..map.len()).map(|i| (map[i].0.as_ref().to_vec(), map[i].1.as_ref().to_vec())).collect())
}

/// Reads the first item of `data` where it is a tagged item, and gives the
/// tag and the bytes of the item that it is put on.
///
/// Calls `cbored::Reader::new(data).tag()`, then `Tag::value` and a copy of
/// the slice that `Tag::data` gives. The answer is named, not described.
/// The caller shows what `shown` admits.
#[verifier::external_body]
fn cbored_tag(data: &[u8]) -> (r: Option<(u64, Vec<u8>)>)
    requires
        shown(data@),
    ensures
        r matches Some(tagged) ==> cbor_tagged(data@) == Some((tagged.0, tagged.1@)),
        r is None ==> cbor_tagged(data@) is None,
{
    let tag = cbored::Reader::new(data).tag().ok()?;
    Some((tag.value(), tag.data().as_ref().to_vec()))
}

/// The tree of a floating-point number with the bits `bits`.
pub open spec fn float_tree(bits: FloatBits) -> Cbor {
    match bits {
        FloatBits::Half(v) => Cbor::Float(16, v as u64),
        FloatBits::Single(v) => Cbor::Float(32, v as u64),
        FloatBits::Double(v) => Cbor::Float(64, v),
    }
}

/// Whether `tree` is what the first item of `data` reads as, with items
/// nested no more than `depth` deep.
///
/// Each kind of item is what the reader finds for it, and the items within
/// an array, a map or a tagged item are read in the same way from their own
/// bytes.
pub open spec fn reads_as(data: Seq<u8>, depth: nat, tree: Cbor) -> bool
    decreases depth,
{
    if depth == 0 || !shown(data) {
        false
    } else if cbor_scalar(data) is Some {
        cbor_scalar(data) == Some(tree)
    } else if cbor_float(data) is Some {
        tree == float_tree(cbor_float(data)->Some_0)
    } else if cbor_byte_string(data) is Some {
        tree matches Cbor::Bytes(bytes) && bytes@ == cbor_byte_string(data)->Some_0
    } else if cbor_text_string(data) is Some {
        tree matches Cbor::Text(text) && text@ == cbor_text_string(data)->Some_0
    } else if cbor_array_items(data) is Some {
        let found = cbor_array_items(data)->Some_0;
        tree matches Cbor::Array(items) && items@.len() == found.len() && forall|i: int|
            0 <= i < found.len() ==> reads_as(#[trigger] found[i], (depth - 1) as nat, items@[i])
    } else if cbor_map_entries(data) is Some {
        let found = cbor_map_entries(data)->Some_0;
        tree matches Cbor::Entries(entries) && entries@.len() == found.len() && forall|i: int|
            0 <= i < found.len() ==> reads_as(
                (#[trigger] found[i]).0,
                (depth - 1) as nat,
                entries@[i].0,
            ) && reads_as(found[i].1, (depth - 1) as nat, entries@[i].1)
    } else if cbor_tagged(data) is Some {
        let found = cbor_tagged(data)->Some_0;
        tree matches Cbor::Tag(tag, inner) && tag == found.0 && reads_as(
            found.1,
            (depth - 1) as nat,
            *inner,
        )
    } else {
        false
    }
}

/// Reads the first item of `data` as a tree, with items nested no more than
/// `depth` deep. An error where there is no such tree.
#[verifier::loop_isolation(false)]
pub fn read_tree(data: &[u8], depth: usize) -> (r: Result<Cbor, Undecodable>)
    ensures
        r matches Ok(tree) ==> reads_as(data@, depth as nat, tree),
        r is Err ==> forall|tree: Cbor| !reads_as(data@, depth as nat, tree),
    decreases depth,
{
    if depth == 0 || data.len() == 0 || readable_len(data) != data.len() {
        return Err(Undecodable);
    }
    if let Some(tree) = cbored_scalar(data) {
        return Ok(tree);
    }
    if let Some(bits) = cbored_float(data) {
        return Ok(
            match bits {
                FloatBits::Half(v) => Cbor::Float(16, v as u64),
                FloatBits::Single(v) => Cbor::Float(32, v as u64),
                FloatBits::Double(v) => Cbor::Float(64, v),
            },
        );
    }
    if let Some(bytes) = cbored_bytes(data) {
        return Ok(Cbor::Bytes(bytes));
    }
    if let Some(text) = cbored_text(data) {
        return Ok(Cbor::Text(text));
    }
    if let Some(found) = cbored_array(data) {
        let mut items: Vec<Cbor> = Vec::new();
        let mut i: usize = 0;
        while i < found.len()
            invariant
                i <= found@.len(),
                items@.len() == i,
                depth > 0,
                cbor_array_items(data@) matches Some(parts) && parts.len() == found@.len()
                    && forall|j: int| 0 <= j < parts.len() ==> (#[trigger] found@[j])@ == parts[j],
                forall|j: int|
                    0 <= j < i ==> reads_as(
                        (#[trigger] found@[j])@,
                        (depth - 1) as nat,
                        items@[j],
                    ),
            decreases found@.len() - i,
        {
            match read_tree(found[i].as_slice(), depth - 1) {
                Ok(item) => {
                    items.push(item);
                },
                Err(e) => {
                    assert forall|tree: Cbor| !reads_as(data@, depth as nat, tree) by {
                        let parts = cbor_array_items(data@)->Some_0;
                        assert(parts[i as int] == found@[i as int]@);
                        if reads_as(data@, depth as nat, tree) {
                            assert(reads_as(
                                parts[i as int],
                                (depth - 1) as nat,
                                tree->Array_0@[i as int],
                            ));
                        }
                    }
                    return Err(e);
                },
            }
            i += 1;
        }
        let tree = Cbor::Array(items);
        assert(reads_as(data@, depth as nat, tree)) by {
            let parts = cbor_array_items(data@)->Some_0;
            assert forall|j: int| 0 <= j < parts.len() implies reads_as(
                #[trigger] parts[j],
                (depth - 1) as nat,
                items@[j],
            ) by {
                assert(found@[j]@ == parts[j]);
            }
        }
        return Ok(tree);
    }
    if let Some(found) = cbored_map(data) {
        let mut entries: Vec<(Cbor, Cbor)> = Vec::new();
        let mut i: usize = 0;
        while i < found.len()
            invariant
                i <= found@.len(),
                entries@.len() == i,
                depth > 0,
                cbor_map_entries(data@) matches Some(parts) && parts.len() == found@.len()
                    && forall|j: int|
                    0 <= j < parts.len() ==> (#[trigger] found@[j]).0@ == parts[j].0 && found@[j].1@
                        == parts[j].1,
                forall|j: int|
                    0 <= j < i ==> reads_as(
                        (#[trigger] found@[j]).0@,
                        (depth - 1) as nat,
                        entries@[j].0,
                    ) && reads_as(found@[j].1@, (depth - 1) as nat, entries@[j].1),
            decreases found@.len() - i,
        {
            let key = read_tree(found[i].0.as_slice(), depth - 1);
            let value = read_tree(found[i].1.as_slice(), depth - 1);
            match (key, value) {
                (Ok(key), Ok(value)) => {
                    entries.push((key, value));
                },
                _ => {
                    assert forall|tree: Cbor| !reads_as(data@, depth as nat, tree) by {
                        let parts = cbor_map_entries(data@)->Some_0;
                        assert(parts[i as int].0 == found@[i as int].0@);
                        assert(parts[i as int].1 == found@[i as int].1@);
                        if reads_as(data@, depth as nat, tree) {
                            assert(reads_as(
                                parts[i as int].0,
                                (depth - 1) as nat,
                                tree->Entries_0@[i as int].0,
                            ));
                            assert(reads_as(
                                parts[i as int].1,
                                (depth - 1) as nat,
                                tree->Entries_0@[i as int].1,
                            ));
                        }
                    }
                    return Err(Undecodable);
                },
            }
            i += 1;
        }
        let tree = Cbor::Entries(entries);
        assert(reads_as(data@, depth as nat, tree)) by {
            let parts = cbor_map_entries(data@)->Some_0;
            assert forall|j: int| 0 <= j < parts.len() implies reads_as(
                (#[trigger] parts[j]).0,
                (depth - 1) as nat,
                entries@[j].0,
            ) && reads_as(parts[j].1, (depth - 1) as nat, entries@[j].1) by {
                assert(found@[j].0@ == parts[j].0);
            }
        }
        return Ok(tree);
    }
    if let Some(found) = cbored_tag(data) {
        return match read_tree(found.1.as_slice(), depth - 1) {
            Ok(inner) => Ok(Cbor::Tag(found.0, Box::new(inner))),
            Err(e) => {
                assert forall|tree: Cbor| !reads_as(data@, depth as nat, tree) by {
                    if reads_as(data@, depth as nat, tree) {
                        assert(reads_as(found.1@, (depth - 1) as nat, *tree->Tag_1));
                    }
                }
                Err(e)
            },
        };
    }
    Err(Undecodable)
}

/// Whether `tree` is what `data` reads as, all of it: `data` is one item
/// and nothing more.
pub open spec fn spells(data: Seq<u8>, tree: Cbor) -> bool {
    boundary(data) == CborBoundary::Slice(data.len()) && reads_as(data, MAX_DEPTH as nat, tree)
}

/// Reads `data`, one item and nothing more, as a tree.
pub fn from_bytes(data: &[u8]) -> (r: Result<Cbor, Undecodable>)
    ensures
        r matches Ok(tree) ==> spells(data@, tree),
        r is Err ==> forall|tree: Cbor| !spells(data@, tree),
{
    match cbor_buf_validate(data) {
        CborBufValidate::Slice(_, n) => {
            if n == data.len() {
                read_tree(data, MAX_DEPTH)
            } else {
                Err(Undecodable)
            }
        },
        _ => Err(Undecodable),
    }
}

/// Whether `data` is `value` in bytes: it reads as a tree that `value` is
/// written as.
pub open spec fn written_as<T: CborCodec>(data: Seq<u8>, value: T) -> bool {
    exists|tree: Cbor| spells(data, tree) && value.encodes(tree)
}

/// Whether `data` is no value in bytes: it reads as no tree, or as a tree
/// that no value is written as.
pub open spec fn no_value<T: CborCodec>(data: Seq<u8>) -> bool {
    (forall|tree: Cbor| !spells(data, tree)) || exists|tree: Cbor|
        spells(data, tree) && forall|value: T| !value.encodes(tree)
}

/// The bytes of `value`: those of a tree that it is written as.
pub fn encode<T: CborCodec>(value: &T) -> (bytes: Vec<u8>)
    ensures
        exists|tree: Cbor| value.encodes(tree) && bytes@ == bytes_of(tree),
{
    let tree = value.to_cbor();
    to_bytes(&tree)
}

/// Reads a value from `data`, one item and nothing more.
///
/// A value is returned where `data` reads as a tree that a value is written
/// as, and it is written as that tree. An error is returned where `data`
/// reads as no tree, or as a tree that no value is written as.
pub fn decode<T: CborCodec>(data: &[u8]) -> (r: Result<T, Undecodable>)
    ensures
        r matches Ok(value) ==> written_as(data@, value),
        r is Err ==> no_value::<T>(data@),
{
    match from_bytes(data) {
        Ok(tree) => {
            let r = T::from_cbor(&tree);
            proof {
                if r is Err {
                    assert(spells(data@, tree) && forall|value: T| !value.encodes(tree));
                }
            }
            r
        },
        Err(e) => Err(e),
    }
}

} // verus!
