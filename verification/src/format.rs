//! The byte layout of a container, as functions on sequences of bytes.

use vstd::prelude::*;
use vstd::string::StringSliceAdditionalSpecFns;
use vstd::utf8::valid_utf8;
use crate::hash::blake3_hash;
use crate::info::{data_size_allowed, SnowBinInfo, VERSION_SPEC};

verus! {

/// Offset of the first entry: the preamble is 8 + 8 + 4 + 1 bytes long.
pub const DATA_START: u64 = 21;

/// Length in bytes of the digest that ends a container.
pub const HASH_SIZE: u32 = 32;

/// The byte that fills a tag field behind the tag: an ASCII space.
pub const FILL: u8 = 32;

/// The marker that opens a container: the ASCII letters `SNOW_BIN`.
pub open spec fn magic() -> Seq<u8> {
    seq![83u8, 78u8, 79u8, 87u8, 95u8, 66u8, 73u8, 78u8]
}

/// The tag of the entry that ends the data region: the ASCII letters
/// `SNOW_END`.
pub open spec fn end_marker() -> Seq<u8> {
    seq![83u8, 78u8, 79u8, 87u8, 95u8, 69u8, 78u8, 68u8]
}

/// `count` fill bytes.
pub open spec fn fill_bytes(count: nat) -> Seq<u8> {
    Seq::new(count, |i: int| FILL)
}

/// A tag brought to exactly `width` bytes: a shorter one is followed by fill
/// bytes, a longer one loses what is behind the first `width` bytes.
pub open spec fn fit_tag(tag: Seq<u8>, width: nat) -> Seq<u8> {
    if tag.len() <= width {
        tag + fill_bytes((width - tag.len()) as nat)
    } else {
        tag.subrange(0, width as int)
    }
}

/// 256 to the power `n`.
pub open spec fn pow256(n: nat) -> nat
    decreases n,
{
    if n == 0 {
        1
    } else {
        256 * pow256((n - 1) as nat)
    }
}

/// The `width` low bytes of `value`, least significant first.
pub open spec fn le_bytes(value: nat, width: nat) -> Seq<u8>
    decreases width,
{
    if width == 0 {
        Seq::empty()
    } else {
        seq![(value % 256) as u8] + le_bytes(value / 256, (width - 1) as nat)
    }
}

/// The number that `bytes` spell, least significant byte first.
pub open spec fn le_value(bytes: Seq<u8>) -> nat
    decreases bytes.len(),
{
    if bytes.len() == 0 {
        0
    } else {
        bytes[0] as nat + 256 * le_value(bytes.drop_first())
    }
}

/// Largest payload length that a length field of `data_size` bits can hold.
pub open spec fn max_data_len(data_size: u8) -> nat {
    (pow256((data_size / 8) as nat) - 1) as nat
}

impl SnowBinInfo {
    /// Width in bytes of a tag field.
    pub open spec fn tag_width(&self) -> nat {
        self.spec_header_size() as nat
    }

    /// Width in bytes of a length field.
    pub open spec fn length_width(&self) -> nat {
        (self.spec_data_size() / 8) as nat
    }
}

/// The preamble: marker, format version, tag width and length width.
pub open spec fn preamble(info: SnowBinInfo) -> Seq<u8> {
    magic() + le_bytes(VERSION_SPEC as nat, 8) + le_bytes(info.spec_header_size() as nat, 4)
        + le_bytes(info.spec_data_size() as nat, 1)
}

/// One entry: the tag brought to the tag width, the payload's length, the
/// payload.
pub open spec fn entry_bytes(info: SnowBinInfo, tag: Seq<u8>, payload: Seq<u8>) -> Seq<u8> {
    fit_tag(tag, info.tag_width()) + le_bytes(payload.len(), info.length_width()) + payload
}

/// The entry that ends the data region: the end marker in a tag field, and
/// nothing behind it.
pub open spec fn sentinel(info: SnowBinInfo) -> Seq<u8> {
    fit_tag(end_marker(), info.tag_width())
}

/// An entry as a pair of tag and payload.
pub type Entry = (Seq<u8>, Seq<u8>);

/// The entries one after the other, in the order in which they were written.
pub open spec fn entries_bytes(info: SnowBinInfo, entries: Seq<Entry>) -> Seq<u8>
    decreases entries.len(),
{
    if entries.len() == 0 {
        Seq::empty()
    } else {
        entries_bytes(info, entries.drop_last()) + entry_bytes(
            info,
            entries.last().0,
            entries.last().1,
        )
    }
}

/// What an encoder has produced after the preamble and `entries`.
pub open spec fn open_stream(info: SnowBinInfo, entries: Seq<Entry>) -> Seq<u8> {
    preamble(info) + entries_bytes(info, entries)
}

/// Everything that the digest covers: preamble, entries and sentinel.
pub open spec fn body_bytes(info: SnowBinInfo, entries: Seq<Entry>) -> Seq<u8> {
    open_stream(info, entries) + sentinel(info)
}

/// A finished container: the body, and behind it the BLAKE3 hash of the body.
pub open spec fn sealed_bytes(info: SnowBinInfo, entries: Seq<Entry>) -> Seq<u8> {
    body_bytes(info, entries) + blake3_hash(body_bytes(info, entries))@
}

/// What an encoder has produced: an open stream, or a finished container.
pub open spec fn stream_bytes(info: SnowBinInfo, entries: Seq<Entry>, closed: bool) -> Seq<u8> {
    if closed {
        sealed_bytes(info, entries)
    } else {
        open_stream(info, entries)
    }
}

/// Whether an entry can be written under `info`: its tag is text of at most
/// the tag width, and the length field can hold its payload's length.
pub open spec fn entry_fits(info: SnowBinInfo, entry: Entry) -> bool {
    &&& valid_utf8(entry.0)
    &&& entry.0.len() <= info.tag_width()
    &&& entry.1.len() <= max_data_len(info.spec_data_size())
}

/// The powers of 256 that bound numbers of 1, 2, 4 and 8 bytes.
pub proof fn lemma_pow256_values()
    ensures
        pow256(0) == 1,
        pow256(1) == 0x100,
        pow256(2) == 0x1_0000,
        pow256(4) == 0x1_0000_0000,
        pow256(8) == 0x1_0000_0000_0000_0000,
{
    reveal_with_fuel(pow256, 9);
}

/// The largest payload length under each allowed width of the length field.
pub proof fn lemma_max_data_len(data_size: u8)
    requires
        data_size_allowed(data_size),
    ensures
        data_size == 8 ==> max_data_len(data_size) == 0xff,
        data_size == 16 ==> max_data_len(data_size) == 0xffff,
        data_size == 32 ==> max_data_len(data_size) == 0xffff_ffff,
        data_size == 64 ==> max_data_len(data_size) == 0xffff_ffff_ffff_ffff,
{
    lemma_pow256_values();
}

/// A number encoded in `width` bytes takes `width` bytes.
pub proof fn lemma_le_bytes_len(value: nat, width: nat)
    ensures
        le_bytes(value, width).len() == width,
    decreases width,
{
    if width > 0 {
        lemma_le_bytes_len(value / 256, (width - 1) as nat);
    }
}

/// What `n` bytes spell is less than 256 to the power `n`.
pub proof fn lemma_le_value_bound(bytes: Seq<u8>)
    ensures
        le_value(bytes) < pow256(bytes.len()),
    decreases bytes.len(),
{
    if bytes.len() > 0 {
        lemma_le_value_bound(bytes.drop_first());
    }
}

/// Decoding what was encoded gives the number back, where it fits the width.
pub proof fn lemma_le_value_of_bytes(value: nat, width: nat)
    requires
        value < pow256(width),
    ensures
        le_value(le_bytes(value, width)) == value,
    decreases width,
{
    if width > 0 {
        let rest = le_bytes(value / 256, (width - 1) as nat);
        let all = le_bytes(value, width);
        lemma_le_bytes_len(value / 256, (width - 1) as nat);
        assert(all.drop_first() =~= rest);
        lemma_le_value_of_bytes(value / 256, (width - 1) as nat);
    }
}

/// Encoding what was decoded gives the bytes back.
pub proof fn lemma_le_bytes_of_value(bytes: Seq<u8>)
    ensures
        le_bytes(le_value(bytes), bytes.len()) == bytes,
    decreases bytes.len(),
{
    if bytes.len() > 0 {
        let rest = bytes.drop_first();
        lemma_le_bytes_of_value(rest);
    }
}

/// The two markers are the text `SNOW_BIN` and the text `SNOW_END`.
pub proof fn lemma_markers()
    ensures
        "SNOW_BIN".spec_bytes() == magic(),
        "SNOW_END".spec_bytes() == end_marker(),
        valid_utf8(magic()),
        valid_utf8(end_marker()),
{
    reveal_strlit("SNOW_BIN");
    reveal_strlit("SNOW_END");
    vstd::string::is_ascii_spec_bytes("SNOW_BIN");
    vstd::string::is_ascii_spec_bytes("SNOW_END");
    assert("SNOW_END".spec_bytes() =~= end_marker());
    vstd::utf8::encode_utf8_valid_utf8("SNOW_BIN"@);
    vstd::utf8::encode_utf8_valid_utf8("SNOW_END"@);
}

/// Writing one more entry appends its bytes to those of the entries before.
pub proof fn lemma_entries_bytes_push(info: SnowBinInfo, entries: Seq<Entry>, entry: Entry)
    ensures
        entries_bytes(info, entries.push(entry)) == entries_bytes(info, entries) + entry_bytes(
            info,
            entry.0,
            entry.1,
        ),
{
    assert(entries.push(entry).drop_last() =~= entries);
}

} // verus!
