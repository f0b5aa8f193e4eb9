//! The preamble of the first version of the format, as the C interface
//! writes it: numbers most significant byte first, a tag width of 64 bits,
//! zeros behind a short tag, and a byte that says whether a digest follows.

use vstd::prelude::*;
use vstd::string::StringSliceAdditionalSpecFns;
use crate::error::SnowBinError;
use crate::format::{le_bytes, lemma_le_bytes_len, lemma_markers, magic};
use crate::info::data_size_allowed;

verus! {

/// The version of the format that this module writes.
pub const VERSION_SPEC: u64 = 0;

/// Width of a tag field when none is chosen.
pub const DEFAULT_HEADER_SIZE: u64 = 8;

/// Width in bits of a length field when none is chosen.
pub const DEFAULT_DATA_SIZE: u8 = 64;

/// Offset of the first entry: the preamble is 8 + 8 + 8 + 1 + 1 bytes long.
pub const DATA_START: u64 = 26;

/// The `width` low bytes of `value`, most significant first.
pub open spec fn be_bytes(value: nat, width: nat) -> Seq<u8> {
    le_bytes(value, width).reverse()
}

/// `count` zero bytes.
pub open spec fn zero_bytes(count: nat) -> Seq<u8> {
    Seq::new(count, |i: int| 0u8)
}

/// The byte that stands for a truth value.
pub open spec fn bool_byte(value: bool) -> u8 {
    if value {
        1
    } else {
        0
    }
}

/// The parameters of a container of the first version, as C code holds
/// them. The fields are open to that code, so nothing is known of a value but
/// what its fields say: the functions below keep the length width to the
/// allowed ones, a value made elsewhere may hold any.
#[derive(Copy, Clone, Eq, PartialEq, Debug, Structural)]
pub struct SnowBinInfo {
    /// Width in bytes of a tag field.
    pub header_size: u64,
    /// Width in bits of a length field.
    pub data_size: u8,
    /// Whether a digest ends the container.
    pub v_hash: bool,
}

/// The parameters that a new container has: a tag field of 8 bytes, a length
/// field of 64 bits, no digest.
pub fn snow_bin_info_new() -> (info: SnowBinInfo)
    ensures
        info == (SnowBinInfo {
            header_size: DEFAULT_HEADER_SIZE,
            data_size: DEFAULT_DATA_SIZE,
            v_hash: false,
        }),
{
    SnowBinInfo { header_size: DEFAULT_HEADER_SIZE, data_size: DEFAULT_DATA_SIZE, v_hash: false }
}

/// Sets the tag width. Every width is taken.
pub fn snow_bin_info_set_header_size(info: &mut SnowBinInfo, size: u64) -> (done: bool)
    ensures
        done,
        *final(info) == (SnowBinInfo { header_size: size, ..*old(info) }),
{
    info.header_size = size;
    true
}

/// Sets the width of the length field where it is 8, 16, 32 or 64 bits.
/// Another width is refused, and the parameters stay as they were.
pub fn snow_bin_info_set_data_size(info: &mut SnowBinInfo, size: u8) -> (done: bool)
    ensures
        done == data_size_allowed(size),
        done ==> *final(info) == (SnowBinInfo { data_size: size, ..*old(info) }),
        !done ==> *final(info) == *old(info),
{
    if !(size == 8 || size == 16 || size == 32 || size == 64) {
        return false;
    }
    info.data_size = size;
    true
}

/// Sets whether a digest ends the container.
pub fn snow_bin_info_set_v_hash(info: &mut SnowBinInfo, hash: bool) -> (done: bool)
    ensures
        done,
        *final(info) == (SnowBinInfo { v_hash: hash, ..*old(info) }),
{
    info.v_hash = hash;
    true
}

/// The preamble of the first version: marker, version, tag width, length
/// width, digest flag.
pub open spec fn preamble(info: SnowBinInfo) -> Seq<u8> {
    magic() + be_bytes(VERSION_SPEC as nat, 8) + be_bytes(info.header_size as nat, 8) + be_bytes(
        info.data_size as nat,
        1,
    ) + seq![bool_byte(info.v_hash)]
}

/// Appends `data` to `file`.
pub fn write_bytes(file: &mut Vec<u8>, data: &[u8])
    ensures
        final(file)@ == old(file)@ + data@,
{
    crate::writer::write_bytes(file, data)
}

/// Appends `header` in a field of `header_len` bytes, with zeros behind it. A
/// header longer than the field is refused, and nothing is written.
pub fn write_header(file: &mut Vec<u8>, header: &str, header_len: u64) -> (r: Result<
    (),
    SnowBinError,
>)
    ensures
        header.spec_bytes().len() > header_len ==> r == Err::<(), SnowBinError>(
            SnowBinError::HeaderTooLong,
        ) && final(file)@ == old(file)@,
        header.spec_bytes().len() <= header_len ==> r is Ok && final(file)@ == old(file)@
            + header.spec_bytes() + zero_bytes((header_len - header.spec_bytes().len()) as nat),
{
    let bytes = header.as_bytes();
    if bytes.len() as u64 > header_len {
        return Err(SnowBinError::HeaderTooLong);
    }
    crate::writer::write_bytes(file, bytes);
    let count: u64 = header_len - bytes.len() as u64;
    let ghost filled = file@;
    let mut i: u64 = 0;
    while i < count
        invariant
            i <= count,
            file@ == filled + zero_bytes(i as nat),
        decreases count - i,
    {
        file.push(0u8);
        i = i + 1;
    }
    Ok(())
}

/// Appends the `width` low bytes of `value`, most significant first.
fn write_be(file: &mut Vec<u8>, value: u64, width: usize)
    ensures
        final(file)@ == old(file)@ + be_bytes(value as nat, width as nat),
{
    let mut low_first: Vec<u8> = Vec::new();
    crate::writer::write_le(&mut low_first, value, width);
    proof {
        lemma_le_bytes_len(value as nat, width as nat);
    }
    let ghost high_first = be_bytes(value as nat, width as nat);
    let mut i: usize = 0;
    while i < width
        invariant
            i <= width,
            low_first@ == le_bytes(value as nat, width as nat),
            low_first@.len() == width,
            high_first == low_first@.reverse(),
            file@ == old(file)@ + high_first.subrange(0, i as int),
        decreases width - i,
    {
        file.push(low_first[width - 1 - i]);
        i = i + 1;
    }
}

/// Appends one byte.
pub fn write_u8(file: &mut Vec<u8>, data: u8)
    ensures
        final(file)@ == old(file)@ + be_bytes(data as nat, 1),
{
    write_be(file, data as u64, 1)
}

/// Appends a 16-bit number, most significant byte first.
pub fn write_u16(file: &mut Vec<u8>, data: u16)
    ensures
        final(file)@ == old(file)@ + be_bytes(data as nat, 2),
{
    write_be(file, data as u64, 2)
}

/// Appends a 32-bit number, most significant byte first.
pub fn write_u32(file: &mut Vec<u8>, data: u32)
    ensures
        final(file)@ == old(file)@ + be_bytes(data as nat, 4),
{
    write_be(file, data as u64, 4)
}

/// Appends a 64-bit number, most significant byte first.
pub fn write_u64(file: &mut Vec<u8>, data: u64)
    ensures
        final(file)@ == old(file)@ + be_bytes(data as nat, 8),
{
    write_be(file, data, 8)
}

/// Appends a truth value as one byte: 1 for `true`, 0 for `false`.
pub fn write_bool(file: &mut Vec<u8>, data: bool)
    ensures
        final(file)@ == old(file)@ + seq![bool_byte(data)],
{
    let byte: u8 = if data { 1 } else { 0 };
    file.push(byte);
}

/// Appends the preamble to `file`.
pub fn init_file(file: &mut Vec<u8>, info: &SnowBinInfo)
    ensures
        final(file)@ == old(file)@ + preamble(*info),
{
    proof {
        lemma_markers();
    }
    let _ = write_header(file, "SNOW_BIN", 8);
    write_u64(file, VERSION_SPEC);
    write_u64(file, info.header_size);
    write_u8(file, info.data_size);
    write_bool(file, info.v_hash);
}

/// An encoder of the first version. It holds the preamble; entries cannot be
/// written through it yet.
pub struct SnowBinWriter {
    info: SnowBinInfo,
    file: Vec<u8>,
    done: bool,
}

impl SnowBinWriter {
    /// The parameters that the container is written with.
    pub closed spec fn info(&self) -> SnowBinInfo {
        self.info
    }

    /// Every byte produced so far.
    pub closed spec fn bytes(&self) -> Seq<u8> {
        self.file@
    }

    /// Whether the container has been sealed.
    pub closed spec fn closed(&self) -> bool {
        self.done
    }

    /// Every byte produced so far.
    pub fn as_bytes(&self) -> (bytes: &[u8])
        ensures
            bytes@ == self.bytes(),
    {
        self.file.as_slice()
    }
}

/// Starts a container of the first version: the stream holds the preamble.
pub fn snow_bin_writer_new(info: &SnowBinInfo) -> (writer: SnowBinWriter)
    ensures
        writer.info() == *info,
        writer.bytes() == preamble(*info),
        !writer.closed(),
{
    let mut file: Vec<u8> = Vec::new();
    init_file(&mut file, info);
    SnowBinWriter { info: *info, file, done: false }
}

} // verus!
