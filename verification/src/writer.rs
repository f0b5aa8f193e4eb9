//! Writing the fields of a container to the end of a byte buffer.

use vstd::prelude::*;
use vstd::string::StringSliceAdditionalSpecFns;
use crate::error::SnowBinError;
use crate::format::{fill_bytes, fit_tag, le_bytes, FILL};

verus! {

/// Maps the outcome of a write on a file to this library's result.
pub fn error(result: Result<(), std::io::Error>) -> (r: Result<(), SnowBinError>)
    ensures
        result is Ok ==> r == Ok::<(), SnowBinError>(()),
        result is Err ==> r == Err::<(), SnowBinError>(SnowBinError::IOWriteError),
{
    match result {
        Ok(_) => Ok(()),
        Err(_) => Err(SnowBinError::IOWriteError),
    }
}

/// Appends `data` to `file`.
pub fn write_bytes(file: &mut Vec<u8>, data: &[u8])
    ensures
        final(file)@ == old(file)@ + data@,
{
    let mut i: usize = 0;
    while i < data.len()
        invariant
            i <= data.len(),
            file@ == old(file)@ + data@.subrange(0, i as int),
        decreases data.len() - i,
    {
        file.push(data[i]);
        i = i + 1;
    }
}

/// Appends `count` fill bytes to `file`.
fn write_fill(file: &mut Vec<u8>, count: usize)
    ensures
        final(file)@ == old(file)@ + fill_bytes(count as nat),
{
    let mut i: usize = 0;
    while i < count
        invariant
            i <= count,
            file@ == old(file)@ + fill_bytes(i as nat),
        decreases count - i,
    {
        file.push(FILL);
        i = i + 1;
    }
}

/// Appends `header` in a field of `header_len` bytes, filled up with spaces,
/// and returns the field. A header longer than the field is refused, and
/// nothing is written.
pub fn write_header(file: &mut Vec<u8>, header: &str, header_len: u32) -> (r: Result<
    Vec<u8>,
    SnowBinError,
>)
    ensures
        header.spec_bytes().len() > header_len ==> r == Err::<Vec<u8>, SnowBinError>(
            SnowBinError::HeaderTooLong,
        ) && final(file)@ == old(file)@,
        header.spec_bytes().len() <= header_len ==> r is Ok && r->Ok_0@ == fit_tag(
            header.spec_bytes(),
            header_len as nat,
        ) && final(file)@ == old(file)@ + r->Ok_0@,
{
    let bytes = header.as_bytes();
    if bytes.len() > header_len as usize {
        return Err(SnowBinError::HeaderTooLong);
    }
    let mut buffer: Vec<u8> = Vec::new();
    write_bytes(&mut buffer, bytes);
    write_fill(&mut buffer, header_len as usize - bytes.len());
    write_bytes(file, buffer.as_slice());
    Ok(buffer)
}

/// Appends the `width` low bytes of `value`, least significant first.
pub(crate) fn write_le(file: &mut Vec<u8>, value: u64, width: usize)
    ensures
        final(file)@ == old(file)@ + le_bytes(value as nat, width as nat),
{
    let mut rest: u64 = value;
    let mut i: usize = 0;
    while i < width
        invariant
            i <= width,
            file@ + le_bytes(rest as nat, (width - i) as nat) == old(file)@ + le_bytes(
                value as nat,
                width as nat,
            ),
        decreases width - i,
    {
        file.push((rest % 256) as u8);
        rest = rest / 256;
        i = i + 1;
    }
}

/// Appends one byte.
pub fn write_u8(file: &mut Vec<u8>, data: u8)
    ensures
        final(file)@ == old(file)@ + le_bytes(data as nat, 1),
{
    write_le(file, data as u64, 1)
}

/// Appends a 16-bit number, least significant byte first.
pub fn write_u16(file: &mut Vec<u8>, data: u16)
    ensures
        final(file)@ == old(file)@ + le_bytes(data as nat, 2),
{
    write_le(file, data as u64, 2)
}

/// Appends a 32-bit number, least significant byte first.
pub fn write_u32(file: &mut Vec<u8>, data: u32)
    ensures
        final(file)@ == old(file)@ + le_bytes(data as nat, 4),
{
    write_le(file, data as u64, 4)
}

/// Appends a 64-bit number, least significant byte first.
pub fn write_u64(file: &mut Vec<u8>, data: u64)
    ensures
        final(file)@ == old(file)@ + le_bytes(data as nat, 8),
{
    write_le(file, data, 8)
}

/// Appends a truth value as one byte: 1 for `true`, 0 for `false`.
pub fn write_bool(file: &mut Vec<u8>, data: bool)
    ensures
        final(file)@ == old(file)@ + seq![if data { 1u8 } else { 0u8 }],
{
    let byte: u8 = if data { 1 } else { 0 };
    file.push(byte);
}

} // verus!
