//! Reading the fields of a container from a file image held in memory.

use vstd::prelude::*;
use vstd::utf8::{encode_utf8, valid_utf8};
use crate::error::SnowBinError;
use crate::format::{le_value, lemma_le_value_bound, lemma_pow256_values, pow256};

verus! {

/// Maps the outcome of a read on a file to this library's result.
pub fn error(result: Result<usize, std::io::Error>) -> (r: Result<usize, SnowBinError>)
    ensures
        result is Ok ==> r == Ok::<usize, SnowBinError>(result->Ok_0),
        result is Err ==> r == Err::<usize, SnowBinError>(SnowBinError::IOReadError),
{
    match result {
        Ok(count) => Ok(count),
        Err(_) => Err(SnowBinError::IOReadError),
    }
}

/// The bytes of a file, held in memory, with a read position. The position
/// may lie behind the last byte: nothing can be read there.
#[derive(Debug)]
pub struct ByteFile {
    data: Vec<u8>,
    pos: usize,
}

impl ByteFile {
    /// The bytes of the file.
    pub closed spec fn bytes(&self) -> Seq<u8> {
        self.data@
    }

    /// The read position, counted from the first byte.
    pub closed spec fn pos(&self) -> nat {
        self.pos as nat
    }

    /// Whether `count` bytes lie at and behind the read position.
    pub open spec fn has(&self, count: nat) -> bool {
        self.pos() + count <= self.bytes().len()
    }

    /// A file in memory is no longer than memory can address.
    pub proof fn lemma_len_bound(&self)
        ensures
            self.bytes().len() <= usize::MAX,
    {
        assert(self.data.len() == self.data@.len());
    }

    /// The `count` bytes at the read position.
    pub open spec fn chunk(&self, count: nat) -> Seq<u8> {
        self.bytes().subrange(self.pos() as int, (self.pos() + count) as int)
    }

    /// A file of the given bytes, positioned at its first byte.
    pub fn new(data: Vec<u8>) -> (file: Self)
        ensures
            file.bytes() == data@,
            file.pos() == 0,
    {
        ByteFile { data, pos: 0 }
    }

    /// The length of the file.
    pub fn len(&self) -> (len: usize)
        ensures
            len == self.bytes().len(),
    {
        self.data.len()
    }

    /// The read position.
    pub fn position(&self) -> (pos: usize)
        ensures
            pos == self.pos(),
    {
        self.pos
    }

    /// The bytes of the file.
    pub fn as_bytes(&self) -> (bytes: &[u8])
        ensures
            bytes@ == self.bytes(),
    {
        self.data.as_slice()
    }

    /// Moves the read position to `pos`.
    pub fn seek_to(&mut self, pos: usize)
        ensures
            final(self).bytes() == old(self).bytes(),
            final(self).pos() == pos,
    {
        self.pos = pos;
    }

    /// Moves the read position to the first byte.
    pub fn rewind(&mut self)
        ensures
            final(self).bytes() == old(self).bytes(),
            final(self).pos() == 0,
    {
        self.pos = 0;
    }

    /// Moves the read position forward by `count` bytes, where that many are
    /// left; otherwise the position stays and the result is `false`.
    pub fn skip(&mut self, count: u64) -> (moved: bool)
        ensures
            final(self).bytes() == old(self).bytes(),
            moved == old(self).has(count as nat),
            moved ==> final(self).pos() == old(self).pos() + count,
            !moved ==> final(self).pos() == old(self).pos(),
    {
        let len: usize = self.data.len();
        if self.pos > len || count > (len - self.pos) as u64 {
            return false;
        }
        self.pos = self.pos + count as usize;
        true
    }

    /// Cuts the file down to its first `len` bytes; a file that is not
    /// longer stays as it is.
    pub fn truncate(&mut self, len: usize)
        ensures
            final(self).pos() == old(self).pos(),
            len <= old(self).bytes().len() ==> final(self).bytes() == old(self).bytes().subrange(
                0,
                len as int,
            ),
            len > old(self).bytes().len() ==> final(self).bytes() == old(self).bytes(),
    {
        self.data.truncate(len);
    }

    /// Reads `count` bytes and moves behind them. Where fewer are left,
    /// nothing is read and the position stays.
    pub fn take(&mut self, count: usize) -> (r: Option<Vec<u8>>)
        ensures
            final(self).bytes() == old(self).bytes(),
            !old(self).has(count as nat) ==> r is None && final(self).pos() == old(self).pos(),
            old(self).has(count as nat) ==> r is Some && r->Some_0@ == old(self).chunk(
                count as nat,
            ) && final(self).pos() == old(self).pos() + count,
    {
        let len: usize = self.data.len();
        if self.pos > len || count > len - self.pos {
            return None;
        }
        let start: usize = self.pos;
        let mut out: Vec<u8> = Vec::new();
        let mut i: usize = 0;
        while i < count
            invariant
                i <= count,
                start + count <= self.data@.len(),
                self.data@.len() <= usize::MAX,
                out@ == self.data@.subrange(start as int, start + i),
            decreases count - i,
        {
            out.push(self.data[start + i]);
            i = i + 1;
        }
        self.pos = start + count;
        Some(out)
    }
}

/// std's `String::from_utf8`: a string with exactly the given bytes where
/// they are valid UTF-8, and nothing where they are not.
#[verifier::external_body]
pub(crate) fn string_from_utf8(bytes: Vec<u8>) -> (r: Option<String>)
    ensures
        r is Some <==> valid_utf8(bytes@),
        r is Some ==> encode_utf8(r->Some_0@) == bytes@,
{
    String::from_utf8(bytes).ok()
}

/// Reads a tag field of `header_len` bytes as text.
///
/// Where fewer bytes are left the end of the file was reached, and nothing is
/// read. A field that is not UTF-8 is read and refused.
pub fn read_header(file: &mut ByteFile, header_len: u32) -> (r: Result<String, SnowBinError>)
    ensures
        final(file).bytes() == old(file).bytes(),
        !old(file).has(header_len as nat) ==> r == Err::<String, SnowBinError>(
            SnowBinError::ReachedEOF,
        ) && final(file).pos() == old(file).pos(),
        old(file).has(header_len as nat) ==> final(file).pos() == old(file).pos() + header_len,
        old(file).has(header_len as nat) && !valid_utf8(old(file).chunk(header_len as nat))
            ==> r == Err::<String, SnowBinError>(SnowBinError::MalformedHeader),
        old(file).has(header_len as nat) && valid_utf8(old(file).chunk(header_len as nat))
            ==> r is Ok && encode_utf8(r->Ok_0@) == old(file).chunk(header_len as nat),
{
    match file.take(header_len as usize) {
        None => Err(SnowBinError::ReachedEOF),
        Some(buffer) => match string_from_utf8(buffer) {
            Some(text) => Ok(text),
            None => Err(SnowBinError::MalformedHeader),
        },
    }
}

/// Reads `length` bytes. Where fewer are left the end of the file was
/// reached, and nothing is read.
pub fn read_bytes(file: &mut ByteFile, length: u64) -> (r: Result<Vec<u8>, SnowBinError>)
    ensures
        final(file).bytes() == old(file).bytes(),
        !old(file).has(length as nat) ==> r == Err::<Vec<u8>, SnowBinError>(
            SnowBinError::ReachedEOF,
        ) && final(file).pos() == old(file).pos(),
        old(file).has(length as nat) ==> r is Ok && r->Ok_0@ == old(file).chunk(length as nat)
            && final(file).pos() == old(file).pos() + length,
{
    proof {
        file.lemma_len_bound();
    }
    if length > usize::MAX as u64 {
        return Err(SnowBinError::ReachedEOF);
    }
    match file.take(length as usize) {
        None => Err(SnowBinError::ReachedEOF),
        Some(buffer) => Ok(buffer),
    }
}

/// Reads a number of `width` bytes, least significant byte first.
fn read_le(file: &mut ByteFile, width: usize) -> (r: Result<u64, SnowBinError>)
    requires
        width <= 8,
    ensures
        final(file).bytes() == old(file).bytes(),
        !old(file).has(width as nat) ==> r == Err::<u64, SnowBinError>(
            SnowBinError::MalformedUInt,
        ) && final(file).pos() == old(file).pos(),
        old(file).has(width as nat) ==> r is Ok && r->Ok_0 == le_value(
            old(file).chunk(width as nat),
        ) && final(file).pos() == old(file).pos() + width,
{
    let buffer = match file.take(width) {
        None => {
            return Err(SnowBinError::MalformedUInt);
        },
        Some(buffer) => buffer,
    };
    let mut value: u64 = 0;
    let mut i: usize = width;
    while i > 0
        invariant
            i <= width,
            width <= 8,
            buffer@.len() == width,
            value == le_value(buffer@.subrange(i as int, width as int)),
        decreases i,
    {
        i = i - 1;
        proof {
            let tail = buffer@.subrange(i as int, width as int);
            assert(tail.drop_first() =~= buffer@.subrange(i + 1, width as int));
            lemma_le_value_bound(tail);
            lemma_le_value_bound(tail.drop_first());
            lemma_pow256_bound(tail.len());
        }
        value = value * 256 + buffer[i] as u64;
    }
    assert(buffer@.subrange(0, width as int) =~= buffer@);
    Ok(value)
}

/// A number of at most eight bytes fits 64 bits.
proof fn lemma_pow256_bound(width: nat)
    requires
        width <= 8,
    ensures
        pow256(width) <= 0x1_0000_0000_0000_0000,
{
    reveal_with_fuel(pow256, 9);
}

/// Reads one byte as a number. At the end of the file there is none.
pub fn read_u8(file: &mut ByteFile) -> (r: Result<u8, SnowBinError>)
    ensures
        final(file).bytes() == old(file).bytes(),
        !old(file).has(1) ==> r == Err::<u8, SnowBinError>(SnowBinError::MalformedUInt)
            && final(file).pos() == old(file).pos(),
        old(file).has(1) ==> r is Ok && r->Ok_0 == le_value(old(file).chunk(1))
            && final(file).pos() == old(file).pos() + 1,
{
    proof {
        lemma_le_value_bound(old(file).chunk(1));
        lemma_pow256_values();
    }
    match read_le(file, 1) {
        Ok(value) => Ok(value as u8),
        Err(e) => Err(e),
    }
}

/// Reads a 16-bit number, least significant byte first.
pub fn read_u16(file: &mut ByteFile) -> (r: Result<u16, SnowBinError>)
    ensures
        final(file).bytes() == old(file).bytes(),
        !old(file).has(2) ==> r == Err::<u16, SnowBinError>(SnowBinError::MalformedUInt)
            && final(file).pos() == old(file).pos(),
        old(file).has(2) ==> r is Ok && r->Ok_0 == le_value(old(file).chunk(2))
            && final(file).pos() == old(file).pos() + 2,
{
    proof {
        lemma_le_value_bound(old(file).chunk(2));
        lemma_pow256_values();
    }
    match read_le(file, 2) {
        Ok(value) => Ok(value as u16),
        Err(e) => Err(e),
    }
}

/// Reads a 32-bit number, least significant byte first.
pub fn read_u32(file: &mut ByteFile) -> (r: Result<u32, SnowBinError>)
    ensures
        final(file).bytes() == old(file).bytes(),
        !old(file).has(4) ==> r == Err::<u32, SnowBinError>(SnowBinError::MalformedUInt)
            && final(file).pos() == old(file).pos(),
        old(file).has(4) ==> r is Ok && r->Ok_0 == le_value(old(file).chunk(4))
            && final(file).pos() == old(file).pos() + 4,
{
    proof {
        lemma_le_value_bound(old(file).chunk(4));
        lemma_pow256_values();
    }
    match read_le(file, 4) {
        Ok(value) => Ok(value as u32),
        Err(e) => Err(e),
    }
}

/// Reads a 64-bit number, least significant byte first.
pub fn read_u64(file: &mut ByteFile) -> (r: Result<u64, SnowBinError>)
    ensures
        final(file).bytes() == old(file).bytes(),
        !old(file).has(8) ==> r == Err::<u64, SnowBinError>(SnowBinError::MalformedUInt)
            && final(file).pos() == old(file).pos(),
        old(file).has(8) ==> r is Ok && r->Ok_0 == le_value(old(file).chunk(8))
            && final(file).pos() == old(file).pos() + 8,
{
    read_le(file, 8)
}

/// Reads one byte as a truth value: zero is `false`, anything else `true`.
pub fn read_bool(file: &mut ByteFile) -> (r: Result<bool, SnowBinError>)
    ensures
        final(file).bytes() == old(file).bytes(),
        !old(file).has(1) ==> r == Err::<bool, SnowBinError>(SnowBinError::MalformedUInt)
            && final(file).pos() == old(file).pos(),
        old(file).has(1) ==> r is Ok && r->Ok_0 == (old(file).chunk(1)[0] != 0)
            && final(file).pos() == old(file).pos() + 1,
{
    proof {
        reveal_with_fuel(le_value, 2);
    }
    match read_u8(file) {
        Ok(byte) => Ok(byte != 0),
        Err(e) => Err(e),
    }
}

} // verus!
