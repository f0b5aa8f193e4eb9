//! The decoder: it recovers a container's parameters from the preamble,
//! checks the container's digest and finds an entry's payload by the entry's
//! tag.

use vstd::prelude::*;
use vstd::string::StringSliceAdditionalSpecFns;
use vstd::utf8::{encode_utf8, valid_utf8};
use crate::error::SnowBinError;
use crate::format::{
    fit_tag, le_value, lemma_markers, magic, sentinel, DATA_START, HASH_SIZE,
};
use crate::hash::{blake3_hash, digest_of};
use crate::info::{data_size_allowed, SnowBinInfo, MIN_HEADER_SIZE, VERSION_SPEC};
use crate::reader::{
    read_bytes, read_header, read_u16, read_u32, read_u64, read_u8, string_from_utf8, ByteFile,
};
use crate::writer::write_header;

verus! {

/// What the preamble of a container says: the tag width and the length
/// width, or the first thing that is wrong with it. The preamble is read
/// where it lies, in the first `DATA_START` bytes. The marker is judged
/// first, then the version, then the length width, then the tag width.
pub open spec fn parse_preamble(data: Seq<u8>) -> Result<(u32, u8), SnowBinError> {
    if data.len() < 8 || data.subrange(0, 8) != magic() {
        Err(SnowBinError::MalformedHeader)
    } else if data.len() < 16 {
        Err(SnowBinError::MalformedUInt)
    } else if le_value(data.subrange(8, 16)) != VERSION_SPEC {
        Err(SnowBinError::WrongSpecVersion)
    } else if data.len() < 21 {
        Err(SnowBinError::MalformedUInt)
    } else {
        let header_size = le_value(data.subrange(16, 20)) as u32;
        let data_size = data[20];
        if !data_size_allowed(data_size) {
            Err(SnowBinError::DataSizeNotAllowed)
        } else if header_size < MIN_HEADER_SIZE {
            Err(SnowBinError::HeaderSizeTooSmall)
        } else {
            Ok((header_size, data_size))
        }
    }
}

/// A container without its last `HASH_SIZE` bytes: what the digest covers.
pub open spec fn body_of(data: Seq<u8>) -> Seq<u8> {
    data.subrange(0, data.len() - HASH_SIZE)
}

/// The last `HASH_SIZE` bytes of a container: the digest that it carries.
pub open spec fn trailer_of(data: Seq<u8>) -> Seq<u8> {
    data.subrange(data.len() - HASH_SIZE, data.len() as int)
}

/// Whether a container ends in the BLAKE3 hash of all that stands before it.
pub open spec fn digest_matches(data: Seq<u8>) -> bool {
    data.len() >= HASH_SIZE && trailer_of(data) == blake3_hash(body_of(data))@
}

/// What opening a container yields: the preamble is read first, and what
/// is wrong with it is reported; the digest is checked for a preamble that
/// is in order.
pub open spec fn open_container(data: Seq<u8>) -> Result<(u32, u8), SnowBinError> {
    match parse_preamble(data) {
        Err(e) => Err(e),
        Ok(widths) => if digest_matches(data) {
            Ok(widths)
        } else {
            Err(SnowBinError::HashDoesNotMatch)
        },
    }
}

/// The scan for the entry whose tag field holds `want`, from the entry that
/// starts at `pos`: an entry with another tag is passed over, the sentinel
/// ends the scan, and so does the end of the body.
pub open spec fn find_entry(info: SnowBinInfo, body: Seq<u8>, want: Seq<u8>, pos: nat) -> Result<
    Seq<u8>,
    SnowBinError,
>
    decreases body.len() - pos,
    when info.tag_width() > 0
{
    let tag_end = pos + info.tag_width();
    let start = tag_end + info.length_width();
    if tag_end > body.len() {
        Err(SnowBinError::ReachedEOF)
    } else if !valid_utf8(body.subrange(pos as int, tag_end as int)) {
        Err(SnowBinError::MalformedHeader)
    } else if body.subrange(pos as int, tag_end as int) == sentinel(info) {
        Err(SnowBinError::ReachedEOF)
    } else if start > body.len() {
        Err(SnowBinError::MalformedUInt)
    } else {
        let size = le_value(body.subrange(tag_end as int, start as int));
        if start + size > body.len() {
            Err(SnowBinError::ReachedEOF)
        } else if body.subrange(pos as int, tag_end as int) == want {
            Ok(body.subrange(start as int, (start + size) as int))
        } else {
            find_entry(info, body, want, start + size)
        }
    }
}

/// What looking up `tag` in a container's body yields: the tag is brought to
/// the tag width, must then still be text, and is searched from the first
/// entry on.
pub open spec fn lookup(info: SnowBinInfo, body: Seq<u8>, tag: Seq<u8>) -> Result<
    Seq<u8>,
    SnowBinError,
> {
    if !valid_utf8(fit_tag(tag, info.tag_width())) {
        Err(SnowBinError::MalformedHeader)
    } else {
        find_entry(info, body, fit_tag(tag, info.tag_width()), DATA_START as nat)
    }
}

/// Whether two runs of bytes are the same.
fn same_bytes(a: &[u8], b: &[u8]) -> (same: bool)
    ensures
        same == (a@ == b@),
{
    if a.len() != b.len() {
        return false;
    }
    let mut i: usize = 0;
    while i < a.len()
        invariant
            i <= a.len(),
            a@.len() == b@.len(),
            a@.subrange(0, i as int) == b@.subrange(0, i as int),
        decreases a.len() - i,
    {
        if a[i] != b[i] {
            return false;
        }
        i = i + 1;
    }
    assert(a@.subrange(0, i as int) =~= a@);
    assert(b@.subrange(0, i as int) =~= b@);
    true
}

/// `header` in a field of `width` bytes: filled up with spaces, or cut.
fn fit_header(header: &str, width: u32) -> (field: Vec<u8>)
    ensures
        field@ == fit_tag(header.spec_bytes(), width as nat),
{
    let mut field: Vec<u8> = Vec::new();
    match write_header(&mut field, header, width) {
        Ok(_) => field,
        Err(_) => {
            let bytes = header.as_bytes();
            let mut i: usize = 0;
            while i < width as usize
                invariant
                    i <= width,
                    width < bytes@.len(),
                    field@ == bytes@.subrange(0, i as int),
                decreases width - i,
            {
                field.push(bytes[i]);
                i = i + 1;
            }
            field
        },
    }
}

/// Reads entries of a finished container by their tags.
#[derive(Debug)]
pub struct SnowBinReader {
    info: SnowBinInfo,
    file: ByteFile,
}

impl SnowBinReader {
    /// The parameters that the container was written with.
    pub closed spec fn spec_info(&self) -> SnowBinInfo {
        self.info
    }

    /// The parameters that the container was written with.
    #[verifier::when_used_as_spec(spec_info)]
    pub fn info(&self) -> (info: SnowBinInfo)
        ensures
            info == self.spec_info(),
    {
        self.info
    }

    /// The body of the container: all of it but the digest.
    pub closed spec fn body(&self) -> Seq<u8> {
        self.file.bytes()
    }

    /// Opens a container that is held in memory: reads its parameters from
    /// its preamble, then checks its digest.
    pub fn new(data: Vec<u8>) -> (r: Result<Self, SnowBinError>)
        ensures
            match r {
                Ok(reader) => open_container(data@) == Ok::<(u32, u8), SnowBinError>(
                    (reader.info().spec_header_size(), reader.info().spec_data_size()),
                ) && reader.info().wf() && reader.body() == body_of(data@),
                Err(e) => open_container(data@) == Err::<(u32, u8), SnowBinError>(e),
            },
    {
        let mut file = ByteFile::new(data);
        match Self::read_info(&mut file) {
            Ok(info) => Ok(Self { info, file }),
            Err(e) => Err(e),
        }
    }

    /// Reads the parameters from the preamble of the container in `file`,
    /// then checks the container's digest and cuts it off.
    pub fn read_info(file: &mut ByteFile) -> (r: Result<SnowBinInfo, SnowBinError>)
        ensures
            match r {
                Ok(info) => open_container(old(file).bytes()) == Ok::<(u32, u8), SnowBinError>(
                    (info.spec_header_size(), info.spec_data_size()),
                ) && info.wf() && final(file).bytes() == body_of(old(file).bytes()),
                Err(e) => open_container(old(file).bytes()) == Err::<(u32, u8), SnowBinError>(e),
            },
    {
        let ghost data = file.bytes();
        // The preamble.
        file.rewind();
        proof {
            lemma_markers();
            if file.has(8) {
                assert(file.chunk(8) =~= data.subrange(0, 8));
            }
        }
        match read_header(file, 8) {
            Ok(snow_header) => {
                if !same_bytes(snow_header.as_str().as_bytes(), "SNOW_BIN".as_bytes()) {
                    return Err(SnowBinError::MalformedHeader);
                }
            },
            Err(_) => {
                return Err(SnowBinError::MalformedHeader);
            },
        }

        assert(file.has(8) ==> file.chunk(8) =~= data.subrange(8, 16));
        let version: u64 = match read_u64(file) {
            Ok(version) => version,
            Err(e) => {
                return Err(e);
            },
        };
        if version != VERSION_SPEC {
            return Err(SnowBinError::WrongSpecVersion);
        }
        assert(file.has(4) ==> file.chunk(4) =~= data.subrange(16, 20));
        let header_size: u32 = match read_u32(file) {
            Ok(header_size) => header_size,
            Err(e) => {
                return Err(e);
            },
        };
        assert(file.has(1) ==> file.chunk(1) =~= data.subrange(20, 21));
        let data_size: u8 = match read_u8(file) {
            Ok(data_size) => data_size,
            Err(e) => {
                return Err(e);
            },
        };
        proof {
            reveal_with_fuel(le_value, 2);
            assert(data_size == data[20]);
        }
        if !(data_size == 8 || data_size == 16 || data_size == 32 || data_size == 64) {
            return Err(SnowBinError::DataSizeNotAllowed);
        }
        let info = match SnowBinInfo::new(header_size, data_size) {
            Ok(info) => info,
            Err(e) => {
                return Err(e);
            },
        };

        // The digest.
        let total: usize = file.len();
        if total < HASH_SIZE as usize {
            return Err(SnowBinError::HashDoesNotMatch);
        }
        let body_len: usize = total - HASH_SIZE as usize;
        file.rewind();
        let body = match read_bytes(file, body_len as u64) {
            Ok(body) => body,
            Err(e) => {
                return Err(e);
            },
        };
        let read_hash = match read_bytes(file, HASH_SIZE as u64) {
            Ok(read_hash) => read_hash,
            Err(e) => {
                return Err(e);
            },
        };
        let hash: [u8; 32] = digest_of(body.as_slice());
        assert(body@ =~= body_of(data));
        assert(read_hash@ =~= trailer_of(data));
        if !same_bytes(read_hash.as_slice(), hash.as_slice()) {
            return Err(SnowBinError::HashDoesNotMatch);
        }
        file.truncate(body_len);
        Ok(info)
    }

    /// Finds the payload of the first entry whose tag field holds `header`,
    /// scanning from the first entry on.
    ///
    /// `header` is brought to the tag width as the encoder does it, and cut
    /// where it is longer. The scan ends without a payload at the sentinel
    /// and at the end of the body.
    pub fn read(&mut self, header: &str) -> (r: Result<Vec<u8>, SnowBinError>)
        ensures
            final(self).info() == old(self).info(),
            final(self).body() == old(self).body(),
            match r {
                Ok(data) => lookup(old(self).info(), old(self).body(), header.spec_bytes())
                    == Ok::<Seq<u8>, SnowBinError>(data@),
                Err(e) => lookup(old(self).info(), old(self).body(), header.spec_bytes())
                    == Err::<Seq<u8>, SnowBinError>(e),
            },
    {
        let info = self.info;
        let header_size: u32 = info.header_size();
        let data_size: u8 = info.data_size();
        let ghost body = self.file.bytes();
        proof {
            self.file.lemma_len_bound();
        }
        self.file.seek_to(DATA_START as usize);

        let want = match string_from_utf8(fit_header(header, header_size)) {
            Some(want) => want,
            None => {
                return Err(SnowBinError::MalformedHeader);
            },
        };
        let ghost wanted = fit_tag(header.spec_bytes(), info.tag_width());
        let end = fit_header("SNOW_END", header_size);
        proof {
            lemma_markers();
        }

        loop
            invariant
                self.info == info,
                info == old(self).info,
                body == old(self).file.bytes(),
                info.tag_width() >= MIN_HEADER_SIZE,
                data_size_allowed(data_size),
                header_size == info.spec_header_size(),
                data_size == info.spec_data_size(),
                self.file.bytes() == body,
                body.len() <= usize::MAX,
                end@ == sentinel(info),
                encode_utf8(want@) == wanted,
                wanted == fit_tag(header.spec_bytes(), info.tag_width()),
                valid_utf8(wanted),
                find_entry(info, body, wanted, DATA_START as nat) == find_entry(
                    info,
                    body,
                    wanted,
                    self.file.pos(),
                ),
            decreases body.len() - self.file.pos(),
        {
            let f_header = match read_header(&mut self.file, header_size) {
                Ok(f_header) => f_header,
                Err(e) => {
                    return Err(e);
                },
            };
            if same_bytes(f_header.as_str().as_bytes(), end.as_slice()) {
                return Err(SnowBinError::ReachedEOF);
            }
            let size: u64 = if data_size == 8 {
                match read_u8(&mut self.file) {
                    Ok(size) => size as u64,
                    Err(e) => {
                        return Err(e);
                    },
                }
            } else if data_size == 16 {
                match read_u16(&mut self.file) {
                    Ok(size) => size as u64,
                    Err(e) => {
                        return Err(e);
                    },
                }
            } else if data_size == 32 {
                match read_u32(&mut self.file) {
                    Ok(size) => size as u64,
                    Err(e) => {
                        return Err(e);
                    },
                }
            } else {
                match read_u64(&mut self.file) {
                    Ok(size) => size,
                    Err(e) => {
                        return Err(e);
                    },
                }
            };
            if same_bytes(f_header.as_str().as_bytes(), want.as_str().as_bytes()) {
                return read_bytes(&mut self.file, size);
            }
            if !self.file.skip(size) {
                return Err(SnowBinError::ReachedEOF);
            }
        }
    }
}

} // verus!
