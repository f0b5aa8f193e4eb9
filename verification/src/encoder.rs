//! The encoder: it takes entries one by one and produces the bytes of the
//! container, hashing every byte that it produces.
//!
//! The bytes collect in the encoder until they are taken from it, so that
//! they can be put where they belong piece by piece.

use vstd::prelude::*;
use vstd::string::StringSliceAdditionalSpecFns;
use crate::error::SnowBinError;
use crate::format::{
    entry_bytes, lemma_entries_bytes_push, lemma_markers, lemma_max_data_len,
    max_data_len, open_stream, preamble, sentinel, stream_bytes, Entry,
};
use crate::hash::{
    blake3_hash, hasher_finalize, hasher_input, hasher_new, hasher_regular, hasher_update,
};
use crate::info::{SnowBinInfo, VERSION_SPEC};
use crate::writer::{write_bytes, write_header, write_u16, write_u32, write_u64, write_u8};

verus! {

/// Builds a container from a sequence of writes. It is sealed once: after
/// `close` it takes nothing more.
pub struct SnowBinWriter {
    info: SnowBinInfo,
    /// The bytes produced and not yet taken.
    file: Vec<u8>,
    hasher: blake3::Hasher,
    done: bool,
    /// The bytes produced and taken.
    taken: Ghost<Seq<u8>>,
    entries: Ghost<Seq<Entry>>,
}

impl SnowBinWriter {
    /// The encoder's invariant: the bytes are those of the entries written
    /// so far, and an open encoder's hash state has been given exactly them.
    pub closed spec fn wf(&self) -> bool {
        &&& self.info.wf()
        &&& hasher_regular(self.hasher)
        &&& self.taken@ + self.file@ == stream_bytes(self.info, self.entries@, self.done)
        &&& !self.done ==> hasher_input(self.hasher) == self.taken@ + self.file@
    }

    /// The parameters that the container is written with.
    pub closed spec fn spec_info(&self) -> SnowBinInfo {
        self.info
    }

    /// The bytes produced so far that have been taken from the encoder.
    pub closed spec fn taken(&self) -> Seq<u8> {
        self.taken@
    }

    /// The bytes produced so far that are still in the encoder.
    pub closed spec fn pending(&self) -> Seq<u8> {
        self.file@
    }

    /// Every byte produced so far: the container up to here.
    pub open spec fn bytes(&self) -> Seq<u8> {
        self.taken() + self.pending()
    }

    /// Whether the container has been sealed.
    pub closed spec fn closed(&self) -> bool {
        self.done
    }

    /// The entries written so far, as pairs of tag and payload.
    pub closed spec fn entries(&self) -> Seq<Entry> {
        self.entries@
    }

    /// What the invariant says of the encoder's view: the bytes produced are
    /// the preamble and the entries written, and for a sealed encoder the
    /// sentinel and the digest behind them.
    pub proof fn lemma_wf(&self)
        requires
            self.wf(),
        ensures
            self.spec_info().wf(),
            self.bytes() == stream_bytes(self.spec_info(), self.entries(), self.closed()),
    {
    }

    /// Starts a container: the stream holds the preamble, and the hash state
    /// has been given the same bytes.
    pub fn new(info: SnowBinInfo) -> (writer: Self)
        ensures
            writer.wf(),
            writer.spec_info() == info,
            writer.taken() == Seq::<u8>::empty(),
            writer.pending() == preamble(info),
            writer.entries() == Seq::<Entry>::empty(),
            !writer.closed(),
    {
        let mut file: Vec<u8> = Vec::new();
        let mut hasher = hasher_new();
        Self::init_file(&mut file, &mut hasher, info);
        Self {
            info,
            file,
            hasher,
            done: false,
            taken: Ghost(Seq::empty()),
            entries: Ghost(Seq::empty()),
        }
    }

    /// Writes the preamble to `file` and gives the same bytes to `hasher`.
    fn init_file(file: &mut Vec<u8>, hasher: &mut blake3::Hasher, info: SnowBinInfo)
        requires
            hasher_regular(*old(hasher)),
        ensures
            hasher_regular(*final(hasher)),
            final(file)@ == old(file)@ + preamble(info),
            hasher_input(*final(hasher)) == hasher_input(*old(hasher)) + preamble(info),
            info.wf(),
    {
        let mut head: Vec<u8> = Vec::new();
        proof {
            lemma_markers();
        }
        let _ = write_header(&mut head, "SNOW_BIN", 8);
        write_u64(&mut head, VERSION_SPEC);
        write_u32(&mut head, info.header_size());
        write_u8(&mut head, info.data_size());
        write_bytes(file, head.as_slice());
        hasher_update(hasher, head.as_slice());
    }

    /// Largest payload length that the length field can hold.
    pub fn get_max_size(&self) -> (r: Result<u64, SnowBinError>)
        requires
            self.wf(),
        ensures
            r is Ok,
            r->Ok_0 == max_data_len(self.spec_info().spec_data_size()),
    {
        proof {
            lemma_max_data_len(self.info.spec_data_size());
        }
        let data_size: u8 = self.info.data_size();
        if data_size == 8 {
            Ok(0xff)
        } else if data_size == 16 {
            Ok(0xffff)
        } else if data_size == 32 {
            Ok(0xffff_ffff)
        } else if data_size == 64 {
            Ok(0xffff_ffff_ffff_ffff)
        } else {
            Err(SnowBinError::DataSizeNotAllowed)
        }
    }

    /// Appends one entry: the tag in its field, the payload's length, the
    /// payload. A refused write leaves the encoder as it was.
    ///
    /// A sealed encoder refuses every write. An open one refuses a tag
    /// longer than the tag field, and then a payload longer than the length
    /// field can say.
    pub fn write(&mut self, header: &str, data: &[u8]) -> (r: Result<(), SnowBinError>)
        requires
            old(self).wf(),
        ensures
            final(self).wf(),
            final(self).spec_info() == old(self).spec_info(),
            final(self).taken() == old(self).taken(),
            final(self).closed() == old(self).closed(),
            old(self).closed() ==> r == Err::<(), SnowBinError>(SnowBinError::IOWriterClosed),
            !old(self).closed() && header.spec_bytes().len() > old(self).spec_info().tag_width()
                ==> r == Err::<(), SnowBinError>(SnowBinError::HeaderTooLong),
            !old(self).closed() && header.spec_bytes().len() <= old(self).spec_info().tag_width()
                && data@.len() > max_data_len(old(self).spec_info().spec_data_size()) ==> r
                == Err::<(), SnowBinError>(SnowBinError::DataTooLong),
            !old(self).closed() && header.spec_bytes().len() <= old(self).spec_info().tag_width()
                && data@.len() <= max_data_len(old(self).spec_info().spec_data_size()) ==> r
                is Ok,
            r is Err ==> final(self).pending() == old(self).pending() && final(self).entries()
                == old(self).entries(),
            r is Ok ==> final(self).pending() == old(self).pending() + entry_bytes(
                old(self).spec_info(),
                header.spec_bytes(),
                data@,
            ) && final(self).entries() == old(self).entries().push((header.spec_bytes(), data@)),
    {
        if self.done {
            return Err(SnowBinError::IOWriterClosed);
        }
        // Check
        let header_size: u32 = self.info.header_size();
        if header.as_bytes().len() > header_size as usize {
            return Err(SnowBinError::HeaderTooLong);
        }
        let max: u64 = match self.get_max_size() {
            Ok(max) => max,
            Err(e) => {
                return Err(e);
            },
        };
        if data.len() as u64 > max {
            return Err(SnowBinError::DataTooLong);
        }
        // Write Data

        let mut entry: Vec<u8> = Vec::new();
        let _ = write_header(&mut entry, header, header_size);
        let data_size: u8 = self.info.data_size();
        proof {
            lemma_max_data_len(data_size);
        }
        if data_size == 8 {
            write_u8(&mut entry, data.len() as u8);
        } else if data_size == 16 {
            write_u16(&mut entry, data.len() as u16);
        } else if data_size == 32 {
            write_u32(&mut entry, data.len() as u32);
        } else {
            write_u64(&mut entry, data.len() as u64);
        }
        write_bytes(&mut entry, data);
        proof {
            lemma_entries_bytes_push(self.info, self.entries@, (header.spec_bytes(), data@));
            assert(open_stream(self.info, self.entries@.push((header.spec_bytes(), data@)))
                =~= open_stream(self.info, self.entries@) + entry@);
            assert((self.taken@ + self.file@) + entry@ =~= self.taken@ + (self.file@ + entry@));
        }
        write_bytes(&mut self.file, entry.as_slice());
        hasher_update(&mut self.hasher, entry.as_slice());
        self.entries = Ghost(self.entries@.push((header.spec_bytes(), data@)));
        Ok(())
    }

    /// Seals the container: appends the sentinel, and behind it the hash of
    /// everything produced up to and including the sentinel. A second call
    /// is refused.
    pub fn close(&mut self) -> (r: Result<(), SnowBinError>)
        requires
            old(self).wf(),
        ensures
            final(self).wf(),
            final(self).spec_info() == old(self).spec_info(),
            final(self).entries() == old(self).entries(),
            final(self).taken() == old(self).taken(),
            final(self).closed(),
            old(self).closed() ==> r == Err::<(), SnowBinError>(SnowBinError::IOWriterClosed)
                && final(self).pending() == old(self).pending(),
            !old(self).closed() ==> r is Ok && final(self).pending() == old(self).pending()
                + sentinel(old(self).spec_info()) + blake3_hash(
                old(self).bytes() + sentinel(old(self).spec_info()),
            )@,
    {
        if self.done {
            return Err(SnowBinError::IOWriterClosed);
        }
        let mut tail: Vec<u8> = Vec::new();
        proof {
            lemma_markers();
        }
        let _ = write_header(&mut tail, "SNOW_END", self.info.header_size());

        // Write hash
        hasher_update(&mut self.hasher, tail.as_slice());
        let hash: [u8; 32] = hasher_finalize(&self.hasher);
        let ghost body = self.taken@ + self.file@ + tail@;
        write_bytes(&mut self.file, tail.as_slice());
        write_bytes(&mut self.file, hash.as_slice());
        assert(self.taken@ + self.file@ =~= body + hash@);

        self.done = true;
        Ok(())
    }

    /// Whether the container has been sealed.
    pub fn is_closed(&self) -> (done: bool)
        ensures
            done == self.closed(),
    {
        self.done
    }

    /// The parameters that the container is written with.
    #[verifier::when_used_as_spec(spec_info)]
    pub fn info(&self) -> (info: SnowBinInfo)
        ensures
            info == self.spec_info(),
    {
        self.info
    }

    /// The bytes that are still in the encoder: the container up to here,
    /// where nothing has been taken.
    pub fn as_bytes(&self) -> (bytes: &[u8])
        ensures
            bytes@ == self.pending(),
    {
        self.file.as_slice()
    }

    /// Takes the bytes that are still in the encoder: all that it produced
    /// since the last call. The encoder goes on from where it is.
    pub fn take_pending(&mut self) -> (bytes: Vec<u8>)
        requires
            old(self).wf(),
        ensures
            final(self).wf(),
            bytes@ == old(self).pending(),
            final(self).pending() == Seq::<u8>::empty(),
            final(self).taken() == old(self).taken() + old(self).pending(),
            final(self).spec_info() == old(self).spec_info(),
            final(self).entries() == old(self).entries(),
            final(self).closed() == old(self).closed(),
    {
        let mut bytes: Vec<u8> = Vec::new();
        let ghost all = self.taken@ + self.file@;
        core::mem::swap(&mut bytes, &mut self.file);
        self.taken = Ghost(all);
        bytes
    }

    /// Gives up the encoder for the bytes that are still in it.
    pub fn into_bytes(self) -> (bytes: Vec<u8>)
        ensures
            bytes@ == self.pending(),
    {
        self.file
    }
}

} // verus!
