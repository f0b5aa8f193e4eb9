use vstd::prelude::*;
use crate::error::SnowBinError;

verus! {

/// The version of the format that this library reads and writes.
pub const VERSION_SPEC: u64 = 2;

/// Width of a tag field when none is chosen.
pub const DEFAULT_HEADER_SIZE: u32 = 8;

/// Width in bits of a length field when none is chosen.
pub const DEFAULT_DATA_SIZE: u8 = 64;

/// Smallest width of a tag field.
pub const MIN_HEADER_SIZE: u32 = 8;

/// The widths, in bits, that a length field may have.
pub open spec fn data_size_allowed(data_size: u8) -> bool {
    data_size == 8 || data_size == 16 || data_size == 32 || data_size == 64
}

/// The parameters of a container: the width in bytes of every tag field and
/// the width in bits of every length field.
#[derive(Copy, Clone, Eq, PartialEq, Debug, Structural)]
pub struct SnowBinInfo {
    header_size: u32,
    data_size: u8,
}

impl SnowBinInfo {
    #[verifier::type_invariant]
    spec fn valid(self) -> bool {
        self.header_size >= MIN_HEADER_SIZE && data_size_allowed(self.data_size)
    }

    /// Width in bytes of a tag field.
    pub closed spec fn spec_header_size(&self) -> u32 {
        self.header_size
    }

    /// Width in bits of a length field.
    pub closed spec fn spec_data_size(&self) -> u8 {
        self.data_size
    }

    /// Whether the parameters are in range: a tag field of at least 8 bytes
    /// and a length field of an allowed width. Every value that executable
    /// code holds is; a value that is only spoken of in a proof need not be.
    pub open spec fn wf(self) -> bool {
        self.spec_header_size() >= MIN_HEADER_SIZE && data_size_allowed(self.spec_data_size())
    }

    /// Validates the two widths and builds the parameters from them.
    pub fn new(header_size: u32, data_size: u8) -> (r: Result<Self, SnowBinError>)
        ensures
            header_size < MIN_HEADER_SIZE ==> r == Err::<Self, SnowBinError>(
                SnowBinError::HeaderSizeTooSmall,
            ),
            header_size >= MIN_HEADER_SIZE && !data_size_allowed(data_size) ==> r == Err::<
                Self,
                SnowBinError,
            >(SnowBinError::DataSizeNotAllowed),
            header_size >= MIN_HEADER_SIZE && data_size_allowed(data_size) ==> r is Ok
                && r->Ok_0.wf() && r->Ok_0.spec_header_size() == header_size
                && r->Ok_0.spec_data_size() == data_size,
    {
        if header_size < MIN_HEADER_SIZE {
            return Err(SnowBinError::HeaderSizeTooSmall);
        }
        if !(data_size == 8 || data_size == 16 || data_size == 32 || data_size == 64) {
            return Err(SnowBinError::DataSizeNotAllowed);
        }
        Ok(Self { header_size, data_size })
    }

    /// Width in bytes of a tag field.
    #[verifier::when_used_as_spec(spec_header_size)]
    pub fn header_size(&self) -> (w: u32)
        ensures
            w == self.spec_header_size(),
            w >= MIN_HEADER_SIZE,
            self.wf(),
    {
        proof {
            use_type_invariant(self);
        }
        self.header_size
    }

    /// Width in bits of a length field.
    #[verifier::when_used_as_spec(spec_data_size)]
    pub fn data_size(&self) -> (w: u8)
        ensures
            w == self.spec_data_size(),
            data_size_allowed(w),
            self.wf(),
    {
        proof {
            use_type_invariant(self);
        }
        self.data_size
    }

    /// Two sets of parameters with the same widths are the same.
    pub proof fn lemma_same_widths(self, other: Self)
        requires
            self.spec_header_size() == other.spec_header_size(),
            self.spec_data_size() == other.spec_data_size(),
        ensures
            self == other,
    {
    }
}

impl Default for SnowBinInfo {
    /// A tag field of 8 bytes and a length field of 64 bits.
    fn default() -> (info: Self)
        ensures
            info.wf(),
            info.spec_header_size() == DEFAULT_HEADER_SIZE,
            info.spec_data_size() == DEFAULT_DATA_SIZE,
    {
        Self { header_size: DEFAULT_HEADER_SIZE, data_size: DEFAULT_DATA_SIZE }
    }
}

} // verus!
