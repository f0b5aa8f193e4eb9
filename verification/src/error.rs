use vstd::prelude::*;

verus! {

/// The error type of std's I/O. Its inside is not visible to the verifier; a
/// value of it is only ever told apart from success.
#[verifier::external_type_specification]
#[verifier::external_body]
pub struct ExIoError(std::io::Error);

/// What can go wrong while configuring, encoding or decoding a container.
#[derive(Debug, PartialEq, Eq, Structural)]
pub enum SnowBinError {
    /// The data size used is not 8, 16, 32, or 64.
    DataSizeNotAllowed,
    /// The file given could not be created or opened.
    CouldNotCreateOrOpenFile,
    /// Could not write to the file for some reason.
    IOWriteError,
    /// Header size given was < 8 bytes.
    HeaderSizeTooSmall,
    /// The header passed in was longer than the max header length allowed.
    HeaderTooLong,
    /// Tried to write to file, but it was closed.
    IOWriterClosed,
    /// Data length exceeded the max data length allowed.
    DataTooLong,
    /// Could not read the file for some reason.
    IOReadError,
    /// File did not start with the "SNOW_BIN" header.
    MalformedHeader,
    /// Tried to get a UInt from the file and failed.
    MalformedUInt,
    /// Spec version of the file did not match the program Spec version.
    WrongSpecVersion,
    /// Reached the end of the file without finding the header.
    ReachedEOF,
    /// Verify hash does not match the data extracted.
    HashDoesNotMatch,
}

impl SnowBinError {
    /// The sentence that describes each error.
    pub open spec fn message_text(self) -> Seq<char> {
        match self {
            SnowBinError::DataSizeNotAllowed => "Data Size is not 8, 16, 32, or 64."@,
            SnowBinError::CouldNotCreateOrOpenFile => "Could not create or open the file."@,
            SnowBinError::IOWriteError => "Could not write to the file."@,
            SnowBinError::HeaderSizeTooSmall => "Header must be at least 8 bytes."@,
            SnowBinError::HeaderTooLong => "Header exceeds max header length."@,
            SnowBinError::IOWriterClosed => "Could not write to the file because it was closed."@,
            SnowBinError::DataTooLong => "Data exceeds max length."@,
            SnowBinError::IOReadError => "Could not read from the file."@,
            SnowBinError::MalformedHeader => "File did not start with \"SNOW_BIN\" header."@,
            SnowBinError::MalformedUInt => "Could not pull a uint from the file when expected."@,
            SnowBinError::WrongSpecVersion => "Spec version does not match."@,
            SnowBinError::ReachedEOF => "Reached the end of the file, without finding the header specified."@,
            SnowBinError::HashDoesNotMatch => "Verification hash did not match data hash."@,
        }
    }

    /// Renders the error as the sentence shown to users.
    pub fn message(&self) -> (text: String)
        ensures
            text@ == self.message_text(),
    {
        let literal: &str = match self {
            SnowBinError::DataSizeNotAllowed => "Data Size is not 8, 16, 32, or 64.",
            SnowBinError::CouldNotCreateOrOpenFile => "Could not create or open the file.",
            SnowBinError::IOWriteError => "Could not write to the file.",
            SnowBinError::HeaderSizeTooSmall => "Header must be at least 8 bytes.",
            SnowBinError::HeaderTooLong => "Header exceeds max header length.",
            SnowBinError::IOWriterClosed => "Could not write to the file because it was closed.",
            SnowBinError::DataTooLong => "Data exceeds max length.",
            SnowBinError::IOReadError => "Could not read from the file.",
            SnowBinError::MalformedHeader => "File did not start with \"SNOW_BIN\" header.",
            SnowBinError::MalformedUInt => "Could not pull a uint from the file when expected.",
            SnowBinError::WrongSpecVersion => "Spec version does not match.",
            SnowBinError::ReachedEOF => "Reached the end of the file, without finding the header specified.",
            SnowBinError::HashDoesNotMatch => "Verification hash did not match data hash.",
        };
        literal.to_owned()
    }
}

} // verus!
