use vstd::prelude::*;

verus! {

/// Failure of the header extractor or of the path/key deriver.
///
/// Every variant is permanent for a given input: a module that fails to parse
/// once fails the same way on every retry.
#[derive(Clone, Copy, Debug, PartialEq, Eq, Structural)]
pub enum ParseError {
    /// The bytes do not form a well-formed module container.
    MalformedContainer,
    /// The container parsed, but it carries no debug directory.
    MissingDebugDirectory,
    /// A debug directory exists, but no entry of the recognized
    /// signature-plus-file-name sub-format is in it.
    MissingDebugInfo,
    /// The selected debug record is truncated or its embedded file name
    /// yields no usable base name.
    MalformedDebugRecord,
    /// A filesystem path could not be represented as text. Produced at the
    /// boundary where platform paths are turned into strings, never by the
    /// pure derivation itself.
    PathEncodingError,
}

/// Failure of one of the surrounding collaborators: the fetch, the archive
/// extraction, or the cleanup of the temporary archive.
#[derive(Clone, Copy, Debug, PartialEq, Eq, Structural)]
pub enum StageError {
    /// The symbol service answered with a non-success status, or reported a
    /// missing or zero content length.
    FetchFailed,
    /// Writing fetched bytes to disk failed.
    StorageIOError,
    /// The downloaded archive could not be unpacked, or holds no entries.
    ArchiveCorrupt,
    /// Removing the temporary archive failed; the extracted symbol file
    /// itself is unaffected.
    CleanupFailed,
}

impl ParseError {
    /// A short human-readable reason, for the embedding program's abort
    /// message.
    pub fn describe(&self) -> (r: &'static str)
        ensures
            r@ == match self {
                ParseError::MalformedContainer => "module container is malformed"@,
                ParseError::MissingDebugDirectory => "module has no debug directory"@,
                ParseError::MissingDebugInfo => "module has no recognized debug record"@,
                ParseError::MalformedDebugRecord => "module debug record is malformed"@,
                ParseError::PathEncodingError => "path cannot be represented as text"@,
            },
    {
        match self {
            ParseError::MalformedContainer => "module container is malformed",
            ParseError::MissingDebugDirectory => "module has no debug directory",
            ParseError::MissingDebugInfo => "module has no recognized debug record",
            ParseError::MalformedDebugRecord => "module debug record is malformed",
            ParseError::PathEncodingError => "path cannot be represented as text",
        }
    }
}

impl StageError {
    /// A short human-readable reason, for the embedding program's abort
    /// message.
    pub fn describe(&self) -> (r: &'static str)
        ensures
            r@ == match self {
                StageError::FetchFailed => "fetching the symbol archive failed"@,
                StageError::StorageIOError => "writing the symbol archive failed"@,
                StageError::ArchiveCorrupt => "symbol archive is corrupt or empty"@,
                StageError::CleanupFailed => "removing the temporary archive failed"@,
            },
    {
        match self {
            StageError::FetchFailed => "fetching the symbol archive failed",
            StageError::StorageIOError => "writing the symbol archive failed",
            StageError::ArchiveCorrupt => "symbol archive is corrupt or empty",
            StageError::CleanupFailed => "removing the temporary archive failed",
        }
    }
}

} // verus!
