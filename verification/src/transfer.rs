use vstd::prelude::*;

use crate::errors::StageError;

verus! {

/// Accepts or rejects a fetch response before any byte reaches the disk.
///
/// The fetch counts as successful only for a success status (2xx) together
/// with a known, positive content length; anything else is `FetchFailed`.
/// The embedding program calls this before it creates or truncates the
/// destination file, so a rejected response leaves the destination alone.
/// On acceptance the returned value is the reported content length, for
/// progress display.
pub fn check_fetch_response(status: u16, content_length: Option<u64>) -> (r: Result<
    u64,
    StageError,
>)
    ensures
        match r {
            Ok(n) => 200 <= status < 300 && content_length == Some(n) && n > 0,
            Err(e) => {
                &&& e == StageError::FetchFailed
                &&& (!(200 <= status < 300) || content_length is None || content_length == Some(
                    0u64,
                ))
            },
        },
{
    if status < 200 || status >= 300 {
        return Err(StageError::FetchFailed);
    }
    match content_length {
        None => Err(StageError::FetchFailed),
        Some(n) => {
            if n == 0 {
                Err(StageError::FetchFailed)
            } else {
                Ok(n)
            }
        },
    }
}

/// Decides whether a downloaded archive's entry list is usable before any
/// entry is written: an archive with no entries at all is corrupt, since
/// extracting it would silently leave no symbol file behind. Otherwise every
/// entry is extracted in order, so the last one wins.
pub fn plan_extraction(entry_names: &Vec<String>) -> (r: Result<usize, StageError>)
    ensures
        match r {
            Ok(n) => n == entry_names@.len() && n > 0,
            Err(e) => e == StageError::ArchiveCorrupt && entry_names@.len() == 0,
        },
{
    if entry_names.len() == 0 {
        Err(StageError::ArchiveCorrupt)
    } else {
        Ok(entry_names.len())
    }
}

} // verus!
