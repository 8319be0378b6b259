//! The failures that the library reports.

use vstd::prelude::*;

verus! {

/// The four classes of failure.
#[derive(Clone, Copy, Debug, PartialEq, Eq, Structural)]
pub enum ErrorKind {
    /// Something that was referred to is absent.
    NotFound,
    /// Content handed in is malformed, or lacks a required field.
    Validation,
    /// The store did not do what it was asked to.
    StorageFault,
    /// A resource outside the store was not found.
    ExternalResourceMissing,
}

/// A failure, with its cause.
#[derive(Clone, Copy, Debug, PartialEq, Eq, Structural)]
pub enum StoreError {
    /// The user has no playlist with the id that was named.
    PlaylistNotFound,
    /// The user has `count` tabs, and `index` names none of them.
    TabOutOfRange { index: usize, count: usize },
    /// The text is not a JSON document.
    InvalidJson,
    /// The document is neither a playlist, nor an object with a list of
    /// playlists, nor a list of playlists.
    UnknownShape,
    /// The document holds no playlist that can be read.
    NoPlaylists,
    /// A playlist in the document lacks a field or holds one of the wrong
    /// kind.
    InvalidPlaylist,
    /// The document has no `tab` member.
    MissingTab,
    /// The tab has no name.
    MissingTabName,
    /// A metadata entry has no video id.
    MissingVideoId,
    /// The image data is not valid base64.
    InvalidImageData,
    /// The image is too large to be written as text.
    ImageTooLarge,
    /// The directory for the user's data could not be found.
    NoDataDirectory,
    /// Two playlists of one user would share an id.
    DuplicatePlaylist,
    /// After a save of `expected` playlists the store held `found`.
    SaveMismatch { expected: usize, found: usize },
    /// A document could not be written out as text.
    NotRendered,
    /// No seed document was found.
    SeedMissing,
}

impl StoreError {
    /// The class of this failure.
    pub open spec fn spec_kind(self) -> ErrorKind {
        match self {
            StoreError::PlaylistNotFound => ErrorKind::NotFound,
            StoreError::TabOutOfRange { .. } => ErrorKind::NotFound,
            StoreError::InvalidJson => ErrorKind::Validation,
            StoreError::UnknownShape => ErrorKind::Validation,
            StoreError::NoPlaylists => ErrorKind::Validation,
            StoreError::InvalidPlaylist => ErrorKind::Validation,
            StoreError::MissingTab => ErrorKind::Validation,
            StoreError::MissingTabName => ErrorKind::Validation,
            StoreError::MissingVideoId => ErrorKind::Validation,
            StoreError::InvalidImageData => ErrorKind::Validation,
            StoreError::ImageTooLarge => ErrorKind::Validation,
            StoreError::NoDataDirectory => ErrorKind::StorageFault,
            StoreError::DuplicatePlaylist => ErrorKind::StorageFault,
            StoreError::SaveMismatch { .. } => ErrorKind::StorageFault,
            StoreError::NotRendered => ErrorKind::StorageFault,
            StoreError::SeedMissing => ErrorKind::ExternalResourceMissing,
        }
    }

    /// The class of this failure.
    #[verifier::when_used_as_spec(spec_kind)]
    pub fn kind(self) -> (k: ErrorKind)
        ensures
            k == self.spec_kind(),
    {
        match self {
            StoreError::PlaylistNotFound => ErrorKind::NotFound,
            StoreError::TabOutOfRange { .. } => ErrorKind::NotFound,
            StoreError::InvalidJson => ErrorKind::Validation,
            StoreError::UnknownShape => ErrorKind::Validation,
            StoreError::NoPlaylists => ErrorKind::Validation,
            StoreError::InvalidPlaylist => ErrorKind::Validation,
            StoreError::MissingTab => ErrorKind::Validation,
            StoreError::MissingTabName => ErrorKind::Validation,
            StoreError::MissingVideoId => ErrorKind::Validation,
            StoreError::InvalidImageData => ErrorKind::Validation,
            StoreError::ImageTooLarge => ErrorKind::Validation,
            StoreError::NoDataDirectory => ErrorKind::StorageFault,
            StoreError::DuplicatePlaylist => ErrorKind::StorageFault,
            StoreError::SaveMismatch { .. } => ErrorKind::StorageFault,
            StoreError::NotRendered => ErrorKind::StorageFault,
            StoreError::SeedMissing => ErrorKind::ExternalResourceMissing,
        }
    }
}

/// The check that follows a save: the store must hold as many playlists of
/// the user as were saved. Saving none clears the user's playlists and is
/// never a fault.
pub fn verify_saved(expected: usize, found: usize) -> (r: Result<(), StoreError>)
    ensures
        r == if expected > 0 && found != expected {
            Err::<(), StoreError>(StoreError::SaveMismatch { expected, found })
        } else {
            Ok::<(), StoreError>(())
        },
{
    if expected > 0 && found != expected {
        Err(StoreError::SaveMismatch { expected, found })
    } else {
        Ok(())
    }
}

} // verus!
