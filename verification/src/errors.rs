//! Errors that can occur when processing messages, and their wire codes.

use vstd::prelude::*;

verus! {

/// A specialized result type for Cyberpixie device.
pub type Result<T> = core::result::Result<T, Error>;

/// Errors that can occur when processing messages.
#[derive(Clone, Copy, PartialEq, Eq, Structural, PartialOrd, Ord, Debug)]
pub enum Error {
    /// The length of the strip does not match with the specified.
    StripLengthMismatch,
    /// The length of the picture in bytes is not a multiple of "strip length" * "bytes per pixel".
    ImageLengthMismatch,
    /// The transmitted message cannot be fitted into the device's memory.
    ImageTooBig,
    /// This image repository on the device is full.
    ImageRepositoryIsFull,
    /// The images repository is empty.
    ImageRepositoryIsEmpty,
    /// The specified image index is greater than the total amount of the stored images.
    ImageNotFound,
    /// Unexpected response to the request.
    UnexpectedResponse,
    /// Unable to read bytes from storage.
    StorageRead,
    /// Unable to write bytes to storage.
    StorageWrite,
    /// Network read error.
    Network,
    /// Data decoding error.
    Decode,
    /// Data encoding error.
    Encode,
    /// Image render is busy by the another task.
    ImageRenderIsBusy,
    /// Internal device error.
    Internal,
    /// Unspecified or unknown error.
    Unspecified(u16),
}

/// The error that a wire code stands for: each named error has its own code, and every
/// other code is kept as `Unspecified`.
pub open spec fn error_of_code(code: u16) -> Error {
    if code == 1 {
        Error::StripLengthMismatch
    } else if code == 2 {
        Error::ImageLengthMismatch
    } else if code == 3 {
        Error::ImageTooBig
    } else if code == 4 {
        Error::ImageRepositoryIsFull
    } else if code == 5 {
        Error::ImageRepositoryIsEmpty
    } else if code == 6 {
        Error::ImageNotFound
    } else if code == 7 {
        Error::UnexpectedResponse
    } else if code == 8 {
        Error::StorageRead
    } else if code == 9 {
        Error::StorageWrite
    } else if code == 10 {
        Error::Network
    } else if code == 11 {
        Error::Decode
    } else if code == 12 {
        Error::Encode
    } else if code == 13 {
        Error::ImageRenderIsBusy
    } else if code == 14 {
        Error::Internal
    } else {
        Error::Unspecified(code)
    }
}

/// The wire code of an error.
pub open spec fn code_of_error(err: Error) -> u16 {
    match err {
        Error::StripLengthMismatch => 1,
        Error::ImageLengthMismatch => 2,
        Error::ImageTooBig => 3,
        Error::ImageRepositoryIsFull => 4,
        Error::ImageRepositoryIsEmpty => 5,
        Error::ImageNotFound => 6,
        Error::UnexpectedResponse => 7,
        Error::StorageRead => 8,
        Error::StorageWrite => 9,
        Error::Network => 10,
        Error::Decode => 11,
        Error::Encode => 12,
        Error::ImageRenderIsBusy => 13,
        Error::Internal => 14,
        Error::Unspecified(other) => other,
    }
}

impl Error {
    /// Decodes an error from its wire code.
    pub fn from_code(code: u16) -> (err: Self)
        ensures
            err == error_of_code(code),
    {
        match code {
            1 => Self::StripLengthMismatch,
            2 => Self::ImageLengthMismatch,
            3 => Self::ImageTooBig,
            4 => Self::ImageRepositoryIsFull,
            5 => Self::ImageRepositoryIsEmpty,
            6 => Self::ImageNotFound,
            7 => Self::UnexpectedResponse,
            8 => Self::StorageRead,
            9 => Self::StorageWrite,
            10 => Self::Network,
            11 => Self::Decode,
            12 => Self::Encode,
            13 => Self::ImageRenderIsBusy,
            14 => Self::Internal,
            other => Self::Unspecified(other),
        }
    }

    /// Encodes an error into its wire code.
    pub fn into_code(self) -> (code: u16)
        ensures
            code == code_of_error(self),
    {
        match self {
            Self::StripLengthMismatch => 1,
            Self::ImageLengthMismatch => 2,
            Self::ImageTooBig => 3,
            Self::ImageRepositoryIsFull => 4,
            Self::ImageRepositoryIsEmpty => 5,
            Self::ImageNotFound => 6,
            Self::UnexpectedResponse => 7,
            Self::StorageRead => 8,
            Self::StorageWrite => 9,
            Self::Network => 10,
            Self::Decode => 11,
            Self::Encode => 12,
            Self::ImageRenderIsBusy => 13,
            Self::Internal => 14,
            Self::Unspecified(other) => other,
        }
    }

    /// Creates a new storage read error.
    pub fn storage_read<E: core::fmt::Debug>(err: E) -> (r: Self)
        ensures
            r == Error::StorageRead,
    {
        Self::StorageRead
    }

    /// Creates a new storage write error.
    pub fn storage_write<E: core::fmt::Debug>(err: E) -> (r: Self)
        ensures
            r == Error::StorageWrite,
    {
        Self::StorageWrite
    }

    /// Creates a new network error.
    pub fn network<E: core::fmt::Debug>(err: E) -> (r: Self)
        ensures
            r == Error::Network,
    {
        Self::Network
    }

    /// Creates a new decode data error.
    pub fn decode<E: core::fmt::Debug>(err: E) -> (r: Self)
        ensures
            r == Error::Decode,
    {
        Self::Decode
    }

    /// Creates a new encode data error.
    pub fn encode<E: core::fmt::Debug>(err: E) -> (r: Self)
        ensures
            r == Error::Encode,
    {
        Self::Encode
    }

    /// Creates a new internal error.
    pub fn internal<E: core::fmt::Debug>(err: E) -> (r: Self)
        ensures
            r == Error::Internal,
    {
        Self::Internal
    }
}

/// Reading back the code of a decoded error gives the code again, for every code.
pub proof fn lemma_code_roundtrip(code: u16)
    ensures
        code_of_error(error_of_code(code)) == code,
{
}

/// Decoding the code of an error gives the error back, unless the error is an
/// `Unspecified` code that a named error owns (1 to 14).
pub proof fn lemma_error_roundtrip(err: Error)
    requires
        err matches Error::Unspecified(c) ==> !(1 <= c <= 14),
    ensures
        error_of_code(code_of_error(err)) == err,
{
}

/// The named errors own the codes 1 to 14, one each: every code in that range decodes to
/// a named error, every other code is kept as it is, and no two errors share a code.
pub proof fn lemma_named_error_codes(code: u16, a: Error, b: Error)
    ensures
        1 <= code <= 14 ==> !(error_of_code(code) is Unspecified),
        !(1 <= code <= 14) ==> error_of_code(code) == Error::Unspecified(code),
        !(a is Unspecified) ==> 1 <= code_of_error(a) <= 14,
        code_of_error(a) == code_of_error(b) && !(a is Unspecified) && !(b is Unspecified) ==> a
            == b,
{
}

} // verus!
