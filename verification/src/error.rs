//! Errors of the driver and their coarse classification.

use vstd::prelude::*;

verus! {

/// What can go wrong in a request to the EEPROM.
///
/// `E` is the error type of the bus transport; the driver carries such an
/// error through unchanged.
#[derive(Debug)]
#[non_exhaustive]
pub enum Error<E> {
    /// The bus transport reported a failure.
    I2cError(E),
    /// Offset or length is not a multiple of the alignment unit.
    NotAligned,
    /// The request reaches outside the device, or a single page write
    /// reaches outside its page.
    OutOfBounds,
    WriteEnableFail,
    ReadbackFail,
    /// The device did not acknowledge within the retry budget after a write.
    WriteAckTimeout,
}

/// The three classes that generic storage code tells apart.
#[derive(Debug, Clone, Copy, PartialEq, Eq, Structural)]
pub enum ErrorKind {
    /// The request was not aligned.
    NotAligned,
    /// The request was out of range.
    OutOfBounds,
    /// The medium or the bus failed.
    Other,
}

impl<E> Error<E> {
    /// The class of this error.
    pub open spec fn kind_spec(self) -> ErrorKind {
        match self {
            Error::NotAligned => ErrorKind::NotAligned,
            Error::OutOfBounds => ErrorKind::OutOfBounds,
            _ => ErrorKind::Other,
        }
    }

    /// Classifies the error: a malformed request is told apart from a
    /// failure of the bus or the medium.
    pub fn kind(&self) -> (k: ErrorKind)
        ensures
            k == self.kind_spec(),
    {
        match self {
            Error::NotAligned => ErrorKind::NotAligned,
            Error::OutOfBounds => ErrorKind::OutOfBounds,
            _ => ErrorKind::Other,
        }
    }

    /// The request error that stands for a class found by a range check.
    /// Every class but `NotAligned` is reported as `OutOfBounds`.
    pub open spec fn of_kind(k: ErrorKind) -> Error<E> {
        match k {
            ErrorKind::NotAligned => Error::NotAligned,
            _ => Error::OutOfBounds,
        }
    }

    /// Turns the outcome of a range check into a request error.
    pub fn from_kind(k: ErrorKind) -> (e: Error<E>)
        ensures
            e == Self::of_kind(k),
    {
        match k {
            ErrorKind::NotAligned => Error::NotAligned,
            _ => Error::OutOfBounds,
        }
    }
}

} // verus!
