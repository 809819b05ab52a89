//! The ways in which a wallpaper operation can fail.

use vstd::prelude::*;

verus! {

/// Every failure is fatal to the operation in which it occurs; none is retried.
#[derive(Clone, Copy, Debug, PartialEq, Eq, Structural)]
pub enum DomainError {
    /// No connected monitor was found.
    EmptyMonitorSet,
    /// A connected monitor's line in the display report could not be read.
    MalformedDescriptor,
    /// A monitor has no physical height or no resolution, so that its pixel
    /// density cannot be formed.
    InvalidMonitor,
    /// A bezel entry is present, has two fields, and one of them is not a number.
    MalformedBezelSpec,
    /// The source picture could not be decoded.
    ImageDecodeFailure,
    /// A computed rectangle or extent does not fit: it reaches past the picture
    /// that it is cut from, or past what pixel coordinates and buffers can
    /// address.
    CropOutOfBounds,
    /// A picture could not be written to temporary storage.
    StorageFailure,
    /// The wallpaper utility is missing or reported a failure.
    ExternalToolFailure,
}

impl DomainError {
    /// A short description of the failure.
    pub fn message(&self) -> (text: &'static str)
        ensures
            text@ == Self::spec_message(*self),
    {
        match self {
            DomainError::EmptyMonitorSet => "no connected monitor",
            DomainError::MalformedDescriptor => "malformed monitor descriptor",
            DomainError::InvalidMonitor => "monitor without physical height or resolution",
            DomainError::MalformedBezelSpec => "expected numeric value",
            DomainError::ImageDecodeFailure => "image could not be decoded",
            DomainError::CropOutOfBounds => "crop rectangle out of bounds",
            DomainError::StorageFailure => "temporary storage failure",
            DomainError::ExternalToolFailure => "wallpaper utility failed",
        }
    }

    /// The text of `message`, as a sequence of characters.
    pub open spec fn spec_message(e: DomainError) -> Seq<char> {
        match e {
            DomainError::EmptyMonitorSet => "no connected monitor"@,
            DomainError::MalformedDescriptor => "malformed monitor descriptor"@,
            DomainError::InvalidMonitor => "monitor without physical height or resolution"@,
            DomainError::MalformedBezelSpec => "expected numeric value"@,
            DomainError::ImageDecodeFailure => "image could not be decoded"@,
            DomainError::CropOutOfBounds => "crop rectangle out of bounds"@,
            DomainError::StorageFailure => "temporary storage failure"@,
            DomainError::ExternalToolFailure => "wallpaper utility failed"@,
        }
    }
}

} // verus!
