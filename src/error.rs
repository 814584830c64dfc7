use vstd::prelude::*;

verus! {

/// Why the build of one texture unit failed.
#[derive(Clone, Copy, Debug, PartialEq, Eq, Structural)]
pub enum BuildError {
    /// A file could not be opened, created, copied, or a directory could not be made.
    IoFailure,
    /// A container or image could not be decoded, or holds an unsupported pixel format.
    DecodeFailure,
    /// The compressed-texture encoder refused the image.
    EncodeFailure,
    /// No source path of the unit carries the `Flat` tag.
    MissingFlatChannel,
    /// The unit has several source paths but none carries the `Alpha` tag.
    MissingAlphaChannel,
    /// Channel images disagree in width or height.
    DimensionMismatch,
}

} // verus!
