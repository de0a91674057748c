use vstd::prelude::*;

verus! {

/// The failures the pipeline reports to its caller.
#[derive(Clone, Copy, PartialEq, Eq, Structural, Debug)]
pub enum ImgError {
    /// The source bytes are not a recognized raster image.
    DecodeError,
    /// A font or logo resource could not be loaded at construction time.
    ConstructionError,
    /// The computed canvas size is zero or does not fit the address space.
    InvalidDimensions,
    /// Serializing the finished canvas failed.
    EncodeError,
    /// A file could not be read or written.
    IoError,
}

} // verus!
