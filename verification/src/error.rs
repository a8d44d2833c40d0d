use vstd::prelude::*;

verus! {

/// Why an operation of the library failed.
#[derive(Clone, Copy, Debug, PartialEq, Eq)]
pub enum FfError {
    /// The input holds no video stream.
    NoVideoStream,
    /// Neither an opened input nor a file name was given.
    MissingInput,
    /// An ffmpeg call failed with this `AVERROR` code.
    Ffmpeg(i32),
    /// Seeking to the screenshot's timestamp failed with this `AVERROR` code.
    Seek(i32),
    /// A pixel buffer is shorter than the dimensions given for it need.
    CannotCreateImage,
    /// The rotation is none of 0, 90, 180 and 270 degrees.
    UnsupportedRotation(i32),
}

} // verus!
