//! The pipeline's error taxonomy.  Every stage either completes or aborts the
//! whole run with one of these values; nothing is retried.

use vstd::prelude::*;

verus! {

/// One terminal failure of a pipeline run.
#[derive(Clone, Copy, Debug, PartialEq, Eq, Structural)]
pub enum RmbgError {
    /// The input path's guessed MIME type is not in the `image` family.
    UnsupportedFileType,
    /// The input bytes could not be decoded as an image with pixels.
    DecodeError,
    /// The model file is missing, corrupt, or not a valid model graph.
    ModelLoadError,
    /// The model declares no input tensor or no output tensor.
    SchemaError,
    /// Running the model failed, or its output had the wrong shape.
    InferenceError,
    /// The model's output tensor does not hold 32-bit floats.
    TypeMismatch,
    /// No usable output directory could be provided or created.
    DirectoryError,
    /// The output path has no extractable file stem.
    PathError,
    /// Encoding or writing the final image failed.
    WriteError,
}

} // verus!
