//! The closed error taxonomy of the library.

use vstd::prelude::*;

verus! {

/// One variant per failure class. Failures of external collaborators (image
/// codecs, the embedding extractor, the OS watch mechanism) arrive as plain
/// message strings; the library itself raises the structural variants.
pub enum FaceRecognitionError {
    /// An image-processing collaborator reported an error.
    OpenCv(String),
    /// A filesystem operation failed while walking the gallery tree.
    Io(String),
    /// An embedding model file was not found at the configured path.
    ModelNotFound(String),
    /// A query or watch was requested before any successful load.
    DatabaseNotLoaded,
    /// The detection step of the embedding extractor failed.
    DetectionFailed,
    /// The feature-extraction step of the embedding extractor failed.
    FeatureExtractionFailed,
    /// An image could not be decoded.
    InvalidImage,
    /// The directory observation mechanism failed to start or run.
    WatchError(String),
}

impl FaceRecognitionError {
    /// The human-readable message for this error, mirroring its variant.
    pub fn message(&self) -> (r: String)
        ensures
            r@ == self.message_spec(),
    {
        proof {
            reveal_strlit("OpenCV error: ");
            reveal_strlit("IO error: ");
            reveal_strlit("Model not found: ");
            reveal_strlit("Database not loaded");
            reveal_strlit("Face detection failed");
            reveal_strlit("Feature extraction failed");
            reveal_strlit("Invalid image");
            reveal_strlit("Directory watch error: ");
        }
        match self {
            FaceRecognitionError::OpenCv(m) => {
                let mut s = String::from_str("OpenCV error: ");
                s.append(m.as_str());
                s
            },
            FaceRecognitionError::Io(m) => {
                let mut s = String::from_str("IO error: ");
                s.append(m.as_str());
                s
            },
            FaceRecognitionError::ModelNotFound(m) => {
                let mut s = String::from_str("Model not found: ");
                s.append(m.as_str());
                s
            },
            FaceRecognitionError::DatabaseNotLoaded => String::from_str("Database not loaded"),
            FaceRecognitionError::DetectionFailed => String::from_str("Face detection failed"),
            FaceRecognitionError::FeatureExtractionFailed => String::from_str(
                "Feature extraction failed",
            ),
            FaceRecognitionError::InvalidImage => String::from_str("Invalid image"),
            FaceRecognitionError::WatchError(m) => {
                let mut s = String::from_str("Directory watch error: ");
                s.append(m.as_str());
                s
            },
        }
    }

    /// What `message` returns, as a sequence of characters.
    pub open spec fn message_spec(&self) -> Seq<char> {
        match self {
            FaceRecognitionError::OpenCv(m) => "OpenCV error: "@ + m@,
            FaceRecognitionError::Io(m) => "IO error: "@ + m@,
            FaceRecognitionError::ModelNotFound(m) => "Model not found: "@ + m@,
            FaceRecognitionError::DatabaseNotLoaded => "Database not loaded"@,
            FaceRecognitionError::DetectionFailed => "Face detection failed"@,
            FaceRecognitionError::FeatureExtractionFailed => "Feature extraction failed"@,
            FaceRecognitionError::InvalidImage => "Invalid image"@,
            FaceRecognitionError::WatchError(m) => "Directory watch error: "@ + m@,
        }
    }
}

} // verus!
