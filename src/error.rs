use vstd::prelude::*;

verus! {

/// The stage at which processing a receipt failed. None of these is retried.
#[derive(PartialEq, Eq, Structural, Clone, Copy, Debug)]
pub enum OcrError {
    /// The bytes are not an image that can be decoded.
    ImageDecodeError,
    /// A processed image could not be encoded again.
    ImageEncodeError,
    /// The local engine's model or language data could not be loaded.
    LocalEngineInitError,
    /// The local engine failed while recognizing text.
    LocalRecognitionError,
    /// No credential for the cloud engine is configured.
    CloudAuthMissing,
    /// The request to the cloud engine failed in transport.
    CloudRequestError,
    /// The cloud engine's response holds no text annotation.
    CloudResponseParseError,
}

impl OcrError {
    /// A short description of the failure.
    pub fn message(&self) -> (r: &'static str)
        ensures
            r@.len() > 0,
    {
        proof {
            reveal_strlit("the image could not be decoded");
            reveal_strlit("a processed image could not be encoded");
            reveal_strlit("the local OCR engine could not be initialised");
            reveal_strlit("local text recognition failed");
            reveal_strlit("no cloud OCR credential is configured");
            reveal_strlit("the cloud OCR request failed");
            reveal_strlit("the cloud OCR response holds no text");
        }
        match self {
            OcrError::ImageDecodeError => "the image could not be decoded",
            OcrError::ImageEncodeError => "a processed image could not be encoded",
            OcrError::LocalEngineInitError => "the local OCR engine could not be initialised",
            OcrError::LocalRecognitionError => "local text recognition failed",
            OcrError::CloudAuthMissing => "no cloud OCR credential is configured",
            OcrError::CloudRequestError => "the cloud OCR request failed",
            OcrError::CloudResponseParseError => "the cloud OCR response holds no text",
        }
    }
}

} // verus!
