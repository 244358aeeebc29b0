//! Errors of podcast generation.

use vstd::prelude::*;

verus! {

/// Why a podcast could not be generated.
#[derive(Debug)]
pub enum PodcastError {
    ParseError(String),
    TTSError(String),
    AudioError(String),
    FileError(String),
    NoRolesDetected,
    VoiceNotAssigned(String),
}

/// The description of an error.
pub open spec fn podcast_error_text(e: PodcastError) -> Seq<char> {
    match e {
        PodcastError::ParseError(detail) => "Failed to parse script: "@ + detail@,
        PodcastError::TTSError(detail) => "TTS synthesis failed for text: "@ + detail@,
        PodcastError::AudioError(detail) => "Audio processing error: "@ + detail@,
        PodcastError::FileError(detail) => "File error: "@ + detail@,
        PodcastError::NoRolesDetected => "No roles detected in script"@,
        PodcastError::VoiceNotAssigned(role) => "Voice not assigned for role: "@ + role@,
    }
}

impl PodcastError {
    /// The error's description.
    pub fn to_string(&self) -> (text: String)
        ensures
            text@ == podcast_error_text(*self),
    {
        match self {
            PodcastError::ParseError(detail) => {
                let mut text = "Failed to parse script: ".to_owned();
                text.append(detail.as_str());
                text
            },
            PodcastError::TTSError(detail) => {
                let mut text = "TTS synthesis failed for text: ".to_owned();
                text.append(detail.as_str());
                text
            },
            PodcastError::AudioError(detail) => {
                let mut text = "Audio processing error: ".to_owned();
                text.append(detail.as_str());
                text
            },
            PodcastError::FileError(detail) => {
                let mut text = "File error: ".to_owned();
                text.append(detail.as_str());
                text
            },
            PodcastError::NoRolesDetected => "No roles detected in script".to_owned(),
            PodcastError::VoiceNotAssigned(role) => {
                let mut text = "Voice not assigned for role: ".to_owned();
                text.append(role.as_str());
                text
            },
        }
    }
}

} // verus!
