//! The errors that the library reports.
use vstd::prelude::*;

verus! {

/// Why a transcript could not be obtained.
#[derive(Debug)]
pub enum TranscriptError {
    VideoUnavailable(String),
    TranscriptsDisabled(String),
    NoTranscriptFound(String, Vec<String>),
    AgeRestricted(String),
    IpBlocked(String),
    RequestBlocked(String),
    VideoUnplayable(String, String),
    FailedToCreateConsentCookie(String),
    YouTubeDataUnparsable(String),
    PoTokenRequired(String),
    InvalidVideoId(String),
    HttpError(String),
    XmlParseError(String),
    JsonParseError(String),
    NotTranslatable(String),
    TranslationLanguageNotAvailable(String),
    IoError(String),
}

/// A `TranscriptError` with its strings taken as character sequences.
pub enum ErrorView {
    VideoUnavailable(Seq<char>),
    TranscriptsDisabled(Seq<char>),
    NoTranscriptFound(Seq<char>, Seq<Seq<char>>),
    AgeRestricted(Seq<char>),
    IpBlocked(Seq<char>),
    RequestBlocked(Seq<char>),
    VideoUnplayable(Seq<char>, Seq<char>),
    FailedToCreateConsentCookie(Seq<char>),
    YouTubeDataUnparsable(Seq<char>),
    PoTokenRequired(Seq<char>),
    InvalidVideoId(Seq<char>),
    HttpError(Seq<char>),
    XmlParseError(Seq<char>),
    JsonParseError(Seq<char>),
    NotTranslatable(Seq<char>),
    TranslationLanguageNotAvailable(Seq<char>),
    IoError(Seq<char>),
}

/// The character sequences of a list of strings.
pub open spec fn strings_view(v: Seq<String>) -> Seq<Seq<char>> {
    v.map_values(|s: String| s@)
}

impl View for TranscriptError {
    type V = ErrorView;

    open spec fn view(&self) -> ErrorView {
        match self {
            TranscriptError::VideoUnavailable(a) => ErrorView::VideoUnavailable(a@),
            TranscriptError::TranscriptsDisabled(a) => ErrorView::TranscriptsDisabled(a@),
            TranscriptError::NoTranscriptFound(a, b) => ErrorView::NoTranscriptFound(
                a@,
                strings_view(b@),
            ),
            TranscriptError::AgeRestricted(a) => ErrorView::AgeRestricted(a@),
            TranscriptError::IpBlocked(a) => ErrorView::IpBlocked(a@),
            TranscriptError::RequestBlocked(a) => ErrorView::RequestBlocked(a@),
            TranscriptError::VideoUnplayable(a, b) => ErrorView::VideoUnplayable(a@, b@),
            TranscriptError::FailedToCreateConsentCookie(a) => ErrorView::FailedToCreateConsentCookie(
                a@,
            ),
            TranscriptError::YouTubeDataUnparsable(a) => ErrorView::YouTubeDataUnparsable(a@),
            TranscriptError::PoTokenRequired(a) => ErrorView::PoTokenRequired(a@),
            TranscriptError::InvalidVideoId(a) => ErrorView::InvalidVideoId(a@),
            TranscriptError::HttpError(a) => ErrorView::HttpError(a@),
            TranscriptError::XmlParseError(a) => ErrorView::XmlParseError(a@),
            TranscriptError::JsonParseError(a) => ErrorView::JsonParseError(a@),
            TranscriptError::NotTranslatable(a) => ErrorView::NotTranslatable(a@),
            TranscriptError::TranslationLanguageNotAvailable(a) => ErrorView::TranslationLanguageNotAvailable(a@),
            TranscriptError::IoError(a) => ErrorView::IoError(a@),
        }
    }
}

} // verus!
