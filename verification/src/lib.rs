//! Fetching YouTube transcripts: the verified core.
//!
//! The library holds the logic of the transcript client: reading video and
//! playlist identifiers out of URLs, reading the player response and the
//! watch page, choosing a transcript, parsing transcript documents and
//! decoding their HTML entities. The network requests themselves are made
//! by the program around it, which hands the library the pages and
//! documents it fetched.

pub mod error;
pub mod html_escape;
pub mod http;
pub mod innertube;
pub mod json;
pub mod listing;
pub mod page;
pub mod parser;
pub mod response;
pub mod text;
pub mod transcript;
pub mod video_id;
pub mod xml;

pub use error::TranscriptError;
pub use html_escape::{decode_entity, decode_html_entities};
pub use json::JsonValue;
pub use listing::TranscriptType;
pub use parser::{TranscriptItem, TranscriptParser};
pub use response::TranscriptResponse;
pub use transcript::{TranscriptInfo, TranscriptList, TranslationLanguage};
pub use video_id::{extract_playlist_id, extract_video_id};
