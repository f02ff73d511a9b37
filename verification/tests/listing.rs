use yt::listing::TranscriptList;
use yt::TranscriptType;

#[test]
fn transcript_type_text() {
    let generated = TranscriptType { language: "English".to_string(), is_auto_generated: true };
    let manual = TranscriptType { language: "German".to_string(), is_auto_generated: false };
    assert_eq!(generated.to_string(), "English");
    assert_eq!(manual.to_string(), "German (auto-generated)");
}

#[test]
fn transcript_list_text() {
    let list = TranscriptList {
        video_id: "vid".to_string(),
        video_name: "Title".to_string(),
        available_transcripts: vec![
            TranscriptType { language: "English".to_string(), is_auto_generated: true },
            TranscriptType { language: "German".to_string(), is_auto_generated: false },
        ],
    };
    assert_eq!(
        list.to_string(),
        "Available Transcripts for video \"vid\" with title \"Title\": English, German (auto-generated)"
    );
    let empty = TranscriptList { video_id: "v".to_string(), video_name: "n".to_string(), available_transcripts: vec![] };
    assert_eq!(empty.to_string(), "Available Transcripts for video \"v\" with title \"n\": ");
}
