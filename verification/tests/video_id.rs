use yt::{extract_playlist_id, extract_video_id, TranscriptError};

#[test]
fn test_extract_video_id_direct() {
    assert_eq!(extract_video_id("dQw4w9WgXcQ").unwrap(), "dQw4w9WgXcQ");
}

#[test]
fn test_extract_video_id_watch_url() {
    assert_eq!(
        extract_video_id("https://www.youtube.com/watch?v=dQw4w9WgXcQ").unwrap(),
        "dQw4w9WgXcQ"
    );
}

#[test]
fn test_extract_video_id_short_url() {
    assert_eq!(extract_video_id("https://youtu.be/dQw4w9WgXcQ").unwrap(), "dQw4w9WgXcQ");
}

#[test]
fn test_extract_video_id_short_url_with_query() {
    assert_eq!(
        extract_video_id("https://youtu.be/_NuH3D4SN-c?si=VSFea_rMwtaiR8Q7").unwrap(),
        "_NuH3D4SN-c"
    );
}

#[test]
fn test_extract_video_id_invalid() {
    assert!(extract_video_id("not-a-valid-id").is_err());
    assert!(extract_video_id("https://example.com").is_err());
}

#[test]
fn video_id_trimmed_and_schemeless() {
    assert_eq!(extract_video_id("  dQw4w9WgXcQ\n").unwrap(), "dQw4w9WgXcQ");
    assert_eq!(extract_video_id("youtube.com/watch?v=dQw4w9WgXcQ").unwrap(), "dQw4w9WgXcQ");
    assert_eq!(extract_video_id("youtu.be/dQw4w9WgXcQ").unwrap(), "dQw4w9WgXcQ");
}

#[test]
fn video_id_from_embed_url() {
    assert_eq!(
        extract_video_id("https://www.youtube.com/embed/dQw4w9WgXcQ?start=3").unwrap(),
        "dQw4w9WgXcQ"
    );
}

#[test]
fn video_id_query_parameter_among_others() {
    assert_eq!(
        extract_video_id("https://m.youtube.com/watch?feature=share&v=dQw4w9WgXcQ&t=10").unwrap(),
        "dQw4w9WgXcQ"
    );
}

#[test]
fn invalid_video_id_message() {
    match extract_video_id("https://www.youtube.com/watch?v=short") {
        Err(TranscriptError::InvalidVideoId(m)) => assert_eq!(
            m,
            "https://www.youtube.com/watch?v=short (YouTube video IDs must be 11 characters, or a valid YouTube URL)"
        ),
        other => panic!("unexpected: {:?}", other),
    }
}

#[test]
fn video_id_counts_bytes() {
    // eleven characters, but twelve bytes: not a bare identifier
    assert!(extract_video_id("dQw4w9WgXcé").is_err());
    // eleven bytes of alphanumeric characters
    assert_eq!(extract_video_id("dQw4w9WgXé").unwrap(), "dQw4w9WgXé");
}

#[test]
fn playlist_id_from_url() {
    assert_eq!(
        extract_playlist_id("https://www.youtube.com/playlist?list=PL1234567890").unwrap(),
        "PL1234567890"
    );
    assert_eq!(
        extract_playlist_id("youtube.com/watch?v=dQw4w9WgXcQ&list=PLabc").unwrap(),
        "PLabc"
    );
}

#[test]
fn playlist_id_errors() {
    match extract_playlist_id("PLnotaurl") {
        Err(TranscriptError::InvalidVideoId(m)) => assert_eq!(m, "PLnotaurl (Invalid playlist URL)"),
        other => panic!("unexpected: {:?}", other),
    }
    match extract_playlist_id("https://www.youtube.com/watch?v=dQw4w9WgXcQ") {
        Err(TranscriptError::InvalidVideoId(m)) => assert_eq!(
            m,
            "https://www.youtube.com/watch?v=dQw4w9WgXcQ (Could not extract playlist ID from URL)"
        ),
        other => panic!("unexpected: {:?}", other),
    }
    assert!(extract_playlist_id("https://example.com/playlist?list=PL1").is_err());
}

#[test]
fn extracted_video_id_extracts_to_itself() {
    for input in [
        "  dQw4w9WgXcQ\n",
        "https://www.youtube.com/watch?v=dQw4w9WgXcQ&t=10",
        "https://youtu.be/_NuH3D4SN-c?si=VSFea_rMwtaiR8Q7",
        "https://www.youtube.com/embed/dQw4w9WgXcQ",
    ] {
        let id = extract_video_id(input).unwrap();
        assert_eq!(extract_video_id(&id).unwrap(), id);
    }
}
