use yt::parser::items_from_events;
use yt::xml::XmlEvent;
use yt::{TranscriptItem, TranscriptParser};

/// The time of an item field in seconds, read the way the program reads it.
fn seconds(raw: &Option<Vec<u8>>, milliseconds: bool) -> f64 {
    raw.as_ref()
        .and_then(|v| std::str::from_utf8(v).ok())
        .and_then(|s| s.parse::<f64>().ok())
        .map(|v| if milliseconds { v / 1000.0 } else { v })
        .unwrap_or(0.0)
}

fn start(item: &TranscriptItem) -> f64 {
    seconds(&item.start, item.milliseconds)
}

fn duration(item: &TranscriptItem) -> f64 {
    seconds(&item.duration, item.milliseconds)
}

#[test]
fn test_parse_text_format() {
    let xml = r#"<transcript>
            <text start="0.0" dur="2.5">Hello world</text>
            <text start="2.5" dur="3.0">This is a test</text>
        </transcript>"#;

    let parser = TranscriptParser::new(false);
    let items = parser.parse(xml).unwrap();

    assert_eq!(items.len(), 2);
    assert_eq!(items[0].text, "Hello world");
    assert_eq!(start(&items[0]), 0.0);
    assert_eq!(duration(&items[0]), 2.5);
    assert_eq!(items[1].text, "This is a test");
    assert_eq!(start(&items[1]), 2.5);
}

#[test]
fn test_parse_p_format() {
    let xml = r#"<transcript>
            <p t="0" d="2500">Hello world</p>
            <p t="2500" d="3000">This is a test</p>
        </transcript>"#;

    let parser = TranscriptParser::new(false);
    let items = parser.parse(xml).unwrap();

    assert_eq!(items.len(), 2);
    assert_eq!(items[0].text, "Hello world");
    assert_eq!(start(&items[0]), 0.0);
    assert_eq!(duration(&items[0]), 2.5);
    assert_eq!(items[1].text, "This is a test");
    assert_eq!(start(&items[1]), 2.5);
}

#[test]
fn test_parse_with_html_entities() {
    let xml = r#"<transcript>
            <text start="0.0" dur="2.5">Hello &amp; world</text>
        </transcript>"#;

    let parser = TranscriptParser::new(false);
    let items = parser.parse(xml).unwrap();

    assert_eq!(items.len(), 1);
    assert!(items[0].text.contains("Hello"));
    assert!(items[0].text.contains("world"));
}

#[test]
fn test_parse_empty_text() {
    let xml = r#"<transcript>
            <text start="0.0" dur="2.5"></text>
        </transcript>"#;

    let parser = TranscriptParser::new(false);
    let items = parser.parse(xml).unwrap();

    assert_eq!(items.len(), 0);
}

#[test]
fn test_parse_invalid_xml() {
    let xml = "<transcript><text>Unclosed tag";

    let parser = TranscriptParser::new(false);
    assert!(parser.parse(xml).is_err());
}

#[test]
fn unclosed_elements_report_eof() {
    let parser = TranscriptParser::new(false);
    assert_eq!(
        parser.parse("<transcript><text>Unclosed tag").unwrap_err(),
        "Unexpected EOF in text element"
    );
    assert_eq!(
        parser.parse("<transcript><p t=\"1\">Unclosed").unwrap_err(),
        "Unexpected EOF in p element"
    );
}

#[test]
fn double_escaped_entities_are_decoded_twice() {
    // quick_xml turns `&amp;#39;` into `&#39;`, which the entity decoder turns into `'`
    let xml = r#"<transcript><text start="1" dur="2">it&amp;#39;s</text></transcript>"#;
    let items = TranscriptParser::new(false).parse(xml).unwrap();
    assert_eq!(items[0].text, "it's");
}

#[test]
fn p_format_spaces_for_s_tags() {
    let xml = r#"<timedtext><body><p t="100" d="900"><s>Hello</s><s>there</s></p><p t="1000"><br></br>  </p></body></timedtext>"#;
    let items = TranscriptParser::new(false).parse(xml).unwrap();
    assert_eq!(items.len(), 1);
    assert_eq!(items[0].text, "Hello there");
    assert_eq!(start(&items[0]), 0.1);
    assert_eq!(duration(&items[0]), 0.9);
    assert!(items[0].milliseconds);
}

#[test]
fn missing_or_malformed_times_are_zero() {
    let xml = r#"<transcript><text>no times</text><text start="abc" dur="1">bad start</text></transcript>"#;
    let items = TranscriptParser::new(false).parse(xml).unwrap();
    assert_eq!(items.len(), 2);
    assert_eq!(items[0].start, None);
    assert_eq!(start(&items[0]), 0.0);
    assert_eq!(items[1].start, Some(b"abc".to_vec()));
    assert_eq!(start(&items[1]), 0.0);
    assert_eq!(duration(&items[1]), 1.0);
}

#[test]
fn lines_are_trimmed() {
    let xml = "<transcript><text start=\"1\">\u{a0}  padded line \u{3000}</text></transcript>";
    let items = TranscriptParser::new(false).parse(xml).unwrap();
    assert_eq!(items[0].text, "padded line");
}

#[test]
fn items_from_events_directly() {
    let events = vec![
        XmlEvent::Start { name: b"text".to_vec(), attributes: vec![None, Some((b"start".to_vec(), b"4".to_vec()))] },
        XmlEvent::Text { content: Ok("a &lt; b".to_string()) },
        XmlEvent::End { name: b"text".to_vec() },
        XmlEvent::Other,
        XmlEvent::Eof,
    ];
    let items = items_from_events(&events).unwrap();
    assert_eq!(items.len(), 1);
    assert_eq!(items[0].text, "a < b");
    assert_eq!(items[0].start, Some(b"4".to_vec()));
    assert_eq!(items[0].duration, None);

    let failing = vec![
        XmlEvent::Start { name: b"p".to_vec(), attributes: vec![] },
        XmlEvent::Text { content: Err("bad escape".to_string()) },
    ];
    assert_eq!(items_from_events(&failing).unwrap_err(), "Failed to unescape: bad escape");

    let broken = vec![XmlEvent::Failure { message: "boom".to_string() }];
    assert_eq!(items_from_events(&broken).unwrap_err(), "XML parse error: boom");
}

#[test]
fn syntax_errors_are_reported() {
    let err = TranscriptParser::new(true).parse("<transcript></wrong>").unwrap_err();
    assert!(err.starts_with("XML parse error: "), "{}", err);
}

#[test]
fn events_of_a_small_document() {
    let events = yt::xml::read_events("<a k=\"v\"> x &amp; y </a>");
    assert_eq!(events.len(), 4);
    match &events[0] {
        XmlEvent::Start { name, attributes } => {
            assert_eq!(name, b"a");
            assert_eq!(attributes, &vec![Some((b"k".to_vec(), b"v".to_vec()))]);
        }
        _ => panic!("expected a start tag"),
    }
    match &events[1] {
        XmlEvent::Text { content } => assert_eq!(content.as_deref(), Ok("x & y")),
        _ => panic!("expected text"),
    }
    assert!(matches!(&events[2], XmlEvent::End { name } if name == b"a"));
    assert!(matches!(events[3], XmlEvent::Eof));
}

#[test]
fn flag_does_not_change_the_result() {
    let xml = r#"<transcript><text start="1" dur="2">same</text></transcript>"#;
    let a = TranscriptParser::new(false).parse(xml).unwrap();
    let b = TranscriptParser::new(true).parse(xml).unwrap();
    assert_eq!(a.len(), b.len());
    assert_eq!(a[0].text, b[0].text);
    assert_eq!(a[0].start, b[0].start);
}
