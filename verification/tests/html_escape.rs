use yt::{decode_entity, decode_html_entities};

#[test]
fn test_decode_basic_entities() {
    assert_eq!(decode_html_entities("&quot;"), "\"");
    assert_eq!(decode_html_entities("&amp;"), "&");
    assert_eq!(decode_html_entities("&apos;"), "'");
    assert_eq!(decode_html_entities("&lt;"), "<");
    assert_eq!(decode_html_entities("&gt;"), ">");
    assert_eq!(decode_html_entities("&nbsp;"), " ");
}

#[test]
fn test_decode_hex_entities() {
    assert_eq!(decode_html_entities("&#x41;"), "A");
    assert_eq!(decode_html_entities("&#x61;"), "a");
}

#[test]
fn test_decode_decimal_entities() {
    assert_eq!(decode_html_entities("&#65;"), "A");
    assert_eq!(decode_html_entities("&#97;"), "a");
}

#[test]
fn test_decode_mixed() {
    assert_eq!(
        decode_html_entities("Hello &amp; world &quot;test&quot;"),
        "Hello & world \"test\""
    );
}

#[test]
fn test_decode_unknown_entity() {
    assert_eq!(decode_html_entities("&unknown;"), "&unknown;");
}

#[test]
fn plain_text_is_unchanged() {
    assert_eq!(decode_html_entities("no entities here; at all"), "no entities here; at all");
    assert_eq!(decode_html_entities(""), "");
}

#[test]
fn upper_case_hex_and_plus_sign() {
    assert_eq!(decode_html_entities("&#X4A;"), "J");
    assert_eq!(decode_html_entities("&#x+41;"), "A");
    assert_eq!(decode_html_entities("&#+65;"), "A");
}

#[test]
fn numeric_entities_outside_unicode_stay() {
    assert_eq!(decode_html_entities("&#xD800;"), "&#xD800;");
    assert_eq!(decode_html_entities("&#x110000;"), "&#x110000;");
    assert_eq!(decode_html_entities("&#99999999999;"), "&#99999999999;");
    assert_eq!(decode_html_entities("&#x;"), "&#x;");
    assert_eq!(decode_html_entities("&#;"), "&#;");
    assert_eq!(decode_html_entities("&#-1;"), "&#-1;");
}

#[test]
fn non_ascii_code_points() {
    assert_eq!(decode_html_entities("&#x1F600;"), "\u{1F600}");
    assert_eq!(decode_html_entities("&#233;t&#233;"), "été");
}

#[test]
fn entity_without_semicolon_takes_the_rest() {
    // the entity runs to the end of the text and is written back with a `;`
    assert_eq!(decode_html_entities("a & b"), "a & b;");
    assert_eq!(decode_html_entities("x &amp"), "x &");
}

#[test]
fn decode_entity_by_name() {
    assert_eq!(decode_entity("lt"), "<");
    assert_eq!(decode_entity("#x263A"), "\u{263A}");
    assert_eq!(decode_entity("bogus"), "&bogus;");
}
