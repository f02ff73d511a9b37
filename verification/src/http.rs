//! Checking HTTP answers, and the addresses that requests go to.
use vstd::prelude::*;

use crate::error::{ErrorView, TranscriptError};
use crate::json::{entries_get, json_at, json_get, json_str, JsonValue};
use crate::text::{chars_of, extend, owned, replace_all, replace_chars, string_of};
use crate::video_id::opt_string_view;

verus! {

/// The reason phrase that `http::StatusCode::canonical_reason` gives for
/// the status `code`, if it knows one.
pub uninterp spec fn canonical_reason(code: u16) -> Option<Seq<char>>;

/// `StatusCode::from_u16` and `StatusCode::canonical_reason`: the reason
/// phrase of a status in 100..=999; the contract names the result.
#[verifier::external_body]
fn status_reason(code: u16) -> (r: Option<String>)
    requires
        100 <= code <= 999,
    ensures
        opt_string_view(r) == canonical_reason(code),
{
    reqwest::StatusCode::from_u16(code).ok().and_then(|s| s.canonical_reason()).map(
        |s| s.to_string(),
    )
}

/// The decimal digit `d`.
pub open spec fn digit_char(d: nat) -> char {
    if d == 0 {
        '0'
    } else if d == 1 {
        '1'
    } else if d == 2 {
        '2'
    } else if d == 3 {
        '3'
    } else if d == 4 {
        '4'
    } else if d == 5 {
        '5'
    } else if d == 6 {
        '6'
    } else if d == 7 {
        '7'
    } else if d == 8 {
        '8'
    } else {
        '9'
    }
}

/// The decimal notation of `n`, without leading zeros.
pub open spec fn decimal(n: nat) -> Seq<char>
    decreases n,
{
    if n < 10 {
        seq![digit_char(n)]
    } else {
        decimal(n / 10).push(digit_char(n % 10))
    }
}

fn digit(d: u16) -> (c: char)
    requires
        d < 10,
    ensures
        c == digit_char(d as nat),
{
    if d == 0 {
        '0'
    } else if d == 1 {
        '1'
    } else if d == 2 {
        '2'
    } else if d == 3 {
        '3'
    } else if d == 4 {
        '4'
    } else if d == 5 {
        '5'
    } else if d == 6 {
        '6'
    } else if d == 7 {
        '7'
    } else if d == 8 {
        '8'
    } else {
        '9'
    }
}

/// Appends the decimal notation of `n` to `out`.
fn push_decimal(out: &mut Vec<char>, n: u16)
    ensures
        final(out)@ == old(out)@ + decimal(n as nat),
    decreases n,
{
    if n >= 10 {
        push_decimal(out, n / 10);
    }
    out.push(digit(n % 10));
    assert(out@ =~= old(out)@ + decimal(n as nat));
}

/// The text of an optional reason, or `default`.
pub open spec fn reason_or(reason: Option<Seq<char>>, default: Seq<char>) -> Seq<char> {
    match reason {
        Some(r) => r,
        None => default,
    }
}

/// The message for a failed HTTP status: the status as `StatusCode`
/// displays it (number and reason), then the reason again.
pub open spec fn http_status_message(code: u16) -> Seq<char> {
    "HTTP "@ + decimal(code as nat) + " "@ + reason_or(
        canonical_reason(code),
        "<unknown status code>"@,
    ) + ": "@ + reason_or(canonical_reason(code), "Unknown error"@)
}

/// The error that an HTTP status stands for, if any: 429 means the IP is
/// blocked; any other status outside 200..=299 is an HTTP error.
pub open spec fn status_error(code: u16, video_id: Seq<char>) -> Option<ErrorView> {
    if code == 429 {
        Some(ErrorView::IpBlocked(video_id))
    } else if !(200 <= code < 300) {
        Some(ErrorView::HttpError(http_status_message(code)))
    } else {
        None
    }
}

/// Checks the status of an HTTP answer (a status code in 100..=999).
pub fn check_http_errors(status: u16, video_id: &str) -> (r: Result<(), TranscriptError>)
    requires
        100 <= status <= 999,
    ensures
        match r {
            Ok(_) => status_error(status, video_id@) is None,
            Err(e) => status_error(status, video_id@) == Some(e@),
        },
{
    if status == 429 {
        return Err(TranscriptError::IpBlocked(owned(video_id)));
    }
    if !(200 <= status && status < 300) {
        let reason = status_reason(status);
        let mut m = chars_of("HTTP ");
        push_decimal(&mut m, status);
        extend(&mut m, chars_of(" ").as_slice());
        match &reason {
            Some(r) => extend(&mut m, chars_of(r.as_str()).as_slice()),
            None => extend(&mut m, chars_of("<unknown status code>").as_slice()),
        }
        extend(&mut m, chars_of(": ").as_slice());
        match &reason {
            Some(r) => extend(&mut m, chars_of(r.as_str()).as_slice()),
            None => extend(&mut m, chars_of("Unknown error").as_slice()),
        }
        return Err(TranscriptError::HttpError(string_of(m.as_slice())));
    }
    Ok(())
}

/// `template` with its placeholder replaced by `value`.
fn fill(template: &str, placeholder: &str, value: &str) -> (r: String)
    requires
        placeholder@.len() > 0,
    ensures
        r@ == replace_all(template@, placeholder@, value@),
{
    string_of(
        replace_chars(
            chars_of(template).as_slice(),
            chars_of(placeholder).as_slice(),
            chars_of(value).as_slice(),
        ).as_slice(),
    )
}

/// The address of the watch page of a video.
pub fn watch_url(video_id: &str) -> (r: String)
    ensures
        r@ == replace_all(
            "https://www.youtube.com/watch?v={video_id}"@,
            "{video_id}"@,
            video_id@,
        ),
{
    proof {
        reveal_strlit("{video_id}");
    }
    fill("https://www.youtube.com/watch?v={video_id}", "{video_id}", video_id)
}

/// The address of the page of a playlist.
pub fn playlist_url(playlist_id: &str) -> (r: String)
    ensures
        r@ == replace_all(
            "https://www.youtube.com/playlist?list={playlist_id}"@,
            "{playlist_id}"@,
            playlist_id@,
        ),
{
    proof {
        reveal_strlit("{playlist_id}");
    }
    fill("https://www.youtube.com/playlist?list={playlist_id}", "{playlist_id}", playlist_id)
}

/// The address of the InnerTube player API for an API key.
pub fn innertube_url(api_key: &str) -> (r: String)
    ensures
        r@ == replace_all(
            "https://www.youtube.com/youtubei/v1/player?key={api_key}"@,
            "{api_key}"@,
            api_key@,
        ),
{
    proof {
        reveal_strlit("{api_key}");
    }
    fill("https://www.youtube.com/youtubei/v1/player?key={api_key}", "{api_key}", api_key)
}

/// A JSON object with the given members.
fn object(members: Vec<(String, JsonValue)>) -> (r: JsonValue)
    ensures
        r == JsonValue::Object(members),
{
    JsonValue::Object(members)
}

/// The body of the InnerTube player request for a video: the Android
/// client `20.10.38` asks for the video.
pub fn innertube_request(video_id: &str) -> (r: JsonValue)
    ensures
        json_str(json_at(json_at(json_get(r, "context"@), "client"@), "clientName"@)) == Some(
            "ANDROID"@,
        ),
        json_str(json_at(json_at(json_get(r, "context"@), "client"@), "clientVersion"@)) == Some(
            "20.10.38"@,
        ),
        json_str(json_get(r, "videoId"@)) == Some(video_id@),
        r matches JsonValue::Object(members) && members@.len() == 2,
        json_get(r, "context"@) matches Some(JsonValue::Object(members)) && members@.len() == 1,
        json_at(json_get(r, "context"@), "client"@) matches Some(JsonValue::Object(members))
            && members@.len() == 2,
{
    let client_members = vec![
        (owned("clientName"), JsonValue::String(owned("ANDROID"))),
        (owned("clientVersion"), JsonValue::String(owned("20.10.38"))),
    ];
    let ghost cm = client_members@;
    let client = object(client_members);
    let context = object(vec![(owned("client"), client)]);
    let body_members = vec![
        (owned("context"), context),
        (owned("videoId"), JsonValue::String(owned(video_id))),
    ];
    let ghost bm = body_members@;
    let body = object(body_members);
    proof {
        reveal_strlit("clientName");
        reveal_strlit("clientVersion");
        reveal_strlit("context");
        reveal_strlit("videoId");
        reveal_strlit("client");
        assert("context"@[0] != "videoId"@[0]);
        assert("clientName"@[6] != "clientVersion"@[6]);
        assert(bm.drop_first()[0] == bm[1]);
        assert(cm.drop_first()[0] == cm[1]);
        assert(entries_get(bm.drop_first(), "videoId"@) == Some(bm[1].1));
        assert(entries_get(cm.drop_first(), "clientVersion"@) == Some(cm[1].1));
    }
    body
}

} // verus!
