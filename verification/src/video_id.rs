//! Extracting video and playlist identifiers from what a user types: a bare
//! identifier or a YouTube URL.
use vstd::prelude::*;

use crate::error::{strings_view, ErrorView, TranscriptError};
use crate::text::{
    chars_of, concat, contains, has_prefix, starts_with, str_contains, str_eq, string_of,
    is_trimmed, is_white_space, trim, trim_chars, trim_start,
};

verus! {

/// The parts of a parsed URL that the extraction reads.
pub struct UrlParts {
    pub host: Option<String>,
    pub query_pairs: Vec<(String, String)>,
    pub path_segments: Option<Vec<String>>,
}

/// A `UrlParts` with its strings taken as character sequences.
pub struct UrlPartsView {
    pub host: Option<Seq<char>>,
    pub query_pairs: Seq<(Seq<char>, Seq<char>)>,
    pub path_segments: Option<Seq<Seq<char>>>,
}

/// The characters of an optional string.
pub open spec fn opt_string_view(o: Option<String>) -> Option<Seq<char>> {
    match o {
        Some(s) => Some(s@),
        None => None,
    }
}

/// The characters of a list of string pairs.
pub open spec fn pairs_view(v: Seq<(String, String)>) -> Seq<(Seq<char>, Seq<char>)> {
    v.map_values(|p: (String, String)| (p.0@, p.1@))
}

impl View for UrlParts {
    type V = UrlPartsView;

    open spec fn view(&self) -> UrlPartsView {
        UrlPartsView {
            host: opt_string_view(self.host),
            query_pairs: pairs_view(self.query_pairs@),
            path_segments: match self.path_segments {
                Some(v) => Some(strings_view(v@)),
                None => None,
            },
        }
    }
}

/// What `url::Url::parse` makes of `input`: its host, its decoded query
/// pairs and its path segments, or `None` where it rejects `input`.
pub uninterp spec fn parsed_url(input: Seq<char>) -> Option<UrlPartsView>;

/// Whether `char::is_alphanumeric` holds of `c`.
pub uninterp spec fn char_is_alphanumeric(c: char) -> bool;

/// Parses `input` with `url::Url::parse` and reads the host (`host_str`),
/// the decoded query pairs (`query_pairs`) and the path segments
/// (`path_segments`) of the result; the contract claims only that the
/// result is what `parsed_url` names for `input`.
#[verifier::external_body]
fn parse_url(input: &str) -> (r: Option<UrlParts>)
    ensures
        match r {
            Some(p) => parsed_url(input@) == Some(p@),
            None => parsed_url(input@) is None,
        },
{
    let url = url::Url::parse(input).ok()?;
    Some(UrlParts {
        host: url.host_str().map(|h| h.to_string()),
        query_pairs: url.query_pairs().map(|(k, v)| (k.into_owned(), v.into_owned())).collect(),
        path_segments: url.path_segments().map(|s| s.map(|p| p.to_string()).collect()),
    })
}

/// `char::is_alphanumeric`; the contract names its result, and claims that
/// a character it holds of is no white space: it holds of the characters
/// with the Unicode `Alphabetic` property or a numeric general category,
/// and none of those has the `White_Space` property.
#[verifier::external_body]
fn is_alphanumeric(c: char) -> (b: bool)
    ensures
        b == char_is_alphanumeric(c),
        b ==> !is_white_space(c),
{
    c.is_alphanumeric()
}

/// The number of bytes of the UTF-8 encoding of `s`.
pub open spec fn utf8_len(s: Seq<char>) -> nat
    decreases s.len(),
{
    if s.len() == 0 {
        0
    } else {
        utf8_len(s.drop_last()) + char_utf8_len(s.last())
    }
}

/// The number of bytes of the UTF-8 encoding of `c`.
pub open spec fn char_utf8_len(c: char) -> nat {
    if (c as u32) < 0x80 {
        1
    } else if (c as u32) < 0x800 {
        2
    } else if (c as u32) < 0x10000 {
        3
    } else {
        4
    }
}

/// A character that may stand in a video identifier.
pub open spec fn is_id_char(c: char) -> bool {
    char_is_alphanumeric(c) || c == '-' || c == '_'
}

/// An 11-byte string of identifier characters.
pub open spec fn valid_video_id(s: Seq<char>) -> bool {
    &&& utf8_len(s) == 11
    &&& forall|i: int| 0 <= i < s.len() ==> is_id_char(#[trigger] s[i])
}

/// The value of the first query pair whose key is `key`.
pub open spec fn query_value(pairs: Seq<(Seq<char>, Seq<char>)>, key: Seq<char>) -> Option<
    Seq<char>,
>
    decreases pairs.len(),
{
    if pairs.len() == 0 {
        None
    } else if pairs[0].0 == key {
        Some(pairs[0].1)
    } else {
        query_value(pairs.drop_first(), key)
    }
}

/// No character of `s` is white space.
pub open spec fn no_white_space(s: Seq<char>) -> bool {
    forall|i: int| 0 <= i < s.len() ==> !is_white_space(#[trigger] s[i])
}

/// A host of YouTube, for video links.
pub open spec fn is_video_host(h: Seq<char>) -> bool {
    contains(h, "youtube.com"@) || contains(h, "youtu.be"@)
}

/// The `v` query parameter of a URL, where it is a valid identifier.
pub open spec fn query_video_id(p: UrlPartsView) -> Option<Seq<char>> {
    match query_value(p.query_pairs, "v"@) {
        Some(v) => if valid_video_id(v) {
            Some(v)
        } else {
            None
        },
        None => None,
    }
}

/// The first path segment of a URL, where it is a valid identifier.
pub open spec fn first_segment_id(p: UrlPartsView) -> Option<Seq<char>> {
    match p.path_segments {
        Some(segs) => if segs.len() > 0 && valid_video_id(segs[0]) {
            Some(segs[0])
        } else {
            None
        },
        None => None,
    }
}

/// The path segment after a leading `embed`, where it is a valid identifier.
pub open spec fn embed_segment_id(p: UrlPartsView) -> Option<Seq<char>> {
    match p.path_segments {
        Some(segs) => if segs.len() >= 2 && segs[0] == "embed"@ && valid_video_id(segs[1]) {
            Some(segs[1])
        } else {
            None
        },
        None => None,
    }
}

/// The video identifier that a parsed YouTube URL carries: the `v` query
/// parameter, else the first path segment of a `youtu.be` link, else the
/// segment after `embed`; each only where it is a valid identifier.
pub open spec fn url_video_id(p: UrlPartsView) -> Option<Seq<char>> {
    match p.host {
        Some(h) => if !is_video_host(h) {
            None
        } else if query_video_id(p) is Some {
            query_video_id(p)
        } else if h == "youtu.be"@ && first_segment_id(p) is Some {
            first_segment_id(p)
        } else {
            embed_segment_id(p)
        },
        None => None,
    }
}

/// The text that is handed to the URL parser: `input` itself, or `input`
/// behind `https://` where it names a YouTube host but no scheme.
pub open spec fn url_candidate(input: Seq<char>, hosts_for_scheme: bool) -> Seq<char> {
    if has_prefix(input, "http://"@) || has_prefix(input, "https://"@) {
        input
    } else if hosts_for_scheme {
        "https://"@ + input
    } else {
        input
    }
}

/// The video identifier that `url_or_id` names, if any: the trimmed input
/// itself where it is a valid identifier, else what its URL carries.
pub open spec fn video_id_of(url_or_id: Seq<char>) -> Option<Seq<char>> {
    let input = trim(url_or_id);
    if valid_video_id(input) {
        Some(input)
    } else {
        match parsed_url(url_candidate(input, is_video_host(input))) {
            Some(p) => url_video_id(p),
            None => None,
        }
    }
}

/// The playlist identifier that a parsed URL carries: the `list` query
/// parameter of a `youtube.com` URL.
pub open spec fn url_playlist_id(p: UrlPartsView) -> Option<Seq<char>> {
    match p.host {
        Some(h) => if contains(h, "youtube.com"@) {
            query_value(p.query_pairs, "list"@)
        } else {
            None
        },
        None => None,
    }
}

/// What extracting a playlist identifier from `url_or_id` gives: `Err(true)`
/// where the URL does not parse, `Err(false)` where it carries no playlist.
pub open spec fn playlist_id_of(url_or_id: Seq<char>) -> Result<Seq<char>, bool> {
    let input = trim(url_or_id);
    match parsed_url(url_candidate(input, contains(input, "youtube.com"@))) {
        Some(p) => match url_playlist_id(p) {
            Some(id) => Ok(id),
            None => Err(false),
        },
        None => Err(true),
    }
}

/// Every identifier that an input names is a valid identifier: eleven bytes
/// of letters, digits, `-` and `_`.
pub proof fn lemma_video_id_valid(url_or_id: Seq<char>)
    ensures
        video_id_of(url_or_id) matches Some(id) ==> valid_video_id(id),
{
}

/// An input that, trimmed, is a valid identifier names that identifier.
pub proof fn lemma_bare_id_kept(url_or_id: Seq<char>)
    requires
        valid_video_id(trim(url_or_id)),
    ensures
        video_id_of(url_or_id) == Some(trim(url_or_id)),
{
}

/// An identifier that an input names, and that neither begins nor ends with
/// white space, names itself again.
pub proof fn lemma_video_id_stable_when_trimmed(url_or_id: Seq<char>, id: Seq<char>)
    requires
        video_id_of(url_or_id) == Some(id),
        is_trimmed(id),
    ensures
        video_id_of(id) == Some(id),
{
    lemma_trimmed_is_fixed(id);
}

/// The video identifier carried by what `parsed` makes of a URL, if any.
pub open spec fn id_in_parsed(parsed: Option<UrlPartsView>) -> Option<Seq<char>> {
    match parsed {
        Some(p) => url_video_id(p),
        None => None,
    }
}

/// An input that, trimmed, is no valid identifier is read as a URL: where
/// it begins with `http://` or `https://` it is parsed as it stands; where
/// it has no such scheme and names a YouTube host, it is parsed behind
/// `https://`; otherwise it is parsed as it stands.
pub proof fn lemma_url_as_given(url_or_id: Seq<char>)
    requires
        !valid_video_id(trim(url_or_id)),
    ensures
        has_prefix(trim(url_or_id), "http://"@) || has_prefix(trim(url_or_id), "https://"@)
            ==> video_id_of(url_or_id) == id_in_parsed(parsed_url(trim(url_or_id))),
        !has_prefix(trim(url_or_id), "http://"@) && !has_prefix(trim(url_or_id), "https://"@)
            && is_video_host(trim(url_or_id)) ==> video_id_of(url_or_id) == id_in_parsed(
            parsed_url("https://"@ + trim(url_or_id)),
        ),
        !has_prefix(trim(url_or_id), "http://"@) && !has_prefix(trim(url_or_id), "https://"@)
            && !is_video_host(trim(url_or_id)) ==> video_id_of(url_or_id) == id_in_parsed(
            parsed_url(trim(url_or_id)),
        ),
{
}

/// What extracting a playlist identifier gives for what `parsed` makes of a
/// URL: `Err(true)` where it did not parse, `Err(false)` where it carries
/// no playlist.
pub open spec fn playlist_in_parsed(parsed: Option<UrlPartsView>) -> Result<Seq<char>, bool> {
    match parsed {
        Some(p) => match url_playlist_id(p) {
            Some(id) => Ok(id),
            None => Err(false),
        },
        None => Err(true),
    }
}

/// A playlist URL is read the same way: where it begins with `http://` or
/// `https://` it is parsed as it stands; where it has no such scheme and
/// names `youtube.com`, it is parsed behind `https://`; otherwise it is
/// parsed as it stands.
pub proof fn lemma_playlist_url_as_given(url_or_id: Seq<char>)
    ensures
        has_prefix(trim(url_or_id), "http://"@) || has_prefix(trim(url_or_id), "https://"@)
            ==> playlist_id_of(url_or_id) == playlist_in_parsed(parsed_url(trim(url_or_id))),
        !has_prefix(trim(url_or_id), "http://"@) && !has_prefix(trim(url_or_id), "https://"@)
            && contains(trim(url_or_id), "youtube.com"@) ==> playlist_id_of(url_or_id)
            == playlist_in_parsed(parsed_url("https://"@ + trim(url_or_id))),
        !has_prefix(trim(url_or_id), "http://"@) && !has_prefix(trim(url_or_id), "https://"@)
            && !contains(trim(url_or_id), "youtube.com"@) ==> playlist_id_of(url_or_id)
            == playlist_in_parsed(parsed_url(trim(url_or_id))),
{
}

proof fn lemma_trimmed_is_fixed(t: Seq<char>)
    requires
        is_trimmed(t),
    ensures
        trim(t) == t,
{
    assert(trim_start(t) == t);
}

/// Computes `utf8_len(s) == 11`.
fn utf8_len_is_11(s: &[char]) -> (r: bool)
    ensures
        r == (utf8_len(s@) == 11),
{
    let mut total: usize = 0;
    let mut i: usize = 0;
    assert(s@.take(0) =~= Seq::<char>::empty());
    while i < s.len()
        invariant
            i <= s@.len(),
            total <= 11,
            utf8_len(s@.take(i as int)) == total,
        decreases s.len() - i,
    {
        let c = s[i];
        let w: usize = if (c as u32) < 0x80 {
            1
        } else if (c as u32) < 0x800 {
            2
        } else if (c as u32) < 0x10000 {
            3
        } else {
            4
        };
        assert(s@.take(i + 1).drop_last() =~= s@.take(i as int));
        total = total + w;
        i += 1;
        if total > 11 {
            proof {
                lemma_utf8_len_grows(s@, i as int);
            }
            return false;
        }
    }
    assert(s@.take(i as int) =~= s@);
    total == 11
}

proof fn lemma_utf8_len_grows(s: Seq<char>, i: int)
    requires
        0 <= i <= s.len(),
    ensures
        utf8_len(s.take(i)) <= utf8_len(s),
    decreases s.len(),
{
    if i < s.len() {
        assert(s.drop_last().take(i) =~= s.take(i));
        lemma_utf8_len_grows(s.drop_last(), i);
    } else {
        assert(s.take(i) =~= s);
    }
}

/// Whether `s` is a valid video identifier.
pub fn is_valid_video_id(s: &str) -> (r: bool)
    ensures
        r == valid_video_id(s@),
        r ==> no_white_space(s@),
{
    let cs = chars_of(s);
    if !utf8_len_is_11(cs.as_slice()) {
        return false;
    }
    let mut i: usize = 0;
    while i < cs.len()
        invariant
            cs@ == s@,
            i <= cs@.len(),
            forall|j: int| 0 <= j < i ==> is_id_char(#[trigger] cs@[j]),
            forall|j: int| 0 <= j < i ==> !is_white_space(#[trigger] cs@[j]),
        decreases cs.len() - i,
    {
        let c = cs[i];
        if !(is_alphanumeric(c) || c == '-' || c == '_') {
            return false;
        }
        i += 1;
    }
    true
}

/// The value of the first query pair whose key is `key`.
pub fn find_query_value(pairs: &Vec<(String, String)>, key: &str) -> (r: Option<String>)
    ensures
        opt_string_view(r) == query_value(pairs_view(pairs@), key@),
{
    let ghost pv = pairs_view(pairs@);
    let mut i: usize = 0;
    assert(pv.skip(0) =~= pv);
    while i < pairs.len()
        invariant
            pv == pairs_view(pairs@),
            i <= pairs@.len(),
            query_value(pv, key@) == query_value(pv.skip(i as int), key@),
        decreases pairs.len() - i,
    {
        assert(pv.skip(i as int).drop_first() =~= pv.skip(i + 1));
        if str_eq(pairs[i].0.as_str(), key) {
            return Some(pairs[i].1.clone());
        }
        i += 1;
    }
    None
}

/// Whether `h` is a YouTube host for video links.
fn video_host(h: &str) -> (r: bool)
    ensures
        r == is_video_host(h@),
{
    str_contains(h, "youtube.com") || str_contains(h, "youtu.be")
}

/// The video identifier that a parsed URL carries, as `url_video_id` says.
pub fn video_id_from_url(p: &UrlParts) -> (r: Option<String>)
    ensures
        opt_string_view(r) == url_video_id(p@),
        r matches Some(id) ==> no_white_space(id@),
{
    let host = match &p.host {
        Some(h) => h,
        None => {
            return None;
        },
    };
    if !video_host(host.as_str()) {
        return None;
    }
    if let Some(v) = find_query_value(&p.query_pairs, "v") {
        if is_valid_video_id(v.as_str()) {
            return Some(v);
        }
    }
    if str_eq(host.as_str(), "youtu.be") {
        if let Some(segs) = &p.path_segments {
            if segs.len() > 0 && is_valid_video_id(segs[0].as_str()) {
                return Some(segs[0].clone());
            }
        }
    }
    if let Some(segs) = &p.path_segments {
        if segs.len() >= 2 && str_eq(segs[0].as_str(), "embed") && is_valid_video_id(
            segs[1].as_str(),
        ) {
            return Some(segs[1].clone());
        }
    }
    None
}

/// The playlist identifier that a parsed URL carries, as `url_playlist_id`
/// says.
pub fn playlist_id_from_url(p: &UrlParts) -> (r: Option<String>)
    ensures
        opt_string_view(r) == url_playlist_id(p@),
{
    match &p.host {
        Some(h) => {
            if str_contains(h.as_str(), "youtube.com") {
                find_query_value(&p.query_pairs, "list")
            } else {
                None
            }
        },
        None => None,
    }
}

/// The text handed to the URL parser, as `url_candidate` says.
fn candidate_url(input: &str, hosts_for_scheme: bool) -> (r: String)
    ensures
        r@ == url_candidate(input@, hosts_for_scheme),
{
    let cs = chars_of(input);
    let http = chars_of("http://");
    let https = chars_of("https://");
    if starts_with(cs.as_slice(), http.as_slice()) || starts_with(
        cs.as_slice(),
        https.as_slice(),
    ) {
        string_of(cs.as_slice())
    } else if hosts_for_scheme {
        concat("https://", input)
    } else {
        string_of(cs.as_slice())
    }
}

/// The message of the error for an input that names no video.
pub open spec fn invalid_video_message(url_or_id: Seq<char>) -> Seq<char> {
    url_or_id + " (YouTube video IDs must be 11 characters, or a valid YouTube URL)"@
}

/// The video identifier that `url_or_id` names: the identifier itself, or
/// one taken from a YouTube watch, short or embed URL. An identifier it
/// gives names itself again.
pub fn extract_video_id(url_or_id: &str) -> (r: Result<String, TranscriptError>)
    ensures
        match r {
            Ok(id) => video_id_of(url_or_id@) == Some(id@) && video_id_of(id@) == Some(id@),
            Err(e) => video_id_of(url_or_id@) is None && e@ == ErrorView::InvalidVideoId(
                invalid_video_message(url_or_id@),
            ),
        },
{
    let trimmed = trim_chars(chars_of(url_or_id).as_slice());
    let input = string_of(trimmed.as_slice());
    if is_valid_video_id(input.as_str()) {
        proof {
            lemma_video_id_stable_when_trimmed(url_or_id@, input@);
        }
        return Ok(input);
    }
    let url_str = candidate_url(input.as_str(), video_host(input.as_str()));
    if let Some(parts) = parse_url(url_str.as_str()) {
        if let Some(id) = video_id_from_url(&parts) {
            proof {
                lemma_video_id_stable_when_trimmed(url_or_id@, id@);
            }
            return Ok(id);
        }
    }
    Err(
        TranscriptError::InvalidVideoId(
            concat(url_or_id, " (YouTube video IDs must be 11 characters, or a valid YouTube URL)"),
        ),
    )
}

/// The playlist identifier of a YouTube playlist URL: its `list` parameter.
pub fn extract_playlist_id(url_or_id: &str) -> (r: Result<String, TranscriptError>)
    ensures
        match r {
            Ok(id) => playlist_id_of(url_or_id@) == Ok::<Seq<char>, bool>(id@),
            Err(e) => match playlist_id_of(url_or_id@) {
                Ok(_) => false,
                Err(true) => e@ == ErrorView::InvalidVideoId(
                    url_or_id@ + " (Invalid playlist URL)"@,
                ),
                Err(false) => e@ == ErrorView::InvalidVideoId(
                    url_or_id@ + " (Could not extract playlist ID from URL)"@,
                ),
            },
        },
{
    let trimmed = trim_chars(chars_of(url_or_id).as_slice());
    let input = string_of(trimmed.as_slice());
    let url_str = candidate_url(input.as_str(), str_contains(input.as_str(), "youtube.com"));
    match parse_url(url_str.as_str()) {
        Some(parts) => match playlist_id_from_url(&parts) {
            Some(id) => Ok(id),
            None => Err(
                TranscriptError::InvalidVideoId(
                    concat(url_or_id, " (Could not extract playlist ID from URL)"),
                ),
            ),
        },
        None => Err(TranscriptError::InvalidVideoId(concat(url_or_id, " (Invalid playlist URL)"))),
    }
}

} // verus!
