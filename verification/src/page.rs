//! What the library reads out of YouTube's HTML pages: the InnerTube API
//! key, the consent form, and the videos of a playlist.
use vstd::prelude::*;

use crate::error::{strings_view, ErrorView, TranscriptError};
use crate::text::{concat, contains, owned, str_contains, str_eq};
use crate::video_id::opt_string_view;

verus! {

#[verifier::external_type_specification]
#[verifier::external_body]
pub struct ExRegex(regex::Regex);

#[verifier::external_type_specification]
#[verifier::external_body]
pub struct ExRegexError(regex::Error);

/// A regular expression compiled from its source text.
pub struct Pattern {
    source: String,
    compiled: regex::Regex,
}

impl View for Pattern {
    type V = Seq<char>;

    closed spec fn view(&self) -> Seq<char> {
        self.source@
    }
}

/// Whether `regex::Regex::new` accepts `source`.
pub uninterp spec fn regex_compiles(source: Seq<char>) -> bool;

/// What `regex::Regex::captures` finds in `haystack` for the expression
/// `source`: `None` where it does not match, else group 1 of the leftmost
/// match, where that group took part.
pub uninterp spec fn regex_first_group(source: Seq<char>, haystack: Seq<char>) -> Option<
    Option<Seq<char>>,
>;

/// What `regex::Regex::captures_iter` finds in `haystack` for the expression
/// `source`: group 1 of each successive non-overlapping match, where that
/// group took part.
pub uninterp spec fn regex_all_groups(source: Seq<char>, haystack: Seq<char>) -> Seq<
    Option<Seq<char>>,
>;

/// The characters of optional strings.
pub open spec fn opt_strings_view(v: Seq<Option<String>>) -> Seq<Option<Seq<char>>> {
    v.map_values(|o: Option<String>| opt_string_view(o))
}

/// `regex::Regex::new`: compiles `source`; the contract claims that it
/// succeeds exactly where `regex_compiles` holds, and keeps the source.
#[verifier::external_body]
fn compile(source: &str) -> (r: Result<Pattern, regex::Error>)
    ensures
        r is Ok <==> regex_compiles(source@),
        r matches Ok(p) ==> p@ == source@,
{
    regex::Regex::new(source).map(|compiled| Pattern { source: source.to_string(), compiled })
}

/// `regex::Regex::captures`, reading group 1 of the match; the contract
/// names the result.
#[verifier::external_body]
fn first_group(p: &Pattern, haystack: &str) -> (r: Option<Option<String>>)
    ensures
        match r {
            Some(g) => regex_first_group(p@, haystack@) == Some(opt_string_view(g)),
            None => regex_first_group(p@, haystack@) is None,
        },
{
    p.compiled.captures(haystack).map(|c| c.get(1).map(|m| m.as_str().to_string()))
}

/// `regex::Regex::captures_iter`, reading group 1 of each match; the
/// contract names the result.
#[verifier::external_body]
fn all_groups(p: &Pattern, haystack: &str) -> (r: Vec<Option<String>>)
    ensures
        opt_strings_view(r@) == regex_all_groups(p@, haystack@),
{
    p.compiled.captures_iter(haystack).map(|c| c.get(1).map(|m| m.as_str().to_string())).collect()
}

/// The expression that finds the InnerTube API key in a watch page.
pub open spec fn api_key_pattern() -> Seq<char> {
    "\"INNERTUBE_API_KEY\":\\s*\"([a-zA-Z0-9_-]+)\""@
}

/// The expression that finds the value of the consent form.
pub open spec fn consent_pattern() -> Seq<char> {
    "name=\"v\" value=\"(.*?)\""@
}

/// The first expression for the videos of a playlist page.
pub open spec fn video_id_pattern() -> Seq<char> {
    "\"videoId\":\"([a-zA-Z0-9_-]{11})\""@
}

/// The second expression for the videos of a playlist page.
pub open spec fn watch_link_pattern() -> Seq<char> {
    "/watch\\?v=([a-zA-Z0-9_-]{11})"@
}

/// A page that shows YouTube's bot check.
pub open spec fn shows_recaptcha(html: Seq<char>) -> bool {
    contains(html, "class=\"g-recaptcha\""@) || contains(html, "g-recaptcha"@)
}

/// The InnerTube API key of a watch page, or why there is none.
pub open spec fn api_key_of(html: Seq<char>, video_id: Seq<char>) -> Result<Seq<char>, ErrorView> {
    if shows_recaptcha(html) {
        Err(ErrorView::IpBlocked(video_id))
    } else if !regex_compiles(api_key_pattern()) {
        Err(ErrorView::YouTubeDataUnparsable(video_id))
    } else {
        match regex_first_group(api_key_pattern(), html) {
            Some(Some(key)) => Ok(key),
            _ => Err(ErrorView::YouTubeDataUnparsable(video_id)),
        }
    }
}

/// The InnerTube API key of the watch page `html`.
pub fn extract_innertube_api_key(html: &str, video_id: &str) -> (r: Result<String, TranscriptError>)
    ensures
        match r {
            Ok(key) => api_key_of(html@, video_id@) == Ok::<Seq<char>, ErrorView>(key@),
            Err(e) => api_key_of(html@, video_id@) == Err::<Seq<char>, ErrorView>(e@),
        },
{
    if str_contains(html, "class=\"g-recaptcha\"") || str_contains(html, "g-recaptcha") {
        return Err(TranscriptError::IpBlocked(owned(video_id)));
    }
    let re = match compile("\"INNERTUBE_API_KEY\":\\s*\"([a-zA-Z0-9_-]+)\"") {
        Ok(re) => re,
        Err(_) => {
            return Err(TranscriptError::YouTubeDataUnparsable(owned(video_id)));
        },
    };
    if let Some(Some(key)) = first_group(&re, html) {
        return Ok(key);
    }
    Err(TranscriptError::YouTubeDataUnparsable(owned(video_id)))
}

/// The marker of YouTube's consent page.
pub open spec fn consent_marker() -> Seq<char> {
    "action=\"https://consent.youtube.com/s\""@
}

/// Whether `html` is YouTube's consent page.
pub fn consent_required(html: &str) -> (r: bool)
    ensures
        r == contains(html@, consent_marker()),
{
    str_contains(html, "action=\"https://consent.youtube.com/s\"")
}

/// Whether the consent form of `html` can be answered: it carries a value.
pub open spec fn consent_answerable(html: Seq<char>) -> bool {
    regex_compiles(consent_pattern()) && regex_first_group(consent_pattern(), html) matches Some(
        Some(_),
    )
}

/// Checks that the consent form of `html` carries the value that an answer
/// needs.
pub fn create_consent_cookie(html: &str, video_id: &str) -> (r: Result<(), TranscriptError>)
    ensures
        match r {
            Ok(_) => consent_answerable(html@),
            Err(e) => !consent_answerable(html@) && e@ == ErrorView::FailedToCreateConsentCookie(
                video_id@,
            ),
        },
{
    let re = match compile("name=\"v\" value=\"(.*?)\"") {
        Ok(re) => re,
        Err(_) => {
            return Err(TranscriptError::FailedToCreateConsentCookie(owned(video_id)));
        },
    };
    if let Some(Some(_value)) = first_group(&re, html) {
        return Ok(());
    }
    Err(TranscriptError::FailedToCreateConsentCookie(owned(video_id)))
}

/// The next step after a watch page was fetched.
pub enum PageStep {
    /// The page is the video's page.
    Done,
    /// The consent form was found and can be answered: fetch the page again.
    Retry,
}

/// What to do with the first watch page fetched for a video.
pub fn after_first_page(html: &str, video_id: &str) -> (r: Result<PageStep, TranscriptError>)
    ensures
        match r {
            Ok(PageStep::Done) => !contains(html@, consent_marker()),
            Ok(PageStep::Retry) => contains(html@, consent_marker()) && consent_answerable(html@),
            Err(e) => contains(html@, consent_marker()) && !consent_answerable(html@) && e@
                == ErrorView::FailedToCreateConsentCookie(video_id@),
        },
{
    if consent_required(html) {
        match create_consent_cookie(html, video_id) {
            Ok(()) => Ok(PageStep::Retry),
            Err(e) => Err(e),
        }
    } else {
        Ok(PageStep::Done)
    }
}

/// Checks the watch page fetched again after the consent form: it must not
/// be the consent page again.
pub fn after_retry_page(html: &str, video_id: &str) -> (r: Result<(), TranscriptError>)
    ensures
        match r {
            Ok(_) => !contains(html@, consent_marker()),
            Err(e) => contains(html@, consent_marker()) && e@
                == ErrorView::FailedToCreateConsentCookie(video_id@),
        },
{
    if consent_required(html) {
        Err(TranscriptError::FailedToCreateConsentCookie(owned(video_id)))
    } else {
        Ok(())
    }
}

/// The identifiers among `groups`, each once, in order of first appearance.
pub open spec fn unique_ids(groups: Seq<Option<Seq<char>>>) -> Seq<Seq<char>>
    decreases groups.len(),
{
    if groups.len() == 0 {
        Seq::empty()
    } else {
        let prev = unique_ids(groups.drop_last());
        match groups.last() {
            Some(id) => if prev.contains(id) {
                prev
            } else {
                prev.push(id)
            },
            None => prev,
        }
    }
}

/// The videos of the playlist page `html`, or why none were found: the
/// identifiers of `"videoId":"…"` entries, else those of `/watch?v=` links.
pub open spec fn playlist_ids_of(html: Seq<char>, playlist_id: Seq<char>) -> Result<
    Seq<Seq<char>>,
    ErrorView,
> {
    if !regex_compiles(video_id_pattern()) {
        Err(ErrorView::YouTubeDataUnparsable(playlist_id))
    } else if unique_ids(regex_all_groups(video_id_pattern(), html)).len() > 0 {
        Ok(unique_ids(regex_all_groups(video_id_pattern(), html)))
    } else if !regex_compiles(watch_link_pattern()) {
        Err(ErrorView::YouTubeDataUnparsable(playlist_id))
    } else if unique_ids(regex_all_groups(watch_link_pattern(), html)).len() > 0 {
        Ok(unique_ids(regex_all_groups(watch_link_pattern(), html)))
    } else {
        Err(ErrorView::YouTubeDataUnparsable("No videos found in playlist: "@ + playlist_id))
    }
}

/// `unique_ids` never repeats an identifier.
pub proof fn lemma_unique_ids_distinct(groups: Seq<Option<Seq<char>>>)
    ensures
        unique_ids(groups).no_duplicates(),
    decreases groups.len(),
{
    if groups.len() > 0 {
        lemma_unique_ids_distinct(groups.drop_last());
        let prev = unique_ids(groups.drop_last());
        if let Some(id) = groups.last() {
            if !prev.contains(id) {
                let r = prev.push(id);
                assert forall|i: int, j: int| 0 <= i < r.len() && 0 <= j < r.len() && i != j implies r[i]
                    != r[j] by {
                    if j == prev.len() as int && i < prev.len() {
                        assert(prev[i] == r[i]);
                    }
                    if i == prev.len() as int && j < prev.len() {
                        assert(prev[j] == r[j]);
                    }
                }
            }
        }
    }
}

/// Whether `id` is among `ids`.
fn has_id(ids: &Vec<String>, id: &str) -> (r: bool)
    ensures
        r == strings_view(ids@).contains(id@),
{
    let mut i: usize = 0;
    while i < ids.len()
        invariant
            i <= ids@.len(),
            forall|j: int| 0 <= j < i ==> strings_view(ids@)[j] != id@,
        decreases ids.len() - i,
    {
        if str_eq(ids[i].as_str(), id) {
            assert(strings_view(ids@)[i as int] == id@);
            return true;
        }
        i += 1;
    }
    false
}

/// The identifiers among `groups`, each once, in order of first appearance.
fn unique(groups: &Vec<Option<String>>) -> (r: Vec<String>)
    ensures
        strings_view(r@) == unique_ids(opt_strings_view(groups@)),
{
    let ghost gv = opt_strings_view(groups@);
    let mut ids: Vec<String> = Vec::new();
    let mut i: usize = 0;
    assert(gv.take(0) =~= Seq::<Option<Seq<char>>>::empty());
    assert(strings_view(ids@) =~= Seq::<Seq<char>>::empty());
    while i < groups.len()
        invariant
            gv == opt_strings_view(groups@),
            i <= groups@.len(),
            strings_view(ids@) == unique_ids(gv.take(i as int)),
        decreases groups.len() - i,
    {
        assert(gv.take(i + 1).drop_last() =~= gv.take(i as int));
        assert(gv.take(i + 1).last() == gv[i as int]);
        if let Some(id) = &groups[i] {
            if !has_id(&ids, id.as_str()) {
                let ghost before = strings_view(ids@);
                ids.push(id.clone());
                assert(strings_view(ids@) =~= before.push(id@));
            }
        }
        i += 1;
    }
    assert(gv.take(i as int) =~= gv);
    ids
}

/// The videos of the playlist page `html`, each once, in the order in
/// which the page first names them.
pub fn playlist_video_ids(html: &str, playlist_id: &str) -> (r: Result<
    Vec<String>,
    TranscriptError,
>)
    ensures
        match r {
            Ok(ids) => playlist_ids_of(html@, playlist_id@) == Ok::<Seq<Seq<char>>, ErrorView>(
                strings_view(ids@),
            ),
            Err(e) => playlist_ids_of(html@, playlist_id@) == Err::<Seq<Seq<char>>, ErrorView>(
                e@,
            ),
        },
        r matches Ok(ids) ==> ids@.len() > 0 && strings_view(ids@).no_duplicates(),
{
    let re1 = match compile("\"videoId\":\"([a-zA-Z0-9_-]{11})\"") {
        Ok(re) => re,
        Err(_) => {
            return Err(TranscriptError::YouTubeDataUnparsable(owned(playlist_id)));
        },
    };
    let ids = unique(&all_groups(&re1, html));
    proof {
        lemma_unique_ids_distinct(regex_all_groups(video_id_pattern(), html@));
        lemma_unique_ids_distinct(regex_all_groups(watch_link_pattern(), html@));
    }
    if ids.len() > 0 {
        return Ok(ids);
    }
    let re2 = match compile("/watch\\?v=([a-zA-Z0-9_-]{11})") {
        Ok(re) => re,
        Err(_) => {
            return Err(TranscriptError::YouTubeDataUnparsable(owned(playlist_id)));
        },
    };
    let ids = unique(&all_groups(&re2, html));
    if ids.len() > 0 {
        return Ok(ids);
    }
    Err(TranscriptError::YouTubeDataUnparsable(concat("No videos found in playlist: ", playlist_id)))
}

} // verus!
