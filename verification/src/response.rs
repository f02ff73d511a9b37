//! Fetching one transcript: the address to fetch it from, and the response
//! made of what comes back.
use vstd::prelude::*;

use crate::error::{ErrorView, TranscriptError};
use crate::parser::{
    items_view, parsed_document, TranscriptItem, TranscriptItemView, TranscriptParser,
};
use crate::text::{chars_of, concat, contains, extend, owned, str_contains, str_eq, string_of};
use crate::transcript::{TranscriptInfo, TranscriptInfoView, TranslationLanguageView};
use crate::video_id::opt_string_view;

verus! {

/// A fetched transcript of a video.
#[derive(Debug)]
pub struct TranscriptResponse {
    pub video_id: String,
    pub title: Option<String>,
    pub language: String,
    pub language_code: String,
    pub is_generated: bool,
    pub is_translatable: bool,
    pub transcript: Vec<TranscriptItem>,
}

/// A `TranscriptResponse` with its strings taken as character sequences.
pub struct TranscriptResponseView {
    pub video_id: Seq<char>,
    pub title: Option<Seq<char>>,
    pub language: Seq<char>,
    pub language_code: Seq<char>,
    pub is_generated: bool,
    pub is_translatable: bool,
    pub transcript: Seq<TranscriptItemView>,
}

impl View for TranscriptResponse {
    type V = TranscriptResponseView;

    open spec fn view(&self) -> TranscriptResponseView {
        TranscriptResponseView {
            video_id: self.video_id@,
            title: opt_string_view(self.title),
            language: self.language@,
            language_code: self.language_code@,
            is_generated: self.is_generated,
            is_translatable: self.is_translatable,
            transcript: items_view(self.transcript@),
        }
    }
}

/// The characters of an optional string slice.
pub open spec fn opt_str_view(o: Option<&str>) -> Option<Seq<char>> {
    match o {
        Some(s) => Some(s@),
        None => None,
    }
}

/// `source` offers a translation into the language `code`.
pub open spec fn offers_translation(source: TranscriptInfoView, code: Seq<char>) -> bool {
    exists|i: int|
        0 <= i < source.translation_languages.len()
            && #[trigger] source.translation_languages[i].language_code == code
}

/// Why `source` cannot be translated into `target`, if it cannot.
pub open spec fn translation_error(
    source: TranscriptInfoView,
    target: Seq<char>,
    video_id: Seq<char>,
) -> Option<ErrorView> {
    if !source.is_translatable {
        Some(ErrorView::NotTranslatable(video_id))
    } else if !offers_translation(source, target) {
        Some(ErrorView::TranslationLanguageNotAvailable(target))
    } else {
        None
    }
}

/// Checks that `source` can be translated into `target_language`.
pub fn check_translation(source: &TranscriptInfo, target_language: &str, video_id: &str) -> (r:
    Result<(), TranscriptError>)
    ensures
        match r {
            Ok(_) => translation_error(source@, target_language@, video_id@) is None,
            Err(e) => translation_error(source@, target_language@, video_id@) == Some(e@),
        },
{
    if !source.is_translatable {
        return Err(TranscriptError::NotTranslatable(owned(video_id)));
    }
    let ghost sv = source@;
    let mut i: usize = 0;
    while i < source.translation_languages.len()
        invariant
            sv == source@,
            sv.is_translatable,
            i <= source.translation_languages@.len(),
            forall|j: int|
                0 <= j < i ==> #[trigger] sv.translation_languages[j].language_code
                    != target_language@,
        decreases source.translation_languages.len() - i,
    {
        if str_eq(source.translation_languages[i].language_code.as_str(), target_language) {
            assert(sv.translation_languages[i as int].language_code == target_language@);
            assert(offers_translation(sv, target_language@));
            return Ok(());
        }
        i += 1;
    }
    Err(TranscriptError::TranslationLanguageNotAvailable(owned(target_language)))
}

/// The address of a transcript: its base URL, with `&tlang=` and the
/// target language when translating.
pub open spec fn request_url(info: TranscriptInfoView, translate_to: Option<Seq<char>>) -> Seq<
    char,
> {
    match translate_to {
        Some(t) => info.base_url + "&tlang="@ + t,
        None => info.base_url,
    }
}

/// The address to fetch a transcript from, or the error for a transcript
/// that needs a proof-of-origin token (`&exp=xpe`).
pub open spec fn transcript_request(
    info: TranscriptInfoView,
    translate_to: Option<Seq<char>>,
    video_id: Seq<char>,
) -> Result<Seq<char>, ErrorView> {
    if contains(request_url(info, translate_to), "&exp=xpe"@) {
        Err(ErrorView::PoTokenRequired(video_id))
    } else {
        Ok(request_url(info, translate_to))
    }
}

/// The address to fetch the transcript `info` from.
pub fn transcript_url(info: &TranscriptInfo, translate_to: Option<&str>, video_id: &str) -> (r:
    Result<String, TranscriptError>)
    ensures
        match r {
            Ok(url) => transcript_request(info@, opt_str_view(translate_to), video_id@) == Ok::<
                Seq<char>,
                ErrorView,
            >(url@),
            Err(e) => transcript_request(info@, opt_str_view(translate_to), video_id@) == Err::<
                Seq<char>,
                ErrorView,
            >(e@),
        },
{
    let mut url = chars_of(info.base_url.as_str());
    if let Some(target) = translate_to {
        extend(&mut url, chars_of("&tlang=").as_slice());
        extend(&mut url, chars_of(target).as_slice());
    }
    let url = string_of(url.as_slice());
    if str_contains(url.as_str(), "&exp=xpe") {
        return Err(TranscriptError::PoTokenRequired(owned(video_id)));
    }
    Ok(url)
}

/// The name of the first translation language with code `code`.
pub open spec fn translation_name(langs: Seq<TranslationLanguageView>, code: Seq<char>) -> Option<
    Seq<char>,
>
    decreases langs.len(),
{
    if langs.len() == 0 {
        None
    } else if langs[0].language_code == code {
        Some(langs[0].language)
    } else {
        translation_name(langs.drop_first(), code)
    }
}

/// The language name of a response: that of the translation where there
/// is one, else that of the transcript.
pub open spec fn response_language(info: TranscriptInfoView, translate_to: Option<Seq<char>>) -> Seq<
    char,
> {
    match translate_to {
        Some(t) => match translation_name(info.translation_languages, t) {
            Some(n) => n,
            None => info.language,
        },
        None => info.language,
    }
}

/// The response for the transcript `info`, fetched as `translate_to` asks,
/// with the given title and items.
pub open spec fn response_of(
    video_id: Seq<char>,
    info: TranscriptInfoView,
    translate_to: Option<Seq<char>>,
    title: Option<Seq<char>>,
    items: Seq<TranscriptItemView>,
) -> TranscriptResponseView {
    TranscriptResponseView {
        video_id: video_id,
        title: title,
        language: response_language(info, translate_to),
        language_code: match translate_to {
            Some(t) => t,
            None => info.language_code,
        },
        is_generated: info.is_generated || translate_to is Some,
        is_translatable: info.is_translatable,
        transcript: items,
    }
}

/// The name of the translation of `info` into `code`.
fn find_translation_name(info: &TranscriptInfo, code: &str) -> (r: Option<String>)
    ensures
        opt_string_view(r) == translation_name(info@.translation_languages, code@),
{
    let ghost tl = info@.translation_languages;
    let mut i: usize = 0;
    assert(tl.skip(0) =~= tl);
    while i < info.translation_languages.len()
        invariant
            tl == info@.translation_languages,
            i <= info.translation_languages@.len(),
            translation_name(tl, code@) == translation_name(tl.skip(i as int), code@),
        decreases info.translation_languages.len() - i,
    {
        assert(tl.skip(i as int).drop_first() =~= tl.skip(i + 1));
        if str_eq(info.translation_languages[i].language_code.as_str(), code) {
            return Some(info.translation_languages[i].language.clone());
        }
        i += 1;
    }
    None
}

/// The response for the transcript `info` with the fetched `items`.
pub fn transcript_response(
    video_id: &str,
    info: &TranscriptInfo,
    translate_to: Option<&str>,
    title: Option<String>,
    items: Vec<TranscriptItem>,
) -> (r: TranscriptResponse)
    ensures
        r@ == response_of(
            video_id@,
            info@,
            opt_str_view(translate_to),
            opt_string_view(title),
            items_view(items@),
        ),
{
    let language = match translate_to {
        Some(t) => match find_translation_name(info, t) {
            Some(n) => n,
            None => info.language.clone(),
        },
        None => info.language.clone(),
    };
    let language_code = match translate_to {
        Some(t) => owned(t),
        None => info.language_code.clone(),
    };
    TranscriptResponse {
        video_id: owned(video_id),
        title,
        language,
        language_code,
        is_generated: info.is_generated || translate_to.is_some(),
        is_translatable: info.is_translatable,
        transcript: items,
    }
}

/// The items of a fetched transcript document; a document that does not
/// parse is an XML error.
pub fn parse_transcript(xml: &str) -> (r: Result<Vec<TranscriptItem>, TranscriptError>)
    ensures
        match r {
            Ok(items) => parsed_document(xml@) == Ok::<Seq<TranscriptItemView>, Seq<char>>(
                items_view(items@),
            ),
            Err(e) => match parsed_document(xml@) {
                Ok(_) => false,
                Err(m) => e@ == ErrorView::XmlParseError("Failed to parse XML: "@ + m),
            },
        },
{
    let parser = TranscriptParser::new(false);
    match parser.parse(xml) {
        Ok(items) => Ok(items),
        Err(m) => Err(TranscriptError::XmlParseError(concat("Failed to parse XML: ", m.as_str()))),
    }
}

} // verus!
