//! Reading YouTube's player response: whether the video plays, its title,
//! and the transcripts that it offers.
use vstd::prelude::*;

use crate::error::{ErrorView, TranscriptError};
use crate::json::{
    as_array, as_bool, as_str, first, get, get_at, json_array, json_at, json_bool,
    json_first, json_get, json_str, JsonValue,
};
use crate::text::{
    chars_of, contains, has_prefix, owned, replace_all, replace_chars, starts_with,
    str_contains, str_eq, string_of,
};
use crate::transcript::{
    codes_distinct, index_of_code, infos_view, lemma_index_of_code, well_kinded, languages_view, TranscriptInfo, TranscriptInfoView,
    TranscriptList, TranscriptListView, TranslationLanguage, TranslationLanguageView,
};

verus! {

/// The text of an optional string, or the empty text.
pub open spec fn str_or_empty(o: Option<Seq<char>>) -> Seq<char> {
    match o {
        Some(s) => s,
        None => Seq::empty(),
    }
}

/// The error that the playability status of the player response `data`
/// reports, if any. A response without a status, or with status `OK`,
/// reports none.
pub open spec fn playability_error(video_id: Seq<char>, data: JsonValue) -> Option<ErrorView> {
    match json_get(data, "playabilityStatus"@) {
        None => None,
        Some(ps) => {
            let status = str_or_empty(json_str(json_get(ps, "status"@)));
            let reason = str_or_empty(json_str(json_get(ps, "reason"@)));
            if status == "OK"@ {
                None
            } else if status == "LOGIN_REQUIRED"@ && contains(
                reason,
                "Sign in to confirm you're not a bot"@,
            ) {
                Some(ErrorView::RequestBlocked(video_id))
            } else if status == "LOGIN_REQUIRED"@ && contains(
                reason,
                "inappropriate for some users"@,
            ) {
                Some(ErrorView::AgeRestricted(video_id))
            } else if status == "ERROR"@ && contains(reason, "unavailable"@) {
                if has_prefix(video_id, "http://"@) || has_prefix(video_id, "https://"@) {
                    Some(ErrorView::InvalidVideoId(video_id))
                } else {
                    Some(ErrorView::VideoUnavailable(video_id))
                }
            } else {
                Some(ErrorView::VideoUnplayable(video_id, reason))
            }
        },
    }
}

/// The title that the player response gives, or why there is none.
pub open spec fn video_title(video_id: Seq<char>, data: JsonValue) -> Result<
    Seq<char>,
    ErrorView,
> {
    match playability_error(video_id, data) {
        Some(e) => Err(e),
        None => match json_get(data, "videoDetails"@) {
            None => Err(ErrorView::YouTubeDataUnparsable(video_id)),
            Some(details) => match json_str(json_get(details, "title"@)) {
                Some(t) => Ok(t),
                None => Err(ErrorView::YouTubeDataUnparsable(video_id)),
            },
        },
    }
}

/// The text of the first run of member `key` of `v`: `v.key.runs[0].text`.
pub open spec fn first_run_text(v: JsonValue, key: Seq<char>) -> Option<Seq<char>> {
    json_str(json_at(json_first(json_array(json_at(json_get(v, key), "runs"@))), "text"@))
}

/// The translation language that an entry of `translationLanguages`
/// describes, where it has a code and a name.
pub open spec fn translation_language_of(lang: JsonValue) -> Option<TranslationLanguageView> {
    match (json_str(json_get(lang, "languageCode"@)), first_run_text(lang, "languageName"@)) {
        (Some(code), Some(name)) => Some(
            TranslationLanguageView { language: name, language_code: code },
        ),
        _ => None,
    }
}

/// The translation languages described by the entries `langs`, skipping
/// incomplete ones.
pub open spec fn translation_languages_of(langs: Seq<JsonValue>) -> Seq<TranslationLanguageView>
    decreases langs.len(),
{
    if langs.len() == 0 {
        Seq::empty()
    } else {
        let init = translation_languages_of(langs.drop_last());
        match translation_language_of(langs.last()) {
            Some(l) => init.push(l),
            None => init,
        }
    }
}

/// The translation languages that a caption renderer offers.
pub open spec fn offered_translations(captions: JsonValue) -> Seq<TranslationLanguageView> {
    match json_array(json_get(captions, "translationLanguages"@)) {
        Some(a) => translation_languages_of(a),
        None => Seq::empty(),
    }
}

/// The transcript that a caption track describes, where it has a language
/// code and a base URL. The URL loses each `&fmt=srv3`; the language name
/// defaults to the code; only a translatable track lists the translations.
pub open spec fn caption_track_info(caption: JsonValue, tls: Seq<TranslationLanguageView>) -> Option<
    TranscriptInfoView,
> {
    match (json_str(json_get(caption, "languageCode"@)), json_str(json_get(caption, "baseUrl"@))) {
        (Some(code), Some(url)) => {
            let language = match first_run_text(caption, "name"@) {
                Some(t) => t,
                None => code,
            };
            let is_translatable = match json_bool(json_get(caption, "isTranslatable"@)) {
                Some(b) => b,
                None => false,
            };
            Some(
                TranscriptInfoView {
                    language_code: code,
                    language: language,
                    is_generated: json_str(json_get(caption, "kind"@)) == Some("asr"@),
                    is_translatable: is_translatable,
                    base_url: replace_all(url, "&fmt=srv3"@, Seq::empty()),
                    translation_languages: if is_translatable {
                        tls
                    } else {
                        Seq::empty()
                    },
                },
            )
        },
        _ => None,
    }
}

/// `list` with `info` stored under its language code: in place of the
/// transcript in that language, or added at the end.
pub open spec fn insert_info(list: Seq<TranscriptInfoView>, info: TranscriptInfoView) -> Seq<
    TranscriptInfoView,
> {
    match index_of_code(list, info.language_code) {
        Some(i) => list.update(i, info),
        None => list.push(info),
    }
}

/// The transcripts made by hand and the generated ones that the caption
/// tracks describe, a later track replacing an earlier one in its language.
pub open spec fn sort_tracks(tracks: Seq<JsonValue>, tls: Seq<TranslationLanguageView>) -> (Seq<
    TranscriptInfoView,
>, Seq<TranscriptInfoView>)
    decreases tracks.len(),
{
    if tracks.len() == 0 {
        (Seq::empty(), Seq::empty())
    } else {
        let (m, g) = sort_tracks(tracks.drop_last(), tls);
        match caption_track_info(tracks.last(), tls) {
            Some(info) => if info.is_generated {
                (m, insert_info(g, info))
            } else {
                (insert_info(m, info), g)
            },
            None => (m, g),
        }
    }
}

/// The transcripts that the player response `data` lists for a video, or
/// why there are none.
pub open spec fn caption_list(video_id: Seq<char>, data: JsonValue) -> Result<
    TranscriptListView,
    ErrorView,
> {
    match playability_error(video_id, data) {
        Some(e) => Err(e),
        None => match json_at(json_get(data, "captions"@), "playerCaptionsTracklistRenderer"@) {
            None => Err(ErrorView::TranscriptsDisabled(video_id)),
            Some(c) => {
                let tls = offered_translations(c);
                let tracks = match json_array(json_get(c, "captionTracks"@)) {
                    Some(a) => a,
                    None => Seq::empty(),
                };
                let (m, g) = sort_tracks(tracks, tls);
                if m.len() == 0 && g.len() == 0 {
                    Err(ErrorView::TranscriptsDisabled(video_id))
                } else {
                    Ok(
                        TranscriptListView {
                            video_id: video_id,
                            title: json_str(json_at(json_get(data, "videoDetails"@), "title"@)),
                            manually_created: m,
                            generated: g,
                            translation_languages: tls,
                        },
                    )
                }
            },
        },
    }
}

/// Every transcript of `list` lists the offered translations `tls` where it
/// is translatable, and none where it is not.
pub open spec fn translations_as_offered(
    list: Seq<TranscriptInfoView>,
    tls: Seq<TranslationLanguageView>,
) -> bool {
    forall|i: int|
        0 <= i < list.len() ==> (#[trigger] list[i]).translation_languages == (if list[i].is_translatable {
            tls
        } else {
            Seq::empty()
        })
}

proof fn lemma_insert_info(
    list: Seq<TranscriptInfoView>,
    info: TranscriptInfoView,
    generated: bool,
    tls: Seq<TranslationLanguageView>,
)
    requires
        codes_distinct(list),
        well_kinded(list, generated),
        translations_as_offered(list, tls),
        info.is_generated == generated,
        info.translation_languages == (if info.is_translatable {
            tls
        } else {
            Seq::empty()
        }),
    ensures
        codes_distinct(insert_info(list, info)),
        well_kinded(insert_info(list, info), generated),
        translations_as_offered(insert_info(list, info), tls),
        insert_info(list, info).len() > 0,
{
    lemma_index_of_code(list, info.language_code);
    let r = insert_info(list, info);
    match index_of_code(list, info.language_code) {
        Some(k) => {
            assert forall|i: int, j: int|
                0 <= i < j < r.len() implies #[trigger] r[i].language_code
                != #[trigger] r[j].language_code by {
                if i != k && j != k {
                    assert(r[i] == list[i] && r[j] == list[j]);
                }
            }
        },
        None => {
            assert forall|i: int, j: int|
                0 <= i < j < r.len() implies #[trigger] r[i].language_code
                != #[trigger] r[j].language_code by {
                if j < list.len() {
                    assert(r[i] == list[i] && r[j] == list[j]);
                } else {
                    assert(r[i] == list[i]);
                }
            }
        },
    }
}

proof fn lemma_sort_tracks(tracks: Seq<JsonValue>, tls: Seq<TranslationLanguageView>)
    ensures
        translations_as_offered(sort_tracks(tracks, tls).0, tls),
        translations_as_offered(sort_tracks(tracks, tls).1, tls),
        codes_distinct(sort_tracks(tracks, tls).0),
        codes_distinct(sort_tracks(tracks, tls).1),
        well_kinded(sort_tracks(tracks, tls).0, false),
        well_kinded(sort_tracks(tracks, tls).1, true),
    decreases tracks.len(),
{
    if tracks.len() > 0 {
        lemma_sort_tracks(tracks.drop_last(), tls);
        let (m, g) = sort_tracks(tracks.drop_last(), tls);
        match caption_track_info(tracks.last(), tls) {
            Some(info) => {
                if info.is_generated {
                    lemma_insert_info(g, info, true, tls);
                } else {
                    lemma_insert_info(m, info, false, tls);
                }
            },
            None => {},
        }
    }
}

/// Every transcript list that a player response yields is for the video
/// asked about and holds at least one transcript; no language code names
/// two transcripts of one kind; the transcripts made by hand are not
/// generated and the generated ones are; each transcript lists the offered
/// translation languages where it is translatable and none where it is
/// not; and the title is the response's `videoDetails.title`.
pub proof fn lemma_caption_list_keyed(video_id: Seq<char>, data: JsonValue)
    ensures
        caption_list(video_id, data) matches Ok(l) ==> {
            &&& l.video_id == video_id
            &&& l.manually_created.len() > 0 || l.generated.len() > 0
            &&& codes_distinct(l.manually_created)
            &&& codes_distinct(l.generated)
            &&& well_kinded(l.manually_created, false)
            &&& well_kinded(l.generated, true)
            &&& translations_as_offered(l.manually_created, l.translation_languages)
            &&& translations_as_offered(l.generated, l.translation_languages)
            &&& l.title == json_str(json_at(json_get(data, "videoDetails"@), "title"@))
        },
{
    match json_at(json_get(data, "captions"@), "playerCaptionsTracklistRenderer"@) {
        Some(c) => {
            let tracks = match json_array(json_get(c, "captionTracks"@)) {
                Some(a) => a,
                None => Seq::empty(),
            };
            lemma_sort_tracks(tracks, offered_translations(c));
        },
        None => {},
    }
}

/// The entry `entry` of `translationLanguages` describes the translation
/// language `l`: its `languageCode` is the code of `l`, and the text of the
/// first run of its `languageName` is the name of `l`.
pub open spec fn describes(entry: JsonValue, l: TranslationLanguageView) -> bool {
    &&& json_str(json_get(entry, "languageCode"@)) == Some(l.language_code)
    &&& first_run_text(entry, "languageName"@) == Some(l.language)
}

/// The entries of `translationLanguages` in the caption renderer of `data`.
pub open spec fn translation_entries(data: JsonValue) -> Seq<JsonValue> {
    match json_array(
        json_at(
            json_at(json_get(data, "captions"@), "playerCaptionsTracklistRenderer"@),
            "translationLanguages"@,
        ),
    ) {
        Some(a) => a,
        None => Seq::empty(),
    }
}

/// Each translation language read from the entries `langs` is described by
/// one of them, and each entry with both a code and a name describes one of
/// the languages read.
pub proof fn lemma_translation_languages_described(langs: Seq<JsonValue>)
    ensures
        forall|i: int|
            0 <= i < translation_languages_of(langs).len() ==> exists|j: int|
                0 <= j < langs.len() && describes(
                    langs[j],
                    #[trigger] translation_languages_of(langs)[i],
                ),
        forall|j: int|
            0 <= j < langs.len() && json_str(json_get(langs[j], "languageCode"@)) is Some
                && first_run_text(#[trigger] langs[j], "languageName"@) is Some ==> exists|i: int|
                0 <= i < translation_languages_of(langs).len() && describes(
                    langs[j],
                    translation_languages_of(langs)[i],
                ),
    decreases langs.len(),
{
    if langs.len() > 0 {
        let init = langs.drop_last();
        lemma_translation_languages_described(init);
        let ti = translation_languages_of(init);
        let t = translation_languages_of(langs);
        assert forall|j: int| 0 <= j < init.len() implies #[trigger] init[j] == langs[j] by {}
        assert forall|i: int| 0 <= i < ti.len() implies #[trigger] t[i] == ti[i] by {}
        assert forall|i: int| 0 <= i < t.len() implies exists|j: int|
            0 <= j < langs.len() && describes(langs[j], #[trigger] t[i]) by {
            if i < ti.len() {
                let j = choose|j: int| 0 <= j < init.len() && describes(init[j], ti[i]);
                assert(langs[j] == init[j]);
            } else {
                assert(describes(langs[langs.len() - 1], t[i]));
            }
        }
        assert forall|j: int|
            0 <= j < langs.len() && json_str(json_get(langs[j], "languageCode"@)) is Some
                && first_run_text(#[trigger] langs[j], "languageName"@) is Some implies exists|i: int|
            0 <= i < t.len() && describes(langs[j], t[i]) by {
            if j < init.len() {
                assert(init[j] == langs[j]);
                let i = choose|i: int| 0 <= i < ti.len() && describes(init[j], ti[i]);
                assert(t[i] == ti[i]);
            } else {
                assert(describes(langs[j], t[t.len() - 1]));
            }
        }
    }
}

/// Each translation language that a transcript list read from `data`
/// offers is described by an entry of the response's
/// `translationLanguages`: its name is the text of the first run of that
/// entry's `languageName`, its code that entry's `languageCode`.
pub proof fn lemma_translation_names(video_id: Seq<char>, data: JsonValue)
    ensures
        caption_list(video_id, data) matches Ok(l) ==> forall|i: int|
            0 <= i < l.translation_languages.len() ==> exists|j: int|
                0 <= j < translation_entries(data).len() && describes(
                    translation_entries(data)[j],
                    #[trigger] l.translation_languages[i],
                ),
{
    lemma_translation_languages_described(translation_entries(data));
}

/// Checks the playability status of the player response `data`.
pub fn assert_playability(video_id: &str, innertube_data: &JsonValue) -> (r: Result<
    (),
    TranscriptError,
>)
    ensures
        match r {
            Ok(_) => playability_error(video_id@, *innertube_data) is None,
            Err(e) => playability_error(video_id@, *innertube_data) == Some(e@),
        },
{
    let ps = match get(innertube_data, "playabilityStatus") {
        Some(ps) => ps,
        None => {
            return Ok(());
        },
    };
    let empty = String::new();
    let status = match as_str(get(ps, "status")) {
        Some(s) => s,
        None => &empty,
    };
    if str_eq(status.as_str(), "OK") {
        return Ok(());
    }
    let reason = match as_str(get(ps, "reason")) {
        Some(s) => s,
        None => &empty,
    };
    if str_eq(status.as_str(), "LOGIN_REQUIRED") {
        if str_contains(reason.as_str(), "Sign in to confirm you're not a bot") {
            return Err(TranscriptError::RequestBlocked(owned(video_id)));
        }
        if str_contains(reason.as_str(), "inappropriate for some users") {
            return Err(TranscriptError::AgeRestricted(owned(video_id)));
        }
    }
    if str_eq(status.as_str(), "ERROR") {
        if str_contains(reason.as_str(), "unavailable") {
            let vc = chars_of(video_id);
            if starts_with(vc.as_slice(), chars_of("http://").as_slice()) || starts_with(
                vc.as_slice(),
                chars_of("https://").as_slice(),
            ) {
                return Err(TranscriptError::InvalidVideoId(owned(video_id)));
            }
            return Err(TranscriptError::VideoUnavailable(owned(video_id)));
        }
    }
    Err(TranscriptError::VideoUnplayable(owned(video_id), reason.clone()))
}

/// The title of the video that the player response `data` describes.
pub fn extract_video_title(video_id: &str, innertube_data: &JsonValue) -> (r: Result<
    String,
    TranscriptError,
>)
    ensures
        match r {
            Ok(t) => video_title(video_id@, *innertube_data) == Ok::<Seq<char>, ErrorView>(t@),
            Err(e) => video_title(video_id@, *innertube_data) == Err::<Seq<char>, ErrorView>(
                e@,
            ),
        },
{
    if let Err(e) = assert_playability(video_id, innertube_data) {
        return Err(e);
    }
    let details = match get(innertube_data, "videoDetails") {
        Some(d) => d,
        None => {
            return Err(TranscriptError::YouTubeDataUnparsable(owned(video_id)));
        },
    };
    match as_str(get(details, "title")) {
        Some(t) => Ok(t.clone()),
        None => Err(TranscriptError::YouTubeDataUnparsable(owned(video_id))),
    }
}

/// A copy of the list of translation languages.
fn copy_languages(v: &Vec<TranslationLanguage>) -> (r: Vec<TranslationLanguage>)
    ensures
        languages_view(r@) == languages_view(v@),
{
    let mut r: Vec<TranslationLanguage> = Vec::new();
    let mut i: usize = 0;
    while i < v.len()
        invariant
            i <= v@.len(),
            r@.len() == i,
            languages_view(r@) == languages_view(v@).take(i as int),
        decreases v.len() - i,
    {
        let l = TranslationLanguage {
            language: v[i].language.clone(),
            language_code: v[i].language_code.clone(),
        };
        r.push(l);
        i += 1;
        assert(languages_view(r@) =~= languages_view(v@).take(i as int));
    }
    assert(languages_view(v@).take(i as int) =~= languages_view(v@));
    r
}

/// The text of the first run of member `key` of `v`.
fn run_text<'a>(v: &'a JsonValue, key: &str) -> (r: Option<&'a String>)
    ensures
        match r {
            Some(s) => first_run_text(*v, key@) == Some(s@),
            None => first_run_text(*v, key@) is None,
        },
{
    as_str(get_at(first(as_array(get_at(get(v, key), "runs"))), "text"))
}

/// The translation language that an entry of `translationLanguages`
/// describes.
fn translation_language(lang: &JsonValue) -> (r: Option<TranslationLanguage>)
    ensures
        match r {
            Some(l) => translation_language_of(*lang) == Some(l@),
            None => translation_language_of(*lang) is None,
        },
{
    let code = match as_str(get(lang, "languageCode")) {
        Some(c) => c,
        None => {
            return None;
        },
    };
    match run_text(lang, "languageName") {
        Some(name) => Some(
            TranslationLanguage { language: name.clone(), language_code: code.clone() },
        ),
        None => None,
    }
}

/// The translation languages that a caption renderer offers.
fn translation_languages(captions: &JsonValue) -> (r: Vec<TranslationLanguage>)
    ensures
        languages_view(r@) == offered_translations(*captions),
{
    let mut r: Vec<TranslationLanguage> = Vec::new();
    let langs = match as_array(get(captions, "translationLanguages")) {
        Some(a) => a,
        None => {
            return r;
        },
    };
    let mut i: usize = 0;
    assert(langs@.take(0) =~= Seq::<JsonValue>::empty());
    while i < langs.len()
        invariant
            i <= langs@.len(),
            languages_view(r@) == translation_languages_of(langs@.take(i as int)),
        decreases langs.len() - i,
    {
        assert(langs@.take(i + 1).drop_last() =~= langs@.take(i as int));
        assert(langs@.take(i + 1).last() == langs@[i as int]);
        if let Some(l) = translation_language(&langs[i]) {
            r.push(l);
        }
        i += 1;
        assert(languages_view(r@) =~= translation_languages_of(langs@.take(i as int)));
    }
    assert(langs@.take(i as int) =~= langs@);
    r
}

/// The transcript that a caption track describes.
fn caption_info(caption: &JsonValue, tls: &Vec<TranslationLanguage>) -> (r: Option<
    TranscriptInfo,
>)
    ensures
        match r {
            Some(info) => caption_track_info(*caption, languages_view(tls@)) == Some(info@),
            None => caption_track_info(*caption, languages_view(tls@)) is None,
        },
{
    let code = match as_str(get(caption, "languageCode")) {
        Some(c) => c,
        None => {
            return None;
        },
    };
    let url = match as_str(get(caption, "baseUrl")) {
        Some(u) => u,
        None => {
            return None;
        },
    };
    let nothing: Vec<char> = Vec::new();
    let pattern = chars_of("&fmt=srv3");
    proof {
        reveal_strlit("&fmt=srv3");
    }
    let base_url = string_of(
        replace_chars(
            chars_of(url.as_str()).as_slice(),
            pattern.as_slice(),
            nothing.as_slice(),
        ).as_slice(),
    );
    let language = match run_text(caption, "name") {
        Some(t) => t.clone(),
        None => code.clone(),
    };
    let is_generated = match as_str(get(caption, "kind")) {
        Some(k) => str_eq(k.as_str(), "asr"),
        None => false,
    };
    let is_translatable = match as_bool(get(caption, "isTranslatable")) {
        Some(b) => b,
        None => false,
    };
    let translation_languages = if is_translatable {
        copy_languages(tls)
    } else {
        Vec::new()
    };
    let info = TranscriptInfo {
        language_code: code.clone(),
        language,
        is_generated,
        is_translatable,
        base_url,
        translation_languages,
    };
    assert(languages_view(info.translation_languages@) =~= (if is_translatable {
        languages_view(tls@)
    } else {
        Seq::empty()
    }));
    Some(info)
}

/// Stores `info` in `list` under its language code.
fn insert_transcript(list: &mut Vec<TranscriptInfo>, info: TranscriptInfo)
    ensures
        infos_view(final(list)@) == insert_info(infos_view(old(list)@), info@),
{
    let found = crate::transcript::find_index(list, info.language_code.as_str());
    let ghost iv = info@;
    match found {
        Some(k) => {
            list.set(k, info);
            assert(infos_view(list@) =~= infos_view(old(list)@).update(k as int, iv));
        },
        None => {
            list.push(info);
            assert(infos_view(list@) =~= infos_view(old(list)@).push(iv));
        },
    }
}

/// The transcripts that the player response `data` lists for the video
/// `video_id`.
pub fn extract_captions_json(video_id: &str, innertube_data: &JsonValue) -> (r: Result<
    TranscriptList,
    TranscriptError,
>)
    ensures
        match r {
            Ok(list) => caption_list(video_id@, *innertube_data) == Ok::<
                TranscriptListView,
                ErrorView,
            >(list@),
            Err(e) => caption_list(video_id@, *innertube_data) == Err::<
                TranscriptListView,
                ErrorView,
            >(e@),
        },
        r matches Ok(list) ==> list.well_formed(),
{
    proof {
        lemma_caption_list_keyed(video_id@, *innertube_data);
    }
    if let Err(e) = assert_playability(video_id, innertube_data) {
        return Err(e);
    }
    let captions = match get_at(get(innertube_data, "captions"), "playerCaptionsTracklistRenderer") {
        Some(c) => c,
        None => {
            return Err(TranscriptError::TranscriptsDisabled(owned(video_id)));
        },
    };
    let tls = translation_languages(captions);
    let mut manual: Vec<TranscriptInfo> = Vec::new();
    let mut generated: Vec<TranscriptInfo> = Vec::new();
    let ghost tv = languages_view(tls@);
    let ghost tracks_all = match json_array(json_get(*captions, "captionTracks"@)) {
        Some(a) => a,
        None => Seq::empty(),
    };
    if let Some(tracks) = as_array(get(captions, "captionTracks")) {
        let mut i: usize = 0;
        assert(tracks@.take(0) =~= Seq::<JsonValue>::empty());
        while i < tracks.len()
            invariant
                i <= tracks@.len(),
                tv == languages_view(tls@),
                (infos_view(manual@), infos_view(generated@)) == sort_tracks(
                    tracks@.take(i as int),
                    tv,
                ),
            decreases tracks.len() - i,
        {
            assert(tracks@.take(i + 1).drop_last() =~= tracks@.take(i as int));
            assert(tracks@.take(i + 1).last() == tracks@[i as int]);
            match caption_info(&tracks[i], &tls) {
                Some(info) => {
                    if info.is_generated {
                        insert_transcript(&mut generated, info);
                    } else {
                        insert_transcript(&mut manual, info);
                    }
                },
                None => {},
            }
            i += 1;
        }
        assert(tracks@.take(i as int) =~= tracks@);
    } else {
        assert(infos_view(manual@) =~= Seq::<TranscriptInfoView>::empty());
        assert(infos_view(generated@) =~= Seq::<TranscriptInfoView>::empty());
    }
    if manual.len() == 0 && generated.len() == 0 {
        return Err(TranscriptError::TranscriptsDisabled(owned(video_id)));
    }
    let title = match as_str(get_at(get(innertube_data, "videoDetails"), "title")) {
        Some(t) => Some(t.clone()),
        None => None,
    };
    Ok(
        TranscriptList {
            video_id: owned(video_id),
            title,
            manually_created: manual,
            generated,
            translation_languages: tls,
        },
    )
}

} // verus!
