//! The transcripts that a video offers, and choosing among them.
use vstd::prelude::*;

use crate::error::{strings_view, ErrorView, TranscriptError};
use crate::text::{owned, str_eq};
use crate::video_id::opt_string_view;

verus! {

/// A language that a transcript can be translated into.
#[derive(Debug)]
pub struct TranslationLanguage {
    pub language: String,
    pub language_code: String,
}

/// A `TranslationLanguage` with its strings taken as character sequences.
pub struct TranslationLanguageView {
    pub language: Seq<char>,
    pub language_code: Seq<char>,
}

impl View for TranslationLanguage {
    type V = TranslationLanguageView;

    open spec fn view(&self) -> TranslationLanguageView {
        TranslationLanguageView { language: self.language@, language_code: self.language_code@ }
    }
}

/// The views of a list of translation languages.
pub open spec fn languages_view(v: Seq<TranslationLanguage>) -> Seq<TranslationLanguageView> {
    v.map_values(|l: TranslationLanguage| l@)
}

/// One transcript of a video.
#[derive(Debug)]
pub struct TranscriptInfo {
    pub language_code: String,
    pub language: String,
    pub is_generated: bool,
    pub is_translatable: bool,
    pub base_url: String,
    pub translation_languages: Vec<TranslationLanguage>,
}

/// A `TranscriptInfo` with its strings taken as character sequences.
pub struct TranscriptInfoView {
    pub language_code: Seq<char>,
    pub language: Seq<char>,
    pub is_generated: bool,
    pub is_translatable: bool,
    pub base_url: Seq<char>,
    pub translation_languages: Seq<TranslationLanguageView>,
}

impl View for TranscriptInfo {
    type V = TranscriptInfoView;

    open spec fn view(&self) -> TranscriptInfoView {
        TranscriptInfoView {
            language_code: self.language_code@,
            language: self.language@,
            is_generated: self.is_generated,
            is_translatable: self.is_translatable,
            base_url: self.base_url@,
            translation_languages: languages_view(self.translation_languages@),
        }
    }
}

/// The views of a list of transcripts.
pub open spec fn infos_view(v: Seq<TranscriptInfo>) -> Seq<TranscriptInfoView> {
    v.map_values(|t: TranscriptInfo| t@)
}

/// The transcripts of a video, keyed by language code: those made by hand
/// and those generated by speech recognition. Each kind is a list in which
/// a language code names at most one transcript (see `well_formed`).
pub struct TranscriptList {
    pub video_id: String,
    pub title: Option<String>,
    pub manually_created: Vec<TranscriptInfo>,
    pub generated: Vec<TranscriptInfo>,
    pub translation_languages: Vec<TranslationLanguage>,
}

/// A `TranscriptList` with its strings taken as character sequences.
pub struct TranscriptListView {
    pub video_id: Seq<char>,
    pub title: Option<Seq<char>>,
    pub manually_created: Seq<TranscriptInfoView>,
    pub generated: Seq<TranscriptInfoView>,
    pub translation_languages: Seq<TranslationLanguageView>,
}

impl View for TranscriptList {
    type V = TranscriptListView;

    open spec fn view(&self) -> TranscriptListView {
        TranscriptListView {
            video_id: self.video_id@,
            title: opt_string_view(self.title),
            manually_created: infos_view(self.manually_created@),
            generated: infos_view(self.generated@),
            translation_languages: languages_view(self.translation_languages@),
        }
    }
}

/// No two transcripts of `list` share a language code.
pub open spec fn codes_distinct(list: Seq<TranscriptInfoView>) -> bool {
    forall|i: int, j: int|
        0 <= i < j < list.len() ==> #[trigger] list[i].language_code
            != #[trigger] list[j].language_code
}

/// Every transcript of `list` has `is_generated == generated`, and lists
/// translations only where it is translatable.
pub open spec fn well_kinded(list: Seq<TranscriptInfoView>, generated: bool) -> bool {
    forall|i: int|
        0 <= i < list.len() ==> (#[trigger] list[i]).is_generated == generated && (
        !list[i].is_translatable ==> list[i].translation_languages.len() == 0)
}

/// The index of the first transcript of `list` in language `code`.
pub open spec fn index_of_code(list: Seq<TranscriptInfoView>, code: Seq<char>) -> Option<int>
    decreases list.len(),
{
    if list.len() == 0 {
        None
    } else if list[0].language_code == code {
        Some(0)
    } else {
        match index_of_code(list.drop_first(), code) {
            Some(i) => Some(i + 1),
            None => None,
        }
    }
}

/// The transcript of `list` in language `code`, if any.
pub open spec fn lookup(list: Seq<TranscriptInfoView>, code: Seq<char>) -> Option<
    TranscriptInfoView,
> {
    match index_of_code(list, code) {
        Some(i) => Some(list[i]),
        None => None,
    }
}

/// The transcript chosen for the languages `codes`, in order of preference:
/// for each code in turn, the one made by hand, else the generated one.
pub open spec fn preferred_transcript(
    manual: Seq<TranscriptInfoView>,
    generated: Seq<TranscriptInfoView>,
    codes: Seq<Seq<char>>,
) -> Option<TranscriptInfoView>
    decreases codes.len(),
{
    if codes.len() == 0 {
        None
    } else if lookup(manual, codes[0]) is Some {
        lookup(manual, codes[0])
    } else if lookup(generated, codes[0]) is Some {
        lookup(generated, codes[0])
    } else {
        preferred_transcript(manual, generated, codes.drop_first())
    }
}

/// Where `index_of_code` points.
pub proof fn lemma_index_of_code(list: Seq<TranscriptInfoView>, code: Seq<char>)
    ensures
        match index_of_code(list, code) {
            Some(i) => 0 <= i < list.len() && list[i].language_code == code,
            None => forall|i: int| 0 <= i < list.len() ==> list[i].language_code != code,
        },
    decreases list.len(),
{
    if list.len() > 0 && list[0].language_code != code {
        lemma_index_of_code(list.drop_first(), code);
        assert forall|i: int| 0 < i < list.len() implies list[i] == list.drop_first()[i - 1] by {}
    }
}

/// A search over both kinds of transcript finds one exactly when a search
/// over those made by hand or a search over the generated ones does.
pub proof fn lemma_found_iff_either(
    manual: Seq<TranscriptInfoView>,
    generated: Seq<TranscriptInfoView>,
    codes: Seq<Seq<char>>,
)
    ensures
        preferred_transcript(manual, generated, codes) is Some <==> (preferred_transcript(
            manual,
            Seq::empty(),
            codes,
        ) is Some || preferred_transcript(Seq::empty(), generated, codes) is Some),
    decreases codes.len(),
{
    if codes.len() > 0 {
        assert(index_of_code(Seq::<TranscriptInfoView>::empty(), codes[0]) is None);
        lemma_found_iff_either(manual, generated, codes.drop_first());
    }
}

/// The transcript found is in one of the requested languages.
pub proof fn lemma_found_language_requested(
    manual: Seq<TranscriptInfoView>,
    generated: Seq<TranscriptInfoView>,
    codes: Seq<Seq<char>>,
)
    ensures
        preferred_transcript(manual, generated, codes) matches Some(t) ==> codes.contains(
            t.language_code,
        ),
    decreases codes.len(),
{
    if codes.len() > 0 {
        lemma_index_of_code(manual, codes[0]);
        lemma_index_of_code(generated, codes[0]);
        lemma_found_language_requested(manual, generated, codes.drop_first());
        if let Some(t) = preferred_transcript(manual, generated, codes) {
            if lookup(manual, codes[0]) is Some || lookup(generated, codes[0]) is Some {
                assert(codes[0] == t.language_code);
            } else {
                let k = choose|k: int|
                    0 <= k < codes.drop_first().len() && codes.drop_first()[k] == t.language_code;
                assert(codes[k + 1] == t.language_code);
            }
        }
    }
}

/// For the first requested language that has any transcript, one made by
/// hand wins over a generated one.
pub proof fn lemma_manual_preferred(
    manual: Seq<TranscriptInfoView>,
    generated: Seq<TranscriptInfoView>,
    codes: Seq<Seq<char>>,
)
    requires
        codes.len() > 0,
        lookup(manual, codes[0]) is Some,
    ensures
        preferred_transcript(manual, generated, codes) == lookup(manual, codes[0]),
{
}

/// A requested language with no transcript of either kind is passed over:
/// the choice is then that for the languages after it.
pub proof fn lemma_unavailable_code_skipped(
    manual: Seq<TranscriptInfoView>,
    generated: Seq<TranscriptInfoView>,
    codes: Seq<Seq<char>>,
)
    requires
        codes.len() > 0,
        lookup(manual, codes[0]) is None,
        lookup(generated, codes[0]) is None,
    ensures
        preferred_transcript(manual, generated, codes) == preferred_transcript(
            manual,
            generated,
            codes.drop_first(),
        ),
{
}

/// The transcript chosen is that of the first requested language with a
/// transcript of either kind, at whatever position it stands: the one made
/// by hand where there is one, else the generated one.
pub proof fn lemma_first_available_chosen(
    manual: Seq<TranscriptInfoView>,
    generated: Seq<TranscriptInfoView>,
    codes: Seq<Seq<char>>,
    k: int,
)
    requires
        0 <= k < codes.len(),
        forall|j: int|
            0 <= j < k ==> lookup(manual, #[trigger] codes[j]) is None && lookup(
                generated,
                codes[j],
            ) is None,
        lookup(manual, codes[k]) is Some || lookup(generated, codes[k]) is Some,
    ensures
        preferred_transcript(manual, generated, codes) == (if lookup(manual, codes[k]) is Some {
            lookup(manual, codes[k])
        } else {
            lookup(generated, codes[k])
        }),
    decreases k,
{
    if k > 0 {
        let rest = codes.drop_first();
        assert forall|j: int| 0 <= j < k - 1 implies lookup(manual, #[trigger] rest[j]) is None
            && lookup(generated, rest[j]) is None by {
            assert(rest[j] == codes[j + 1]);
        }
        assert(rest[k - 1] == codes[k]);
        lemma_first_available_chosen(manual, generated, rest, k - 1);
    }
}

/// No transcript is chosen exactly when no requested language has a
/// transcript of either kind.
pub proof fn lemma_none_chosen_iff_unavailable(
    manual: Seq<TranscriptInfoView>,
    generated: Seq<TranscriptInfoView>,
    codes: Seq<Seq<char>>,
)
    ensures
        preferred_transcript(manual, generated, codes) is None <==> forall|j: int|
            0 <= j < codes.len() ==> lookup(manual, #[trigger] codes[j]) is None && lookup(
                generated,
                codes[j],
            ) is None,
    decreases codes.len(),
{
    if codes.len() > 0 {
        let rest = codes.drop_first();
        lemma_none_chosen_iff_unavailable(manual, generated, rest);
        assert forall|j: int| 0 < j < codes.len() implies #[trigger] codes[j] == rest[j - 1] by {}
        if lookup(manual, codes[0]) is None && lookup(generated, codes[0]) is None {
            if forall|j: int|
                0 <= j < rest.len() ==> lookup(manual, #[trigger] rest[j]) is None && lookup(
                    generated,
                    rest[j],
                ) is None {
                assert forall|j: int| 0 <= j < codes.len() implies lookup(
                    manual,
                    #[trigger] codes[j],
                ) is None && lookup(generated, codes[j]) is None by {
                    if j > 0 {
                        assert(codes[j] == rest[j - 1]);
                    }
                }
            } else {
                let j = choose|j: int|
                    0 <= j < rest.len() && !(lookup(manual, #[trigger] rest[j]) is None && lookup(
                        generated,
                        rest[j],
                    ) is None);
                assert(codes[j + 1] == rest[j]);
            }
        }
    }
}

/// The views of a list of references to transcripts.
pub open spec fn refs_view(v: Seq<&TranscriptInfo>) -> Seq<TranscriptInfoView> {
    v.map_values(|t: &TranscriptInfo| t@)
}

/// The character sequences of a list of string slices.
pub open spec fn strs_view(codes: Seq<&str>) -> Seq<Seq<char>> {
    codes.map_values(|s: &str| s@)
}

/// What a search for `codes` among `manual` and `generated` answers.
pub open spec fn search_result(
    r: Result<&TranscriptInfo, TranscriptError>,
    video_id: Seq<char>,
    manual: Seq<TranscriptInfoView>,
    generated: Seq<TranscriptInfoView>,
    codes: Seq<&str>,
) -> bool {
    match r {
        Ok(info) => preferred_transcript(manual, generated, strs_view(codes)) == Some(info@),
        Err(e) => preferred_transcript(manual, generated, strs_view(codes)) is None && e@
            == ErrorView::NoTranscriptFound(video_id, strs_view(codes)),
    }
}

/// The index of the first transcript of `list` in language `code`.
pub(crate) fn find_index(list: &Vec<TranscriptInfo>, code: &str) -> (r: Option<usize>)
    ensures
        r matches Some(i) ==> index_of_code(infos_view(list@), code@) == Some(i as int) && i
            < list@.len(),
        r is None ==> index_of_code(infos_view(list@), code@) is None,
{
    let ghost lv = infos_view(list@);
    let mut i: usize = 0;
    assert(lv.skip(0) =~= lv);
    while i < list.len()
        invariant
            lv == infos_view(list@),
            i <= list@.len(),
            index_of_code(lv, code@) == (match index_of_code(lv.skip(i as int), code@) {
                Some(k) => Some(k + i),
                None => None::<int>,
            }),
        decreases list.len() - i,
    {
        assert(lv.skip(i as int).drop_first() =~= lv.skip(i + 1));
        if str_eq(list[i].language_code.as_str(), code) {
            return Some(i);
        }
        i += 1;
    }
    None
}

/// The codes as owned strings.
fn owned_codes(codes: &[&str]) -> (r: Vec<String>)
    ensures
        strings_view(r@) == strs_view(codes@),
{
    let mut r: Vec<String> = Vec::new();
    let mut i: usize = 0;
    while i < codes.len()
        invariant
            i <= codes@.len(),
            r@.len() == i,
            strings_view(r@) == strs_view(codes@).take(i as int),
        decreases codes.len() - i,
    {
        let ghost before = r@;
        r.push(owned(codes[i]));
        assert(r@ == before.push(r@[i as int]));
        i += 1;
        assert(strings_view(r@) =~= strs_view(codes@).take(i as int));
    }
    assert(strs_view(codes@).take(i as int) =~= strs_view(codes@));
    r
}

/// The languages asked for, or English where none are given.
pub fn languages_or_default<'a>(languages: Option<Vec<&'a str>>) -> (r: Vec<&'a str>)
    ensures
        match languages {
            Some(v) => r@ == v@,
            None => strs_view(r@) == seq!["en"@],
        },
{
    match languages {
        Some(v) => v,
        None => {
            let r = vec!["en"];
            assert(strs_view(r@) =~= seq!["en"@]);
            r
        },
    }
}

impl TranscriptList {
    /// The list is keyed by language code: no code names two transcripts of
    /// one kind, and each transcript sits in the list of its kind.
    pub open spec fn well_formed(&self) -> bool {
        &&& codes_distinct(infos_view(self.manually_created@))
        &&& codes_distinct(infos_view(self.generated@))
        &&& well_kinded(infos_view(self.manually_created@), false)
        &&& well_kinded(infos_view(self.generated@), true)
    }

    fn search(&self, language_codes: &[&str], use_manual: bool, use_generated: bool) -> (r:
        Result<&TranscriptInfo, TranscriptError>)
        ensures
            search_result(
                r,
                self.video_id@,
                if use_manual {
                    infos_view(self.manually_created@)
                } else {
                    Seq::empty()
                },
                if use_generated {
                    infos_view(self.generated@)
                } else {
                    Seq::empty()
                },
                language_codes@,
            ),
    {
        let ghost manual = if use_manual {
            infos_view(self.manually_created@)
        } else {
            Seq::empty()
        };
        let ghost generated = if use_generated {
            infos_view(self.generated@)
        } else {
            Seq::empty()
        };
        let ghost codes = strs_view(language_codes@);
        let mut i: usize = 0;
        assert(codes.skip(0) =~= codes);
        while i < language_codes.len()
            invariant
                codes == strs_view(language_codes@),
                i <= language_codes@.len(),
                manual == (if use_manual {
                    infos_view(self.manually_created@)
                } else {
                    Seq::empty()
                }),
                generated == (if use_generated {
                    infos_view(self.generated@)
                } else {
                    Seq::empty()
                }),
                preferred_transcript(manual, generated, codes) == preferred_transcript(
                    manual,
                    generated,
                    codes.skip(i as int),
                ),
            decreases language_codes.len() - i,
        {
            let code = language_codes[i];
            assert(codes.skip(i as int)[0] == code@);
            assert(codes.skip(i as int).drop_first() =~= codes.skip(i + 1));
            assert(index_of_code(Seq::<TranscriptInfoView>::empty(), code@) is None);
            if use_manual {
                if let Some(k) = find_index(&self.manually_created, code) {
                    assert(lookup(manual, code@) == Some(self.manually_created@[k as int]@));
                    return Ok(&self.manually_created[k]);
                }
            }
            if use_generated {
                if let Some(k) = find_index(&self.generated, code) {
                    assert(use_manual ==> lookup(manual, code@) is None);
                    assert(lookup(generated, code@) == Some(self.generated@[k as int]@));
                    return Ok(&self.generated[k]);
                }
            }
            i += 1;
        }
        Err(TranscriptError::NoTranscriptFound(self.video_id.clone(), owned_codes(language_codes)))
    }

    /// The transcript for the first of `language_codes` that has one,
    /// preferring for each code a transcript made by hand to a generated one.
    pub fn find_transcript(&self, language_codes: &[&str]) -> (r: Result<
        &TranscriptInfo,
        TranscriptError,
    >)
        ensures
            search_result(
                r,
                self.video_id@,
                infos_view(self.manually_created@),
                infos_view(self.generated@),
                language_codes@,
            ),
    {
        self.search(language_codes, true, true)
    }

    /// The transcript made by hand for the first of `language_codes` that
    /// has one.
    pub fn find_manually_created(&self, language_codes: &[&str]) -> (r: Result<
        &TranscriptInfo,
        TranscriptError,
    >)
        ensures
            search_result(
                r,
                self.video_id@,
                infos_view(self.manually_created@),
                Seq::empty(),
                language_codes@,
            ),
    {
        self.search(language_codes, true, false)
    }

    /// The generated transcript for the first of `language_codes` that has
    /// one.
    pub fn find_generated(&self, language_codes: &[&str]) -> (r: Result<
        &TranscriptInfo,
        TranscriptError,
    >)
        ensures
            search_result(
                r,
                self.video_id@,
                Seq::empty(),
                infos_view(self.generated@),
                language_codes@,
            ),
    {
        self.search(language_codes, false, true)
    }

    /// Every transcript: those made by hand, then the generated ones.
    pub fn all_transcripts(&self) -> (r: Vec<&TranscriptInfo>)
        ensures
            refs_view(r@) == infos_view(self.manually_created@)
                + infos_view(self.generated@),
    {
        let mut all: Vec<&TranscriptInfo> = Vec::new();
        let mut i: usize = 0;
        while i < self.manually_created.len()
            invariant
                i <= self.manually_created@.len(),
                all@.len() == i,
                refs_view(all@) == infos_view(
                    self.manually_created@,
                ).take(i as int),
            decreases self.manually_created.len() - i,
        {
            let ghost before = all@;
            let item = &self.manually_created[i];
            all.push(item);
            assert(all@ == before.push(item));
            assert(item@ == infos_view(self.manually_created@)[i as int]);
            assert(refs_view(all@).len() == i + 1);
            assert(infos_view(self.manually_created@).take(i + 1).len() == i + 1);
            assert(refs_view(all@)[i as int] == item@);
            assert(forall|k: int| 0 <= k < i ==> refs_view(all@)[k] == refs_view(before)[k]);
            i += 1;
            assert(refs_view(all@) =~= infos_view(
                self.manually_created@,
            ).take(i as int));
        }
        let mut j: usize = 0;
        while j < self.generated.len()
            invariant
                i == self.manually_created@.len(),
                j <= self.generated@.len(),
                all@.len() == i + j,
                refs_view(all@) == infos_view(self.manually_created@)
                    + infos_view(self.generated@).take(j as int),
            decreases self.generated.len() - j,
        {
            let ghost before = all@;
            let ghost mv = infos_view(self.manually_created@);
            let ghost gv = infos_view(self.generated@);
            let item = &self.generated[j];
            all.push(item);
            assert(all@ == before.push(item));
            assert(item@ == gv[j as int]);
            assert(mv.len() == i);
            j += 1;
            assert forall|k: int| 0 <= k < all@.len() implies refs_view(all@)[k] == (mv
                + gv.take(j as int))[k] by {
                if k < i + j - 1 {
                    assert(refs_view(all@)[k] == refs_view(before)[k]);
                    assert(refs_view(before)[k] == (mv + gv.take(j - 1))[k]);
                    if k >= i {
                        assert(gv.take(j - 1)[k - i] == gv.take(j as int)[k - i]);
                    }
                }
            }
            assert(refs_view(all@) =~= mv + gv.take(j as int));
        }
        assert(infos_view(self.manually_created@).take(i as int) =~= infos_view(
            self.manually_created@,
        ));
        assert(infos_view(self.generated@).take(j as int) =~= infos_view(self.generated@));
        all
    }
}

} // verus!
