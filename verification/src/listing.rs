//! A printable summary of the transcripts that a video offers.
use vstd::prelude::*;

use crate::text::{chars_of, extend, string_of};

verus! {

/// A transcript language, and whether it was generated.
#[derive(Debug)]
pub struct TranscriptType {
    pub language: String,
    pub is_auto_generated: bool,
}

/// The text of a transcript type: the language alone where
/// `is_auto_generated` holds, else the language marked `(auto-generated)`.
pub open spec fn type_text(language: Seq<char>, is_auto_generated: bool) -> Seq<char> {
    if is_auto_generated {
        language
    } else {
        language + " (auto-generated)"@
    }
}

impl TranscriptType {
    /// The text of this transcript type.
    pub fn to_string(&self) -> (r: String)
        ensures
            r@ == type_text(self.language@, self.is_auto_generated),
    {
        let mut v = chars_of(self.language.as_str());
        if !self.is_auto_generated {
            extend(&mut v, chars_of(" (auto-generated)").as_slice());
        }
        string_of(v.as_slice())
    }
}

/// The texts of `types`, separated by `, `.
pub open spec fn joined_types(types: Seq<TranscriptType>) -> Seq<char>
    decreases types.len(),
{
    if types.len() == 0 {
        Seq::empty()
    } else if types.len() == 1 {
        type_text(types[0].language@, types[0].is_auto_generated)
    } else {
        joined_types(types.drop_last()) + ", "@ + type_text(
            types.last().language@,
            types.last().is_auto_generated,
        )
    }
}

/// The transcripts that a video offers, by title.
#[derive(Debug)]
pub struct TranscriptList {
    pub video_id: String,
    pub video_name: String,
    pub available_transcripts: Vec<TranscriptType>,
}

impl TranscriptList {
    /// `Available Transcripts for video "<id>" with title "<name>": ` and the
    /// transcript types, separated by `, `.
    pub fn to_string(&self) -> (r: String)
        ensures
            r@ == "Available Transcripts for video \""@ + self.video_id@ + "\" with title \""@
                + self.video_name@ + "\": "@ + joined_types(self.available_transcripts@),
    {
        let mut v = chars_of("Available Transcripts for video \"");
        extend(&mut v, chars_of(self.video_id.as_str()).as_slice());
        extend(&mut v, chars_of("\" with title \"").as_slice());
        extend(&mut v, chars_of(self.video_name.as_str()).as_slice());
        extend(&mut v, chars_of("\": ").as_slice());
        let ghost head = v@;
        let types = &self.available_transcripts;
        let mut i: usize = 0;
        assert(types@.take(0) =~= Seq::<TranscriptType>::empty());
        assert(v@ =~= head + joined_types(types@.take(0)));
        while i < types.len()
            invariant
                i <= types@.len(),
                v@ == head + joined_types(types@.take(i as int)),
            decreases types.len() - i,
        {
            assert(types@.take(i + 1).drop_last() =~= types@.take(i as int));
            assert(types@.take(i + 1).last() == types@[i as int]);
            if i > 0 {
                extend(&mut v, chars_of(", ").as_slice());
            }
            let t = types[i].to_string();
            extend(&mut v, chars_of(t.as_str()).as_slice());
            i += 1;
            assert(v@ =~= head + joined_types(types@.take(i as int)));
        }
        assert(types@.take(i as int) =~= types@);
        string_of(v.as_slice())
    }
}

} // verus!
