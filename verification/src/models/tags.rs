//! The tags of a project. The store keeps them as the text of a JSON array
//! of strings; a text that is anything else counts as no tags.

use crate::models::project::Project;
use crate::text::texts_of;
use vstd::prelude::*;

verus! {

/// The error of `serde_json`, carried through and never looked into.
#[verifier::external_type_specification]
#[verifier::external_body]
pub struct ExJsonError(serde_json::Error);

/// What `serde_json::from_str::<Vec<String>>` makes of `raw`: the strings of
/// the array, in order, or `None` where it reports an error.
pub uninterp spec fn json_string_array(raw: Seq<char>) -> Option<Seq<Seq<char>>>;

/// The tags that the stored text `raw` stands for.
pub open spec fn decoded_tags(raw: Seq<char>) -> Seq<Seq<char>> {
    match json_string_array(raw) {
        Some(tags) => tags,
        None => Seq::<Seq<char>>::empty(),
    }
}

/// Calls `serde_json::from_str` for a `Vec<String>`. The contract names the
/// outcome and claims nothing else: the strings of an `Ok` are
/// `json_string_array` of the text, and an `Err` comes exactly where that is
/// `None`.
#[verifier::external_body]
fn decode_string_array(raw: &str) -> (decoded: Result<Vec<String>, serde_json::Error>)
    ensures
        match decoded {
            Ok(tags) => json_string_array(raw@) == Some(texts_of(tags@)),
            Err(_) => json_string_array(raw@) is None,
        },
{
    serde_json::from_str::<Vec<String>>(raw)
}

/// The tags of a decoding: those it yielded, or none where it failed. A
/// text that does not decode never fails the page that shows the project.
pub fn tags_or_empty(decoded: Result<Vec<String>, serde_json::Error>) -> (tags: Vec<String>)
    ensures
        match decoded {
            Ok(found) => tags == found,
            Err(_) => tags@.len() == 0,
        },
{
    match decoded {
        Ok(found) => found,
        Err(_) => Vec::new(),
    }
}

impl Project {
    /// The project's tags, in stored order and with repetitions kept; none
    /// where the stored text is not a JSON array of strings.
    pub fn parsed_tags(&self) -> (tags: Vec<String>)
        ensures
            texts_of(tags@) == decoded_tags(self.tags@),
    {
        let tags = tags_or_empty(decode_string_array(self.tags.as_str()));
        assert(texts_of(tags@) =~= decoded_tags(self.tags@));
        tags
    }
}

} // verus!
