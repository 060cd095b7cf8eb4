//! JSON documents, read through `serde_json`.
use vstd::prelude::*;
use crate::text::opt_chars;

verus! {

#[verifier::external_type_specification]
#[verifier::external_body]
pub struct ExJsonValue(serde_json::Value);

/// `None` if `serde_json::from_str::<Value>` accepts `text`, else `Some` of the
/// reader's error message (its `to_string`).
pub uninterp spec fn json_read_error(text: Seq<char>) -> Option<Seq<char>>;

/// `value[key].as_str()` for the JSON document `text`: the string held by the
/// top-level member `key`, if the document is an object with such a member
/// holding a string.
pub uninterp spec fn json_str_member(text: Seq<char>, key: Seq<char>) -> Option<Seq<char>>;

/// A parsed JSON document together with its text.
pub struct Json {
    value: serde_json::Value,
    source: String,
}

impl Json {
    /// The text the document was read from.
    pub closed spec fn source(&self) -> Seq<char> {
        self.source@
    }

    /// `serde_json::from_str::<serde_json::Value>`, with the error turned into
    /// its message.
    #[verifier::external_body]
    pub(crate) fn parse(text: &str) -> (res: Result<Json, String>)
        ensures
            match res {
                Ok(j) => json_read_error(text@) is None && j.source() == text@,
                Err(m) => json_read_error(text@) == Some(m@),
            },
    {
        match serde_json::from_str::<serde_json::Value>(text) {
            Ok(value) => Ok(Json { value, source: text.to_string() }),
            Err(e) => Err(e.to_string()),
        }
    }

    /// `value[key].as_str()`.
    #[verifier::external_body]
    pub(crate) fn str_member(&self, key: &str) -> (res: Option<String>)
        ensures
            opt_chars(res) == json_str_member(self.source(), key@),
    {
        self.value[key].as_str().map(|s| s.to_string())
    }
}

} // verus!
