//! CSRF token extraction.
//!
//! FunPay pages carry their application data as JSON in a
//! `data-app-data='...'` attribute; its `csrf-token` member is the token that
//! authenticated requests send.
use vstd::prelude::*;
use crate::error::ParseError;
use crate::json::{json_read_error, json_str_member, Json};
use crate::text::{chars_of, find, find_chars, slice_of, string_of};

verus! {

broadcast use vstd::string::group_string_axioms;

/// `data-app-data='`.
pub open spec fn app_data_marker() -> Seq<char> {
    "data-app-data='"@
}

/// Where the text of the `data-app-data` attribute starts, if the page has one.
pub open spec fn app_data_start(html: Seq<char>) -> Option<int> {
    match find(html, app_data_marker()) {
        Some(i) => Some(i + 15),
        None => None,
    }
}

/// The text of the `data-app-data` attribute, if it is there and closed: up to
/// the next `'`.
pub open spec fn app_data_json(html: Seq<char>) -> Option<Seq<char>> {
    match app_data_start(html) {
        Some(s) => match find(html.skip(s), "'"@) {
            Some(e) => Some(html.subrange(s, s + e)),
            None => None,
        },
        None => None,
    }
}

/// CSRF tokens extracted from a FunPay page.
pub struct CsrfTokens {
    /// The form submission token.
    pub form_token: String,
    /// The header authentication token.
    pub header_token: String,
}

impl CsrfTokens {
    /// Extracts the CSRF token from the `data-app-data` attribute of a page.
    /// Both tokens are the `csrf-token` member of that JSON object.
    pub fn from_html(html: &str) -> (res: Result<CsrfTokens, ParseError>)
        ensures
            app_data_start(html@) is None ==> res matches Err(ParseError::NoDataAppData),
            app_data_start(html@) is Some && app_data_json(html@) is None ==> res matches Err(
                ParseError::UnclosedDataAppData,
            ),
            app_data_json(html@) matches Some(json) ==> match json_read_error(json) {
                Some(m) => res matches Err(ParseError::JsonParse(msg)) && msg@ == m,
                None => match json_str_member(json, "csrf-token"@) {
                    Some(t) => res matches Ok(tokens) && tokens.form_token@ == t
                        && tokens.header_token@ == t,
                    None => res matches Err(ParseError::MissingField(f)) && f@ == "csrf-token"@,
                },
            },
    {
        let h = chars_of(html);
        proof {
            reveal_strlit("data-app-data='");
        }
        let marker = chars_of("data-app-data='");
        let start = match find_chars(&h, &marker) {
            Some(i) => i,
            None => return Err(ParseError::NoDataAppData),
        };
        assert(start + 15 <= h.len()) by {
            assert(crate::text::occurs_at(h@, marker@, start as int)) by {
                lemma_find_occurs(h@, marker@, 0);
            }
        }
        let json_start = start + 15;
        let rest = slice_of(&h, json_start, h.len());
        assert(rest@ == h@.skip(json_start as int));
        let json_end = match find_chars(&rest, &chars_of("'")) {
            Some(e) => e,
            None => return Err(ParseError::UnclosedDataAppData),
        };
        proof {
            lemma_find_occurs(rest@, "'"@, 0);
        }
        let json = slice_of(&h, json_start, json_start + json_end);
        let data = match Json::parse(string_of(json.as_slice()).as_str()) {
            Ok(d) => d,
            Err(m) => return Err(ParseError::JsonParse(m)),
        };
        let form_token = match data.str_member("csrf-token") {
            Some(t) => t,
            None => return Err(ParseError::MissingField("csrf-token".to_string())),
        };
        let header_token = string_of(chars_of(form_token.as_str()).as_slice());
        Ok(CsrfTokens { form_token, header_token })
    }
}

/// A position that `find_from` gives is an occurrence.
proof fn lemma_find_occurs(s: Seq<char>, p: Seq<char>, i: int)
    ensures
        crate::text::find_from(s, p, i) matches Some(k) ==> crate::text::occurs_at(s, p, k) && k
            >= i,
    decreases s.len() - i,
{
    if !(i < 0 || i + p.len() > s.len()) && !crate::text::occurs_at(s, p, i) && i < s.len() {
        lemma_find_occurs(s, p, i + 1);
    }
}

} // verus!
