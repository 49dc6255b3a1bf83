//! What the command-line HTTP client shows of a response body.

use vstd::prelude::*;

verus! {

/// Whether the subtype of the media type `content_type` is JSON, as the
/// `mime` crate reads it; `None` where `content_type` is no media type. One
/// name for two calls: the parse, and the subtype compared with
/// `mime::JSON`.
pub uninterp spec fn names_json(content_type: Seq<char>) -> Option<bool>;

/// What `jsonxf::pretty_print` makes of `body`: the text laid out with an
/// indent of two spaces, or the message of its error.
pub uninterp spec fn pretty_json(body: Seq<char>) -> Result<Seq<char>, Seq<char>>;

/// `str::parse::<mime::Mime>`, then `Mime::subtype` compared with
/// `mime::JSON`. The grammar of media types is the outside crate's.
#[verifier::external_body]
fn subtype_is_json(content_type: &str) -> (json: Option<bool>)
    ensures
        json == names_json(content_type@),
{
    content_type.parse::<mime::Mime>().ok().map(|m| m.subtype() == mime::JSON)
}

/// `jsonxf::pretty_print`.
#[verifier::external_body]
fn pretty_print(body: &str) -> (printed: Result<String, String>)
    ensures
        match printed {
            Ok(text) => pretty_json(body@) == Ok::<Seq<char>, Seq<char>>(text@),
            Err(message) => pretty_json(body@) == Err::<Seq<char>, Seq<char>>(message@),
        },
{
    jsonxf::pretty_print(body)
}

/// Whether a body of this content type is shown as JSON: there is a content
/// type, it is a media type, and its subtype is JSON.
pub open spec fn shown_as_json(content_type: Option<Seq<char>>) -> bool {
    content_type matches Some(text) && names_json(text) == Some(true)
}

/// Whether the subtype of a content type is JSON; `None` where the text
/// is no media type.
pub fn json_subtype(content_type: &str) -> (json: Option<bool>)
    ensures
        json == names_json(content_type@),
{
    subtype_is_json(content_type)
}

/// Whether a body of this content type is shown as JSON.
pub fn is_json(content_type: Option<&str>) -> (json: bool)
    ensures
        json == shown_as_json(
            match content_type {
                Some(text) => Some(text@),
                None => None,
            },
        ),
{
    match content_type {
        Some(text) => match subtype_is_json(text) {
            Some(json) => json,
            None => false,
        },
        None => false,
    }
}

/// What is shown of a body, where `json` says whether it is shown as JSON:
/// JSON is pretty-printed, anything else is shown as it came.
pub open spec fn shown(json: bool, body: Seq<char>) -> Result<Seq<char>, Seq<char>> {
    if json {
        pretty_json(body)
    } else {
        Ok(body)
    }
}

/// The text to show for a body, or the message of the pretty-printer's
/// error.
pub fn body_text(json: bool, body: &str) -> (text: Result<String, String>)
    ensures
        match text {
            Ok(t) => shown(json, body@) == Ok::<Seq<char>, Seq<char>>(t@),
            Err(m) => shown(json, body@) == Err::<Seq<char>, Seq<char>>(m@),
        },
{
    if json {
        pretty_print(body)
    } else {
        Ok(body.to_owned())
    }
}

} // verus!
