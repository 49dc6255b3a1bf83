//! The arguments of the command-line HTTP client: the address to call and
//! the `key=value` pairs of a request body.

use crate::source::url_parses;
use crate::source::url_error;
use crate::source::url_fault;
use vstd::prelude::*;
use vstd::string::StrSliceExecFns;
use vstd::string::StringExecFns;

verus! {

/// One field of a request body.
#[derive(Debug)]
pub struct KvPair {
    pub k: String,
    pub v: String,
}

/// An argument that is no `key=value` pair: it holds no `=`.
#[derive(Debug, PartialEq, Eq)]
pub struct KvError {
    /// The argument as it was written.
    pub input: String,
}

impl KvError {
    /// What is said of the argument.
    pub open spec fn spec_message(self) -> Seq<char> {
        "Faild to parse "@ + self.input@
    }

    /// What is said of the argument.
    pub fn message(&self) -> (text: String)
        ensures
            text@ == self.spec_message(),
    {
        String::from_str("Faild to parse ").concat(self.input.as_str())
    }
}

/// An address that is no absolute URL, with what the parser said of it.
#[derive(Debug, PartialEq, Eq)]
pub struct UrlError {
    pub message: String,
}

/// Where the field that begins at `from` ends: at the next `=`, or at the
/// end of the text.
pub open spec fn field_end(text: Seq<char>, from: int) -> int
    decreases text.len() - from,
{
    if from >= text.len() || text[from] == '=' {
        from
    } else {
        field_end(text, from + 1)
    }
}

/// Whether `text` holds a `=`, and with it a key and a value.
pub open spec fn has_value(text: Seq<char>) -> bool {
    field_end(text, 0) < text.len()
}

/// The key of `text`: what stands before the first `=`.
pub open spec fn key_field(text: Seq<char>) -> Seq<char> {
    text.subrange(0, field_end(text, 0))
}

/// The value of `text`: what stands between the first `=` and the second,
/// or the end of the text.
pub open spec fn value_field(text: Seq<char>) -> Seq<char> {
    text.subrange(field_end(text, 0) + 1, field_end(text, field_end(text, 0) + 1))
}

/// The end of the field that begins at `from`.
fn scan(text: &str, len: usize, from: usize) -> (end: usize)
    requires
        len == text@.len(),
        from <= len,
    ensures
        end == field_end(text@, from as int),
        from <= end <= len,
{
    let mut at: usize = from;
    while at < len && text.get_char(at) != '='
        invariant
            from <= at <= len,
            len == text@.len(),
            field_end(text@, from as int) == field_end(text@, at as int),
        decreases len - at,
    {
        at += 1;
    }
    at
}

impl Clone for KvPair {
    fn clone(&self) -> (copy: KvPair)
        ensures
            copy.k@ == self.k@,
            copy.v@ == self.v@,
    {
        KvPair { k: self.k.clone(), v: self.v.clone() }
    }
}

impl KvPair {
    /// Splits `text` at `=`. The first field is the key, the second the
    /// value; further fields are left out. Text without `=` is no pair.
    pub fn from_str(text: &str) -> (parsed: Result<KvPair, KvError>)
        ensures
            parsed is Ok <==> has_value(text@),
            parsed matches Ok(pair) ==> pair.k@ == key_field(text@) && pair.v@ == value_field(
                text@,
            ),
            parsed matches Err(e) ==> e.input@ == text@,
    {
        let len: usize = text.unicode_len();
        let first: usize = scan(text, len, 0);
        if first >= len {
            return Err(KvError { input: text.to_owned() });
        }
        let second: usize = scan(text, len, first + 1);
        Ok(
            KvPair {
                k: text.substring_char(0, first).to_owned(),
                v: text.substring_char(first + 1, second).to_owned(),
            },
        )
    }
}

/// Reads one `key=value` argument.
pub fn parse_kv_pair(text: &str) -> (parsed: Result<KvPair, KvError>)
    ensures
        parsed is Ok <==> has_value(text@),
        parsed matches Ok(pair) ==> pair.k@ == key_field(text@) && pair.v@ == value_field(text@),
        parsed matches Err(e) ==> e.input@ == text@,
{
    KvPair::from_str(text)
}

/// Accepts an address if and only if it parses as an absolute URL, and
/// hands it back as it was written. An address that is refused comes with
/// the parser's message.
pub fn parse_url(text: &str) -> (parsed: Result<String, UrlError>)
    ensures
        match parsed {
            Ok(url) => url_parses(text@) && url@ == text@,
            Err(e) => url_error(text@) == Some(e.message@),
        },
{
    match url_fault(text) {
        None => Ok(text.to_owned()),
        Some(message) => Err(UrlError { message }),
    }
}

} // verus!
