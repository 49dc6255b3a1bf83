//! The address of a source image, and the key under which its bytes are
//! cached.

use crate::error::Error;
use std::collections::hash_map::DefaultHasher;
use std::hash::Hash;
use std::hash::Hasher;
use vstd::prelude::*;
use vstd::std_specs::hash::DefaultHasherAdditionalSpecFns;

verus! {

/// The message with which `Url::parse` of the `url` crate, which `reqwest`
/// hands on as `reqwest::Url`, refuses `text`; `None` where it accepts
/// `text` as an absolute URL.
pub uninterp spec fn url_error(text: Seq<char>) -> Option<Seq<char>>;

/// Whether `text` parses as an absolute URL.
pub open spec fn url_parses(text: Seq<char>) -> bool {
    url_error(text) is None
}

/// The text that percent-decoding `text` and reading the result as UTF-8
/// gives, with U+FFFD in place of each malformed sequence: what
/// `percent_encoding::percent_decode_str(text).decode_utf8_lossy()` holds.
pub uninterp spec fn percent_decoded(text: Seq<char>) -> Seq<char>;

/// What the `Hash` impl of `str` feeds to a hasher for `text`: the writes
/// that it makes, in order.
pub uninterp spec fn str_hash_input(text: Seq<char>) -> Seq<Seq<u8>>;

/// `reqwest::Url::parse(text)`, keeping the error as the text that it
/// displays. The grammar of URLs is the outside crate's; the contract names
/// the answer.
#[verifier::external_body]
fn parse_fault(text: &str) -> (fault: Option<String>)
    ensures
        match fault {
            Some(message) => url_error(text@) == Some(message@),
            None => url_error(text@) is None,
        },
{
    reqwest::Url::parse(text).err().map(|e| e.to_string())
}

/// What is wrong with `text` as an absolute URL, in the parser's words, or
/// `None` where nothing is.
pub fn url_fault(text: &str) -> (fault: Option<String>)
    ensures
        match fault {
            Some(message) => url_error(text@) == Some(message@),
            None => url_parses(text@),
        },
{
    parse_fault(text)
}

/// `percent_encoding::percent_decode_str` followed by `decode_utf8_lossy`,
/// as an owned string. Neither step can fail.
#[verifier::external_body]
fn percent_decode(text: &str) -> (decoded: String)
    ensures
        decoded@ == percent_decoded(text@),
{
    percent_encoding::percent_decode_str(text).decode_utf8_lossy().into_owned()
}

/// `<str as Hash>::hash`: feeds `text` to the hasher. What has been written
/// to the hasher grows by the writes that belong to `text`, which are a
/// function of `text` alone.
#[verifier::external_body]
fn feed_str(hasher: &mut DefaultHasher, text: &str)
    ensures
        final(hasher)@ == old(hasher)@ + str_hash_input(text@),
{
    text.hash(hasher)
}

/// The cache key of an address: the value that a fresh `DefaultHasher`
/// finishes with after the address has been fed to it. Every hasher made
/// by `DefaultHasher::new` starts from the same state, so within one build
/// of a program equal addresses have equal keys. Distinct addresses may
/// share a key: the hash is not proof against collisions, and the cache
/// accepts that.
pub open spec fn cache_key(text: Seq<char>) -> u64 {
    DefaultHasher::spec_finish(str_hash_input(text))
}

/// The cache key of `text`.
pub fn key_of(text: &str) -> (key: u64)
    ensures
        key == cache_key(text@),
{
    let mut hasher = DefaultHasher::new();
    feed_str(&mut hasher, text);
    assert(hasher@ =~= str_hash_input(text@));
    hasher.finish()
}

/// The address of a source image: a string that parses as an absolute URL.
#[derive(Debug)]
pub struct SourceUrl {
    text: String,
}

impl View for SourceUrl {
    type V = Seq<char>;

    closed spec fn view(&self) -> Seq<char> {
        self.text@
    }
}

impl SourceUrl {
    #[verifier::type_invariant]
    spec fn is_url(&self) -> bool {
        url_parses(self.text@)
    }

    /// Accepts `text` if and only if it parses as an absolute URL.
    pub fn parse(text: &str) -> (parsed: Result<SourceUrl, Error>)
        ensures
            match parsed {
                Ok(url) => url_parses(text@) && url@ == text@,
                Err(e) => !url_parses(text@) && e == Error::InvalidUrl,
            },
    {
        match parse_fault(text) {
            None => Ok(SourceUrl { text: text.to_owned() }),
            Some(_) => Err(Error::InvalidUrl),
        }
    }

    /// Reads a percent-encoded path segment: decodes it, then accepts the
    /// decoded text if and only if it parses as an absolute URL.
    pub fn from_segment(segment: &str) -> (parsed: Result<SourceUrl, Error>)
        ensures
            match parsed {
                Ok(url) => url_parses(percent_decoded(segment@)) && url@ == percent_decoded(
                    segment@,
                ),
                Err(e) => !url_parses(percent_decoded(segment@)) && e == Error::InvalidUrl,
            },
    {
        let decoded = percent_decode(segment);
        SourceUrl::parse(decoded.as_str())
    }

    /// The address as text, which parses as an absolute URL.
    pub fn as_str(&self) -> (text: &str)
        ensures
            text@ == self@,
            url_parses(text@),
    {
        proof {
            use_type_invariant(self);
        }
        self.text.as_str()
    }

    /// The key under which the bytes of this address are cached.
    pub fn key(&self) -> (key: u64)
        ensures
            key == cache_key(self@),
    {
        key_of(self.text.as_str())
    }
}

} // verus!
