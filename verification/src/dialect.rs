//! The identifier rules of a SQL dialect whose table names may be URLs.

use vstd::prelude::*;

verus! {

/// A dialect in which `https://example.com/data.csv` is one identifier.
#[derive(Debug, Default)]
pub struct QueryerDialect;

/// A lower-case letter, or an upper-case letter before `Z`.
pub open spec fn is_letter(ch: char) -> bool {
    ('a' <= ch <= 'z') || ('A' <= ch < 'Z')
}

/// A punctuation mark that a URL is written with.
pub open spec fn is_url_mark(ch: char) -> bool {
    ch == ':' || ch == '/' || ch == '?' || ch == '&' || ch == '=' || ch == '-' || ch == '_' || ch
        == '.'
}

/// Whether an identifier can begin with `ch`: with a letter or `_`.
pub open spec fn identifier_start(ch: char) -> bool {
    is_letter(ch) || ch == '_'
}

/// Whether an identifier can go on with `ch`: with a letter, a digit or a
/// mark of a URL.
pub open spec fn identifier_part(ch: char) -> bool {
    is_letter(ch) || ('0' <= ch <= '9') || is_url_mark(ch)
}

impl QueryerDialect {
    /// Whether an identifier can begin with `ch`.
    pub fn is_identifier_start(&self, ch: char) -> (ok: bool)
        ensures
            ok == identifier_start(ch),
    {
        ('a' <= ch && ch <= 'z') || ('A' <= ch && ch < 'Z') || ch == '_'
    }

    /// Whether an identifier can go on with `ch`.
    pub fn is_identifier_part(&self, ch: char) -> (ok: bool)
        ensures
            ok == identifier_part(ch),
    {
        ('a' <= ch && ch <= 'z') || ('A' <= ch && ch < 'Z') || ('0' <= ch && ch <= '9') || ch
            == ':' || ch == '/' || ch == '?' || ch == '&' || ch == '=' || ch == '-' || ch == '_'
            || ch == '.'
    }
}

/// What an identifier can begin with, it can go on with.
pub proof fn lemma_start_is_part(ch: char)
    requires
        identifier_start(ch),
    ensures
        identifier_part(ch),
{
}

} // verus!
