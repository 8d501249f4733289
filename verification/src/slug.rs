//! Slug derivation.
//!
//! An article's slug is a unique, URL-safe identifier derived
//! deterministically from its title.

use vstd::prelude::*;

verus! {

/// The slug that slug derivation produces for a title. The full definition
/// (transliteration, lower-casing, separator folding) belongs to the outside
/// routine; contracts rely only on it being a function of the title alone.
pub uninterp spec fn slug_of(title: Seq<char>) -> Seq<char>;

/// Relies on slugify::slugify with no stop words, separator `-` and no
/// maximum length: the slug is a deterministic function of the title alone.
#[verifier::external_body]
pub(crate) fn slugify_title(title: &str) -> (r: String)
    ensures
        r@ == slug_of(title@),
{
    slugify::slugify(title, "", "-", None)
}

} // verus!
