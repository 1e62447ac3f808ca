//! Identifiers for new rows.

use vstd::prelude::*;

verus! {

/// A new random identifier: what `uuid::Uuid::new_v4` draws, written as
/// `Uuid`'s `Display` writes it. The value depends on chance, so nothing is
/// claimed of it; in particular not that it differs from the ids in use.
#[verifier::external_body]
pub(crate) fn fresh_id() -> String {
    format!("{}", uuid::Uuid::new_v4())
}

/// The slug of a row: the prefix of its kind and its id, joined by a hyphen.
pub fn gen_slug(prefix: &str, id: &str) -> (slug: String)
    ensures
        slug@ == prefix@ + seq!['-'] + id@,
{
    let mut slug = prefix.to_owned();
    slug.append("-");
    slug.append(id);
    proof {
        reveal_strlit("-");
        assert("-"@ =~= seq!['-']);
    }
    slug
}

} // verus!
