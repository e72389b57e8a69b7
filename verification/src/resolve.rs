//! Key resolution: raw key plus active scopes to a resolved string.

use vstd::prelude::*;
use crate::cache::{Cache, CacheError, CacheView, spec_get};
use crate::util::{json_path_from_key, spec_split_key, find_from};

verus! {

/// What a raw key resolves to against a cache under the active scopes.
pub open spec fn spec_resolve(m: CacheView, scopes: Seq<Seq<char>>, key: Seq<char>) -> Option<
    Seq<char>,
> {
    spec_get(m, spec_split_key(key, scopes).0, spec_split_key(key, scopes).1)
}

/// Splits the raw key into namespace and dotted path, then looks the path up
/// in that namespace's cached document.
pub fn resolve(cache: &Cache, scopes: &Vec<String>, key: String) -> (r: Result<String, CacheError>)
    ensures
        (r is Ok) <==> spec_resolve(cache@, scopes.deep_view(), key@) is Some,
        r matches Ok(s) ==> Some(s@) == spec_resolve(cache@, scopes.deep_view(), key@),
        r matches Err(e) ==> e matches CacheError::KeyNotFound(k) && k@ == spec_split_key(
            key@,
            scopes.deep_view(),
        ).1,
{
    let (filename, path) = json_path_from_key(key, scopes);
    cache.get(filename, path)
}

/// Law: a key carrying an explicit namespace prefix resolves against that
/// namespace alone; the active scope stack plays no part.
pub proof fn lemma_override_ignores_scopes(
    m: CacheView,
    scopes1: Seq<Seq<char>>,
    scopes2: Seq<Seq<char>>,
    key: Seq<char>,
)
    requires
        find_from(key, ':', 0) is Some,
    ensures
        spec_resolve(m, scopes1, key) == spec_resolve(m, scopes2, key),
{
}

} // verus!
