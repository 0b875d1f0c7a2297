use vstd::prelude::*;
use vstd::string::StringExecFns;

verus! {

/// The canonical text of a version id: the hyphenated lower-case form that
/// the uuid library prints for the 128-bit value.  It depends on the value
/// alone.
pub uninterp spec fn uuid_text_of(id: u128) -> Seq<char>;

/// Relies on uuid::Uuid::from_u128 and uuid::Uuid's Display impl, which
/// prints the hyphenated lower-case form — always 36 characters
/// (uuid::fmt::Hyphenated::LENGTH) — determined by the 128-bit value alone.
#[verifier::external_body]
pub fn format_version_id(id: u128) -> (r: String)
    ensures
        r@ == uuid_text_of(id),
        r@.len() == 36,
{
    uuid::Uuid::from_u128(id).to_string()
}

/// Relies on uuid::Uuid::new_v4 (and Uuid::as_u128): a freshly drawn random
/// id.  Nothing is promised of the value.
#[verifier::external_body]
pub fn random_version_id() -> u128 {
    uuid::Uuid::new_v4().as_u128()
}

/// Resolve the cache directory for one version under a base cache
/// directory: the version id's canonical text, joined under the base with a
/// forward slash.
pub fn cache_dir_for_version(base_cache_dir: &str, version_id: u128) -> (r: String)
    ensures
        r@ == base_cache_dir@ + "/"@ + uuid_text_of(version_id),
{
    let mut r = base_cache_dir.to_owned();
    r.append("/");
    let id_str = format_version_id(version_id);
    r.append(id_str.as_str());
    r
}

} // verus!
