use vstd::prelude::*;
use vstd::string::StringExecFns;

verus! {

// Scopes and URI paths of the registry's catalog, tag and delete calls.

/// Scope for reading the repository catalog.
pub fn build_repos_scope() -> (r: String)
    ensures
        r@ == "registry:catalog:*"@,
{
    String::from_str("registry:catalog:*")
}

/// Path of the repository catalog.
pub fn build_repos_path() -> (r: String)
    ensures
        r@ == "/acr/v1/_catalog"@,
{
    String::from_str("/acr/v1/_catalog")
}

/// Scope for reading one repository's tag list.
pub fn build_tag_scope(image_name: &str) -> (r: String)
    ensures
        r@ == "repository:"@ + image_name@ + ":metadata_read"@,
{
    let mut s = String::from_str("repository:");
    s.append(image_name);
    s.append(":metadata_read");
    s
}

/// Path of one repository's tag list.
pub fn build_tag_path(image_name: &str) -> (r: String)
    ensures
        r@ == "/acr/v1/"@ + image_name@ + "/_tags"@,
{
    let mut s = String::from_str("/acr/v1/");
    s.append(image_name);
    s.append("/_tags");
    s
}

/// Scope for deleting within one repository.
pub fn build_delete_tag_scope(image_name: &str) -> (r: String)
    ensures
        r@ == "repository:"@ + image_name@ + ":delete"@,
{
    let mut s = String::from_str("repository:");
    s.append(image_name);
    s.append(":delete");
    s
}

/// Path of one tag (or digest) reference within one repository, for a
/// delete call.
pub fn build_delete_tag_path(image_name: &str, tag: &str) -> (r: String)
    ensures
        r@ == "/acr/v1/"@ + image_name@ + "/_tags/"@ + tag@,
{
    let mut s = String::from_str("/acr/v1/");
    s.append(image_name);
    s.append("/_tags/");
    s.append(tag);
    s
}

} // verus!
