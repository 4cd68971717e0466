//! The releases of a Codeberg repository.
use vstd::prelude::*;
use crate::bzz_stuff::{spec_version_and_dependencies, zon_version_and_dependencies};
use crate::codeberg::helper_functions::repo_api_url;
use crate::codeberg::types::releases_types::Root2;
use crate::custom_types::{Release, dependencies_view};

verus! {

/// The URL of the releases listing of a repository.
pub fn releases_url(owner_name: &str, repo_name: &str) -> (res: String)
    ensures
        res@ == "https://codeberg.org/api/v1/repos/"@ + owner_name@ + "/"@ + repo_name@
            + "/releases"@,
{
    repo_api_url(owner_name, repo_name, "/releases")
}

/// The [`Release`] record of a Codeberg release, from the release itself,
/// the text of the `build.zig.zon` at its tag and the URL of its README.
/// A `build.zig.zon` that does not parse gives no dependencies and no
/// minimum Zig version.
pub fn compiled_release(release: &Root2, zon_text: &str, readme_url: String) -> (res: Release)
    ensures
        res.is_prerelease == release.prerelease,
        res.published_at@ == release.published_at@,
        res.readme_url@ == readme_url@,
        spec_version_and_dependencies(zon_text@) matches Ok(z) ==> res.minimum_zig_version@ == z.0
            && dependencies_view(res.dependencies@) == z.1,
        spec_version_and_dependencies(zon_text@) is Err ==> res.minimum_zig_version@.len() == 0
            && res.dependencies@.len() == 0,
{
    let (minimum_zig_version, dependencies) = match zon_version_and_dependencies(zon_text) {
        Ok(pair) => pair,
        Err(_) => (String::new(), Vec::new()),
    };
    Release {
        is_prerelease: release.prerelease,
        published_at: release.published_at.clone(),
        dependencies,
        minimum_zig_version,
        readme_url,
    }
}

} // verus!
