//! Names and addresses derived from an AUR package name: the RPC query, the
//! git URL of the package, and the directories of a build.

use vstd::prelude::*;

verus! {

/// One result of an AUR RPC `info` query.
pub struct AurPackageDetails {
    pub name: String,
    pub url_path: String,
}

/// The `info` query of the AUR RPC interface for a package.
pub open spec fn info_url(package: Seq<char>) -> Seq<char> {
    "https://aur.archlinux.org/rpc/?v=5&type=info&arg="@ + package
}

/// The git URL of an AUR package.
pub open spec fn git_url(package: Seq<char>) -> Seq<char> {
    "https://aur.archlinux.org/"@ + package + ".git"@
}

/// The message given when the AUR knows no package of that name.
pub open spec fn not_found_message(package: Seq<char>) -> Seq<char> {
    "Package "@ + package + " not found"@
}

/// Builds the `info` query of the AUR RPC interface for `package`.
pub fn aur_info_url(package: &String) -> (url: String)
    ensures
        url@ == info_url(package@),
{
    String::from_str("https://aur.archlinux.org/rpc/?v=5&type=info&arg=").concat(package.as_str())
}

/// Builds the git URL of the AUR package `package`.
pub fn aur_git_url(package: &String) -> (url: String)
    ensures
        url@ == git_url(package@),
{
    String::from_str("https://aur.archlinux.org/").concat(package.as_str()).concat(".git")
}

/// The git URL of the package an `info` query answered with: that of the
/// first result, or the not-found message when there is none.
pub fn git_url_from_results(package: &String, results: &Vec<AurPackageDetails>) -> (res: Result<
    String,
    String,
>)
    ensures
        results@.len() == 0 ==> (res matches Err(m) && m@ == not_found_message(package@)),
        results@.len() > 0 ==> (res matches Ok(u) && u@ == git_url(results@[0].name@)),
{
    if results.len() == 0 {
        Err(String::from_str("Package ").concat(package.as_str()).concat(" not found"))
    } else {
        Ok(aur_git_url(&results[0].name))
    }
}

/// Where the pieces of one package build go.
pub struct BuildPlan {
    /// The directory on the host into which the package is cloned.
    pub host_dir: String,
    /// The `PKGBUILD` file of the host clone.
    pub host_pkgbuild: String,
    /// The git URL cloned inside the container.
    pub container_clone_url: String,
    /// The directory inside the container where the package is built.
    pub container_dir: String,
}

/// The plan of a build of `package`; `None` for an empty package name.
pub fn plan_build(package: &String) -> (plan: Option<BuildPlan>)
    ensures
        package@.len() == 0 <==> plan is None,
        plan matches Some(p) ==> {
            &&& p.host_dir@ == "/tmp/aur_build_"@ + package@
            &&& p.host_pkgbuild@ == "/tmp/aur_build_"@ + package@ + "/PKGBUILD"@
            &&& p.container_clone_url@ == git_url(package@)
            &&& p.container_dir@ == "/home/builder/"@ + package@
        },
{
    if package.as_str().is_empty() {
        return None;
    }
    let host_dir = String::from_str("/tmp/aur_build_").concat(package.as_str());
    let host_pkgbuild = String::from_str("/tmp/aur_build_").concat(package.as_str()).concat("/PKGBUILD");
    Some(BuildPlan {
        host_dir,
        host_pkgbuild,
        container_clone_url: aur_git_url(package),
        container_dir: String::from_str("/home/builder/").concat(package.as_str()),
    })
}

} // verus!
