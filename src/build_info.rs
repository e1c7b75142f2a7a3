//! Build information of the node, as the build recorded it.
use vstd::prelude::*;

verus! {

/// What the build recorded of the source tree it was made from.
pub struct BuildInfo {
    /// Shortened SHA-1 hash of the commit.
    pub sha: String,
    /// Current git branch.
    pub branch: String,
    /// Annotated tag description, or the abbreviated commit object.
    pub describe: String,
}

/// The text `<sha> / <branch> / <describe>`.
pub open spec fn git_info_text(info: BuildInfo) -> Seq<char> {
    info.sha@ + " / "@ + info.branch@ + " / "@ + info.describe@
}

/// Git information separated by slashes: `<sha> / <branch> / <describe>`.
pub fn git_info(info: &BuildInfo) -> (r: String)
    ensures
        r@ == git_info_text(*info),
{
    let mut s = String::new();
    s.append(info.sha.as_str());
    s.append(" / ");
    s.append(info.branch.as_str());
    s.append(" / ");
    s.append(info.describe.as_str());
    assert(s@ =~= git_info_text(*info));
    s
}

/// Annotated tag description, or fall back to abbreviated commit object.
pub fn git_describe(info: &BuildInfo) -> (r: &str)
    ensures
        r@ == info.describe@,
{
    info.describe.as_str()
}

/// Current git branch.
pub fn git_branch(info: &BuildInfo) -> (r: &str)
    ensures
        r@ == info.branch@,
{
    info.branch.as_str()
}

/// Shortened SHA-1 hash.
pub fn git_sha(info: &BuildInfo) -> (r: &str)
    ensures
        r@ == info.sha@,
{
    info.sha.as_str()
}

} // verus!
