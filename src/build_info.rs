//! The version banner.

use vstd::prelude::*;

verus! {

/// The banner's text for the given build facts.
pub open spec fn version_banner(
    version: Seq<char>,
    git_hash: Seq<char>,
    git_branch: Seq<char>,
    build_time: Seq<char>,
    built_by: Seq<char>,
    build_host: Seq<char>,
    rustc_version: Seq<char>,
) -> Seq<char> {
    "\nRelease Version:   "@ + version + "\nGit Commit Hash:   "@ + git_hash + "\nGit Commit Branch: "@
        + git_branch + "\nUTC Build Time:    "@ + build_time + "\nBuilt by:          "@ + built_by
        + "\nBuild host:        "@ + build_host + "\nRust Version:      "@ + rustc_version
}

/// Release version, commit, branch, build time, builder, host and compiler,
/// one labelled line each.
pub fn vm_version_info(
    version: &str,
    git_hash: &str,
    git_branch: &str,
    build_time: &str,
    built_by: &str,
    build_host: &str,
    rustc_version: &str,
) -> (r: String)
    ensures
        r@ == version_banner(
            version@,
            git_hash@,
            git_branch@,
            build_time@,
            built_by@,
            build_host@,
            rustc_version@,
        ),
{
    let mut s = String::new();
    s.append("\nRelease Version:   ");
    s.append(version);
    s.append("\nGit Commit Hash:   ");
    s.append(git_hash);
    s.append("\nGit Commit Branch: ");
    s.append(git_branch);
    s.append("\nUTC Build Time:    ");
    s.append(build_time);
    s.append("\nBuilt by:          ");
    s.append(built_by);
    s.append("\nBuild host:        ");
    s.append(build_host);
    s.append("\nRust Version:      ");
    s.append(rustc_version);
    assert(s@ =~= version_banner(
        version@,
        git_hash@,
        git_branch@,
        build_time@,
        built_by@,
        build_host@,
        rustc_version@,
    ));
    s
}

} // verus!
