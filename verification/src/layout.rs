use vstd::prelude::*;
use vstd::string::StringExecFns;

verus! {

/// The directory of the version record.
pub const CURRENT_VERSION_DIRECTORY: &'static str = "/var/lib/vsdown/";

/// The name of the version record in its directory.
pub const CURRENT_VERSION_FILENAME: &'static str = "current_version";

/// The registry's page on the releases.
pub const ANITYA_URL: &'static str =
    "https://release-monitoring.org/api/v2/versions/?project_id=243355";

/// The address of a release archive, up to the architecture tag.
pub const DOWNLOAD_VSCODE_URL: &'static str =
    "https://code.visualstudio.com/sha/download?build=stable&os=";

/// The directory that a release archive is unpacked into.
pub const VSCODE_PATH: &'static str = "/usr/lib";

/// The directory that an archive unpacks to, up to the architecture tag.
pub const UNPACKED_PREFIX: &'static str = "/usr/lib/VSCode-";

/// The directory of the installed release.
pub const INSTALL_PATH: &'static str = "/usr/lib/vscode";

/// The executable of the installed release.
pub const EXECUTABLE_PATH: &'static str = "/usr/lib/vscode/code";

/// The link to the executable.
pub const LINK_PATH: &'static str = "/usr/bin/vscode";

/// What a version record holds before any release was installed.
pub const NO_VERSION: &'static str = "None";

/// The name of the 64-bit x86 architecture.
pub const ARCH_X86_64: &'static str = "x86_64";

/// The name of the 64-bit ARM architecture.
pub const ARCH_AARCH64: &'static str = "aarch64";

/// The tag of the releases for 64-bit x86.
pub const TAG_X64: &'static str = "linux-x64";

/// The tag of the releases for 64-bit ARM.
pub const TAG_ARM64: &'static str = "linux-arm64";

/// The path of the version record.
pub open spec fn marker() -> Seq<char> {
    CURRENT_VERSION_DIRECTORY@ + CURRENT_VERSION_FILENAME@
}

/// The directory that the archive for `tag` unpacks to.
pub open spec fn unpacked(tag: Seq<char>) -> Seq<char> {
    UNPACKED_PREFIX@ + tag
}

/// The address of the archive for `tag`.
pub open spec fn download_address(tag: Seq<char>) -> Seq<char> {
    DOWNLOAD_VSCODE_URL@ + tag
}

/// The tag under which releases for the architecture `arch` are published.
pub open spec fn tag_of(arch: Seq<char>) -> Option<Seq<char>> {
    if arch == ARCH_X86_64@ {
        Some(TAG_X64@)
    } else if arch == ARCH_AARCH64@ {
        Some(TAG_ARM64@)
    } else {
        None
    }
}

/// The path of the version record.
pub fn marker_path() -> (path: String)
    ensures
        path@ == marker(),
{
    String::from_str(CURRENT_VERSION_DIRECTORY).concat(CURRENT_VERSION_FILENAME)
}

/// The directory that the archive for `tag` unpacks to.
pub fn unpacked_path(tag: &str) -> (path: String)
    ensures
        path@ == unpacked(tag@),
{
    String::from_str(UNPACKED_PREFIX).concat(tag)
}

/// The address of the archive for `tag`.
pub fn download_url(tag: &str) -> (url: String)
    ensures
        url@ == download_address(tag@),
{
    String::from_str(DOWNLOAD_VSCODE_URL).concat(tag)
}

/// The tag under which releases for the architecture `arch` are published:
/// one for `x86_64`, one for `aarch64`, none for any other.
pub fn arch_tag(arch: &str) -> (tag: Option<&'static str>)
    ensures
        tag matches Some(t) ==> tag_of(arch@) == Some(t@),
        tag is None ==> tag_of(arch@) is None,
{
    let arch = String::from_str(arch);
    if arch == String::from_str(ARCH_X86_64) {
        Some(TAG_X64)
    } else if arch == String::from_str(ARCH_AARCH64) {
        Some(TAG_ARM64)
    } else {
        None
    }
}

} // verus!
