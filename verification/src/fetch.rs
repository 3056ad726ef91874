//! Where the unpatched driver is distributed, and how its archive is laid
//! out. Downloading and unpacking are left to the caller.

use crate::platform::Platform;
use vstd::prelude::*;
use vstd::string::*;

verus! {

/// The address of the distribution point, up to the version.
pub open spec fn storage_root() -> Seq<char> {
    "https://chromedriver.storage.googleapis.com/"@
}

/// The address that answers with the version of the latest release.
pub open spec fn spec_latest_release_url() -> Seq<char> {
    "https://chromedriver.storage.googleapis.com/LATEST_RELEASE"@
}

/// The address of the archive that holds release `version` for `platform`.
pub open spec fn spec_archive_url(platform: Platform, version: Seq<char>) -> Seq<char> {
    storage_root() + version + "/"@ + platform.spec_archive_name()
}

/// What an entry of an archive stands for.
#[derive(Clone, Copy, Debug, PartialEq, Eq, Structural)]
pub enum EntryKind {
    /// A directory, to be created with all its parents.
    Directory,
    /// A file, to be created with its contents.
    File,
}

/// An entry is a directory exactly if its name ends in a slash.
pub open spec fn spec_entry_kind(name: Seq<u8>) -> EntryKind {
    if name.len() > 0 && name.last() == 0x2fu8 {
        EntryKind::Directory
    } else {
        EntryKind::File
    }
}

/// The address that answers with the version of the latest release.
pub fn latest_release_url() -> (url: &'static str)
    ensures
        url@ == spec_latest_release_url(),
{
    "https://chromedriver.storage.googleapis.com/LATEST_RELEASE"
}

/// The address of the archive that holds release `version` for `platform`.
/// The version is taken as it is given.
pub fn archive_url(platform: Platform, version: &str) -> (url: String)
    ensures
        url@ == spec_archive_url(platform, version@),
{
    let mut url = String::from_str("https://chromedriver.storage.googleapis.com/");
    url.append(version);
    url.append("/");
    url.append(platform.archive_name());
    url
}

/// Tells from the name of an archive entry, given as its bytes, whether the
/// entry is a directory or a file.
pub fn entry_kind(name: &[u8]) -> (kind: EntryKind)
    ensures
        kind == spec_entry_kind(name@),
{
    let len: usize = name.len();
    if len > 0 && name[len - 1] == 0x2fu8 {
        EntryKind::Directory
    } else {
        EntryKind::File
    }
}

} // verus!
