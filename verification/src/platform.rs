//! The operating systems that the driver is distributed for, and the names
//! that depend on them.

use crate::error::DriverError;
use vstd::prelude::*;

verus! {

/// Permission bits of the patched executable where the platform has them:
/// read, write and execute for the owner, read and execute for the group and
/// for everyone else.
pub const EXECUTABLE_MODE: u32 = 0o755;

/// An operating system that the driver is distributed for.
#[derive(Clone, Copy, Debug, PartialEq, Eq, Structural)]
pub enum Platform {
    Linux,
    MacOs,
    Windows,
}

/// The platform that the operating system identifier `os` names, if any.
pub open spec fn platform_named(os: Seq<char>) -> Option<Platform> {
    if os == "linux"@ {
        Some(Platform::Linux)
    } else if os == "macos"@ {
        Some(Platform::MacOs)
    } else if os == "windows"@ {
        Some(Platform::Windows)
    } else {
        None
    }
}

/// The three permission bits that `mode` gives to the owner.
pub open spec fn owner_bits(mode: u32) -> u32 {
    (mode >> 6) & 7
}

/// The three permission bits that `mode` gives to the group.
pub open spec fn group_bits(mode: u32) -> u32 {
    (mode >> 3) & 7
}

/// The three permission bits that `mode` gives to everyone else.
pub open spec fn other_bits(mode: u32) -> u32 {
    mode & 7
}

/// `EXECUTABLE_MODE` is `rwx` for the owner and `r-x` for group and others,
/// and sets no other bit.
pub proof fn lemma_executable_mode()
    ensures
        owner_bits(EXECUTABLE_MODE) == 7,
        group_bits(EXECUTABLE_MODE) == 5,
        other_bits(EXECUTABLE_MODE) == 5,
        EXECUTABLE_MODE >> 9 == 0,
{
    assert((0o755u32 >> 6) & 7 == 7) by (bit_vector);
    assert((0o755u32 >> 3) & 7 == 5) by (bit_vector);
    assert(0o755u32 & 7 == 5) by (bit_vector);
    assert(0o755u32 >> 9 == 0) by (bit_vector);
}

/// The patched executable never has the name of the source executable, so
/// writing the one leaves the other as it is.
pub proof fn lemma_names_differ(platform: Platform)
    ensures
        platform.spec_patched_name() != platform.spec_source_name(),
{
    reveal_strlit("chromedriver");
    reveal_strlit("chromedriver.exe");
    reveal_strlit("chromedriver_PATCHED");
    reveal_strlit("chromedriver_PATCHED.exe");
    assert(platform.spec_patched_name().len() != platform.spec_source_name().len());
}

impl Platform {
    /// The platform has POSIX permission bits.
    pub open spec fn posix(self) -> bool {
        self != Platform::Windows
    }

    /// File name of the executable as it is distributed.
    pub open spec fn spec_source_name(self) -> Seq<char> {
        if self.posix() {
            "chromedriver"@
        } else {
            "chromedriver.exe"@
        }
    }

    /// File name of the patched executable.
    pub open spec fn spec_patched_name(self) -> Seq<char> {
        if self.posix() {
            "chromedriver_PATCHED"@
        } else {
            "chromedriver_PATCHED.exe"@
        }
    }

    /// Name of the archive that holds the executable for this platform.
    pub open spec fn spec_archive_name(self) -> Seq<char> {
        match self {
            Platform::Linux => "chromedriver_linux64.zip"@,
            Platform::MacOs => "chromedriver_mac64.zip"@,
            Platform::Windows => "chromedriver_win32.zip"@,
        }
    }

    /// Tells the platform from an operating system identifier: `linux`,
    /// `macos` or `windows`, exactly so written. Any other identifier is
    /// refused.
    pub fn from_os_name(os: &str) -> (found: Result<Platform, DriverError>)
        ensures
            found == match platform_named(os@) {
                Some(platform) => Ok::<Platform, DriverError>(platform),
                None => Err::<Platform, DriverError>(DriverError::UnsupportedPlatform),
            },
    {
        let name = os.to_owned();
        if name == "linux".to_owned() {
            Ok(Platform::Linux)
        } else if name == "macos".to_owned() {
            Ok(Platform::MacOs)
        } else if name == "windows".to_owned() {
            Ok(Platform::Windows)
        } else {
            Err(DriverError::UnsupportedPlatform)
        }
    }

    /// Whether the platform has POSIX permission bits.
    pub fn is_posix(self) -> (posix: bool)
        ensures
            posix == self.posix(),
    {
        match self {
            Platform::Linux => true,
            Platform::MacOs => true,
            Platform::Windows => false,
        }
    }

    /// File name of the executable as it is distributed.
    pub fn source_name(self) -> (name: &'static str)
        ensures
            name@ == self.spec_source_name(),
    {
        if self.is_posix() {
            "chromedriver"
        } else {
            "chromedriver.exe"
        }
    }

    /// File name of the patched executable.
    pub fn patched_name(self) -> (name: &'static str)
        ensures
            name@ == self.spec_patched_name(),
    {
        if self.is_posix() {
            "chromedriver_PATCHED"
        } else {
            "chromedriver_PATCHED.exe"
        }
    }

    /// Name of the archive that holds the executable for this platform.
    pub fn archive_name(self) -> (name: &'static str)
        ensures
            name@ == self.spec_archive_name(),
    {
        match self {
            Platform::Linux => "chromedriver_linux64.zip",
            Platform::MacOs => "chromedriver_mac64.zip",
            Platform::Windows => "chromedriver_win32.zip",
        }
    }

    /// The permission bits to give the patched executable: `EXECUTABLE_MODE`
    /// on a POSIX platform, none elsewhere, where the platform's default stands.
    pub fn executable_mode(self) -> (mode: Option<u32>)
        ensures
            mode == if self.posix() {
                Some(EXECUTABLE_MODE)
            } else {
                None::<u32>
            },
    {
        if self.is_posix() {
            Some(EXECUTABLE_MODE)
        } else {
            None
        }
    }
}

} // verus!
