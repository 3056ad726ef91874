//! The errors that the library reports.

use crate::text::{decimal, push_decimal};
use vstd::prelude::*;
use vstd::string::*;

verus! {

/// The file operation that failed.
#[derive(Clone, Copy, Debug, PartialEq, Eq, Structural)]
pub enum IoStage {
    /// Reading the source executable.
    ReadSource,
    /// Creating or writing the patched executable.
    WriteTarget,
    /// Setting the permission bits of the patched executable.
    SetPermissions,
}

/// Why a patch or a launch was given up. Every one of them is fatal to the
/// operation that reports it; none is retried.
#[derive(Clone, Copy, Debug, PartialEq, Eq, Structural)]
pub enum DriverError {
    /// A file operation failed.
    IoError { stage: IoStage },
    /// The region of the marker at `offset` would run past the end of the image.
    CorruptRegion { offset: usize },
    /// Every connection attempt failed.
    LaunchTimeout,
    /// The operating system is none of those the driver is distributed for.
    UnsupportedPlatform,
}

impl IoStage {
    /// The operation in words.
    pub open spec fn spec_describe(self) -> Seq<char> {
        match self {
            IoStage::ReadSource => "reading the source executable"@,
            IoStage::WriteTarget => "writing the patched executable"@,
            IoStage::SetPermissions => "setting the permissions of the patched executable"@,
        }
    }

    /// The operation in words.
    pub fn describe(self) -> (words: &'static str)
        ensures
            words@ == self.spec_describe(),
    {
        match self {
            IoStage::ReadSource => "reading the source executable",
            IoStage::WriteTarget => "writing the patched executable",
            IoStage::SetPermissions => "setting the permissions of the patched executable",
        }
    }
}

impl DriverError {
    /// The error as a line of text.
    pub open spec fn spec_message(self) -> Seq<char> {
        match self {
            DriverError::IoError { stage } => "I/O error while "@ + stage.spec_describe(),
            DriverError::CorruptRegion { offset } => "corrupt region: the marker at offset "@
                + decimal(offset as nat) + " is too close to the end of the image"@,
            DriverError::LaunchTimeout => "launch timed out: every connection attempt failed"@,
            DriverError::UnsupportedPlatform => "unsupported platform"@,
        }
    }

    /// The error as a line of text.
    pub fn message(&self) -> (text: String)
        ensures
            text@ == self.spec_message(),
    {
        match self {
            DriverError::IoError { stage } => {
                let mut text = String::from_str("I/O error while ");
                text.append(stage.describe());
                text
            },
            DriverError::CorruptRegion { offset } => {
                let mut text = String::from_str("corrupt region: the marker at offset ");
                push_decimal(&mut text, *offset as u64);
                text.append(" is too close to the end of the image");
                text
            },
            DriverError::LaunchTimeout => String::from_str(
                "launch timed out: every connection attempt failed",
            ),
            DriverError::UnsupportedPlatform => String::from_str("unsupported platform"),
        }
    }
}

} // verus!
