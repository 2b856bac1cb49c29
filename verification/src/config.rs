//! The platforms that browsers and drivers are built for.
use vstd::prelude::*;
use crate::text::{eq_ignore_ascii_case, lower};

verus! {

/// An operating system.
#[derive(Debug, Clone, Copy, PartialEq, Eq, Hash, Structural)]
pub enum OS {
    WINDOWS,
    MACOS,
    LINUX,
}

impl OS {
    /// The identifier by which the platform is known.
    pub open spec fn name(self) -> Seq<char> {
        match self {
            OS::WINDOWS => "windows"@,
            OS::MACOS => "macos"@,
            OS::LINUX => "linux"@,
        }
    }

    /// The identifier by which the platform is known.
    pub fn to_str(&self) -> (r: &'static str)
        ensures
            r@ == self.name(),
    {
        match self {
            OS::WINDOWS => "windows",
            OS::MACOS => "macos",
            OS::LINUX => "linux",
        }
    }

    /// Whether `os` identifies this platform. Letter case does not count.
    pub fn is(&self, os: &str) -> (r: bool)
        ensures
            r == (lower(self.name()) == lower(os@)),
    {
        eq_ignore_ascii_case(self.to_str(), os)
    }
}

} // verus!
