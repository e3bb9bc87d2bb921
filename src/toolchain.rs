//! A toolchain to probe: a release version for a target triple.
use vstd::prelude::*;

use crate::version::{version_text, Version};

verus! {

/// A toolchain: a release version paired with a target triple.
#[derive(Debug, PartialEq)]
pub struct OwnedToolchainSpec {
    pub version: Version,
    pub target: String,
}

/// The toolchain's name as the toolchain manager takes it: `VERSION-TARGET`.
pub open spec fn spec_text(t: OwnedToolchainSpec) -> Seq<char> {
    version_text(t.version) + seq!['-'] + t.target@
}

impl Clone for OwnedToolchainSpec {
    fn clone(&self) -> (r: Self)
        ensures
            r == *self,
    {
        OwnedToolchainSpec { version: self.version, target: self.target.clone() }
    }
}

impl OwnedToolchainSpec {
    pub fn new(version: &Version, target: &str) -> (r: Self)
        ensures
            r.version == *version,
            r.target@ == target@,
    {
        OwnedToolchainSpec { version: *version, target: String::from_str(target) }
    }

    pub fn version(&self) -> (r: &Version)
        ensures
            *r == self.version,
    {
        &self.version
    }

    pub fn target(&self) -> (r: &str)
        ensures
            r@ == self.target@,
    {
        self.target.as_str()
    }

    /// The toolchain's name, `VERSION-TARGET`.
    pub fn spec(&self) -> (r: String)
        ensures
            r@ == spec_text(*self),
    {
        let mut s = self.version.to_text();
        s.append("-");
        s.append(self.target.as_str());
        proof {
            reveal_strlit("-");
            assert(s@ =~= spec_text(*self));
        }
        s
    }
}

} // verus!
