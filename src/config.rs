//! The options a run is configured with.
use vstd::prelude::*;

use crate::search::SearchMethod;
use crate::version::BareVersion;

verus! {

/// The sub-command a configuration was made for.
#[derive(Clone, Copy, Debug, PartialEq, Eq, Structural)]
pub enum Action {
    Find,
    Verify,
    List,
    SetMsrv,
    Show,
}

/// The options that the search and the probes read.
#[derive(Debug, PartialEq)]
pub struct Config {
    pub action: Action,
    /// Target triple to test against.
    pub target: String,
    /// Inclusive lower bound on the candidate releases.
    pub minimum_version: Option<BareVersion>,
    /// Inclusive upper bound on the candidate releases.
    pub maximum_version: Option<BareVersion>,
    /// When false, only the newest release of each minor version is a candidate.
    pub include_all_patch_releases: bool,
    pub search_method: SearchMethod,
    /// The argument vector of the verification command.
    pub check_command: Vec<String>,
    /// Working directory of the verification command.
    pub crate_path: Option<String>,
    /// Displace the lockfile around each probe.
    pub ignore_lockfile: bool,
    /// Leave the captured error output out of incompatibility reports.
    pub no_check_feedback: bool,
    pub output_toolchain_file: bool,
    pub write_msrv: bool,
}

/// The words of a command joined by single spaces.
pub open spec fn joined(words: Seq<String>) -> Seq<char>
    decreases words.len(),
{
    if words.len() == 0 {
        seq![]
    } else if words.len() == 1 {
        words[0]@
    } else {
        joined(words.drop_last()) + seq![' '] + words.last()@
    }
}

/// The verification command used unless another is configured: `cargo check`.
pub open spec fn is_default_check_command(c: Seq<String>) -> bool {
    c.len() == 2 && c[0]@ == "cargo"@ && c[1]@ == "check"@
}

pub(crate) fn clone_strings(v: &Vec<String>) -> (r: Vec<String>)
    ensures
        r@ == v@,
{
    let mut r: Vec<String> = Vec::new();
    let mut i: usize = 0;
    while i < v.len()
        invariant
            i <= v@.len(),
            r@ == v@.subrange(0, i as int),
        decreases v@.len() - i,
    {
        r.push(v[i].clone());
        i = i + 1;
        proof {
            assert(r@ =~= v@.subrange(0, i as int));
        }
    }
    proof {
        assert(v@.subrange(0, v@.len() as int) =~= v@);
    }
    r
}

pub(crate) fn clone_opt_string(o: &Option<String>) -> (r: Option<String>)
    ensures
        r == *o,
{
    match o {
        Some(s) => Some(s.clone()),
        None => None,
    }
}

impl Clone for Config {
    fn clone(&self) -> (r: Self)
        ensures
            r == (Config { check_command: r.check_command, ..*self }),
            r.check_command@ == self.check_command@,
    {
        let r = Config {
            action: self.action,
            target: self.target.clone(),
            minimum_version: self.minimum_version,
            maximum_version: self.maximum_version,
            include_all_patch_releases: self.include_all_patch_releases,
            search_method: self.search_method,
            check_command: clone_strings(&self.check_command),
            crate_path: clone_opt_string(&self.crate_path),
            ignore_lockfile: self.ignore_lockfile,
            no_check_feedback: self.no_check_feedback,
            output_toolchain_file: self.output_toolchain_file,
            write_msrv: self.write_msrv,
        };
        proof {
            assert(r.check_command@ =~= self.check_command@);
        }
        r
    }
}

impl Config {
    /// A configuration with the defaults: no bounds, the newest patch of each
    /// minor version, bisection, `cargo check`, the lockfile kept in place.
    pub fn new(action: Action, target: String) -> (r: Config)
        ensures
            r.action == action,
            r.target == target,
            r.minimum_version == None::<BareVersion>,
            r.maximum_version == None::<BareVersion>,
            !r.include_all_patch_releases,
            r.search_method == SearchMethod::Bisect,
            is_default_check_command(r.check_command@),
            r.crate_path == None::<String>,
            !r.ignore_lockfile,
            !r.no_check_feedback,
            !r.output_toolchain_file,
            !r.write_msrv,
    {
        let mut check_command: Vec<String> = Vec::new();
        check_command.push(String::from_str("cargo"));
        check_command.push(String::from_str("check"));
        Config {
            action,
            target,
            minimum_version: None,
            maximum_version: None,
            include_all_patch_releases: false,
            search_method: SearchMethod::Bisect,
            check_command,
            crate_path: None,
            ignore_lockfile: false,
            no_check_feedback: false,
            output_toolchain_file: false,
            write_msrv: false,
        }
    }

    pub fn target(&self) -> (r: &str)
        ensures
            r@ == self.target@,
    {
        self.target.as_str()
    }

    pub fn minimum_version(&self) -> (r: Option<BareVersion>)
        ensures
            r == self.minimum_version,
    {
        self.minimum_version
    }

    pub fn maximum_version(&self) -> (r: Option<BareVersion>)
        ensures
            r == self.maximum_version,
    {
        self.maximum_version
    }

    pub fn search_method(&self) -> (r: SearchMethod)
        ensures
            r == self.search_method,
    {
        self.search_method
    }

    /// The verification command as one line, to re-run by hand.
    pub fn check_command_string(&self) -> (r: String)
        ensures
            r@ == joined(self.check_command@),
    {
        let mut s = String::new();
        let n = self.check_command.len();
        let mut i: usize = 0;
        proof {
            reveal_strlit(" ");
        }
        while i < n
            invariant
                n == self.check_command@.len(),
                i <= n,
                s@ == joined(self.check_command@.subrange(0, i as int)),
            decreases n - i,
        {
            let ghost prev = self.check_command@.subrange(0, i as int);
            if i > 0 {
                s.append(" ");
            }
            s.append(self.check_command[i].as_str());
            proof {
                reveal_strlit(" ");
                let next = self.check_command@.subrange(0, i + 1);
                assert(next.drop_last() =~= prev);
                assert(next.last() == self.check_command@[i as int]);
                if i == 0 {
                    assert(s@ =~= joined(next));
                } else {
                    assert(s@ =~= joined(next));
                }
            }
            i = i + 1;
        }
        proof {
            assert(self.check_command@.subrange(0, n as int) =~= self.check_command@);
        }
        s
    }
}

} // verus!
