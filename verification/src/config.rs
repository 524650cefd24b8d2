//! The configuration of a documentation run.

use vstd::prelude::*;

use crate::text::{path_push, push_path};

verus! {

/// The overall configuration for `rustc-internal-docs`.
#[derive(Clone, Debug)]
pub struct Config {
    /// Location of your local checkout of the rust-lang/rust repository.
    pub rust_dir: String,
    /// The git repository who's GitHub Pages to push to.
    pub git_repo: String,
    /// How errors are handled.
    pub error_handling: ErrorHandling,
    /// Tweak which steps are run.
    pub stages: Stages,
}

/// Options for tweaking which stages of the documentation generation to execute.
#[derive(Clone, Copy, Debug, PartialEq, Eq, Structural)]
pub struct Stages {
    pub skip_git_update: bool,
    pub skip_upload: bool,
}

/// How should we deal with errors?
#[derive(Clone, Copy, Debug, PartialEq, Eq, Structural)]
pub struct ErrorHandling {
    /// Abort at the first error.
    pub fail_fast: bool,
    /// If there were errors generating docs for some of the crates, do we
    /// still upload to GitHub pages?
    pub upload_with_errors: bool,
}

/// The name of the configuration file in the home directory.
pub open spec fn config_file_name() -> Seq<char> {
    ".rustc-internal-docs.toml"@
}

/// Where the configuration file is looked for: in the home directory
/// `home` when there is one, else in the current directory.
pub open spec fn config_file_location(home: Option<Seq<char>>) -> Seq<char> {
    let dir = match home {
        Some(h) => path_push(Seq::empty(), h),
        None => Seq::empty(),
    };
    path_push(dir, config_file_name())
}

impl Config {
    /// The configuration file in the home directory `home`, or in the
    /// current directory when no home directory is known.
    pub fn default_config_file(home: Option<String>) -> (path: String)
        ensures
            path@ == config_file_location(match home {
                Some(h) => Some(h@),
                None => None,
            }),
    {
        proof { reveal_strlit(".rustc-internal-docs.toml"); }
        let mut default_config = String::new();
        if let Some(h) = home {
            default_config = push_path(default_config.as_str(), h.as_str());
        }
        push_path(default_config.as_str(), ".rustc-internal-docs.toml")
    }

    /// Whether two configurations hold the same values.
    pub open spec fn same_as(&self, other: &Config) -> bool {
        &&& self.rust_dir@ == other.rust_dir@
        &&& self.git_repo@ == other.git_repo@
        &&& self.error_handling == other.error_handling
        &&& self.stages == other.stages
    }
}

impl PartialEq for Config {
    fn eq(&self, other: &Config) -> (same: bool) {
        self.rust_dir == other.rust_dir && self.git_repo == other.git_repo
            && self.error_handling == other.error_handling && self.stages == other.stages
    }
}

impl vstd::std_specs::cmp::PartialEqSpecImpl for Config {
    open spec fn obeys_eq_spec() -> bool {
        true
    }

    open spec fn eq_spec(&self, other: &Config) -> bool {
        self.same_as(other)
    }
}

impl Default for Config {
    fn default() -> (cfg: Config)
        ensures
            cfg.rust_dir@ == "/tmp/rust-lang/rust"@,
            cfg.git_repo@ == "git@github.com:Michael-F-Bryan/rustc-internal-docs.git"@,
            cfg.error_handling == (ErrorHandling { fail_fast: false, upload_with_errors: false }),
            cfg.stages == (Stages { skip_git_update: false, skip_upload: false }),
    {
        Config {
            rust_dir: String::from_str("/tmp/rust-lang/rust"),
            git_repo: String::from_str("git@github.com:Michael-F-Bryan/rustc-internal-docs.git"),
            error_handling: ErrorHandling::default(),
            stages: Stages::default(),
        }
    }
}

impl Default for Stages {
    fn default() -> (stages: Stages)
        ensures
            stages == (Stages { skip_git_update: false, skip_upload: false }),
    {
        Stages { skip_git_update: false, skip_upload: false }
    }
}

impl Default for ErrorHandling {
    fn default() -> (handling: ErrorHandling)
        ensures
            handling == (ErrorHandling { fail_fast: false, upload_with_errors: false }),
    {
        ErrorHandling { fail_fast: false, upload_with_errors: false }
    }
}

} // verus!
