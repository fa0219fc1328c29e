//! Project classification and the auto-clean decision.
//!
//! A directory is classified by the marker files among its immediate
//! children: `Dioxus.toml` makes it a Dioxus project (taking priority over
//! `Cargo.toml`), `Cargo.toml` alone makes it a plain Rust project, and a
//! directory with neither marker is regular and is never acted upon.

use vstd::prelude::*;

verus! {

/// The project type of one visited directory.
#[derive(Clone, Copy, Debug, PartialEq, Eq, Structural)]
pub enum ProjectType {
    /// No recognized marker file; never prompted, cleaned or recorded.
    Regular,
    /// A `Cargo.toml` marker (and no `Dioxus.toml`).
    Rust,
    /// A `Dioxus.toml` marker, whether or not `Cargo.toml` is also present.
    Dioxus,
}

/// The classification rule: `Dioxus.toml` wins, then `Cargo.toml`,
/// otherwise the directory is regular.
pub open spec fn spec_classify(has_dioxus_toml: bool, has_cargo_toml: bool) -> ProjectType {
    if has_dioxus_toml {
        ProjectType::Dioxus
    } else if has_cargo_toml {
        ProjectType::Rust
    } else {
        ProjectType::Regular
    }
}

impl ProjectType {
    /// Classifies a directory from the existence of its two marker files,
    /// `path/Dioxus.toml` and `path/Cargo.toml`. The caller performs the two
    /// existence checks on the directory itself and passes their results in.
    pub fn new_from_path(has_dioxus_toml: bool, has_cargo_toml: bool) -> (t: Self)
        ensures
            t == spec_classify(has_dioxus_toml, has_cargo_toml),
            t is Dioxus <==> has_dioxus_toml,
            t is Rust <==> (!has_dioxus_toml && has_cargo_toml),
            t is Regular <==> (!has_dioxus_toml && !has_cargo_toml),
    {
        if has_dioxus_toml {
            Self::Dioxus
        } else if has_cargo_toml {
            Self::Rust
        } else {
            Self::Regular
        }
    }

    /// The human-readable name used in the confirmation prompt.
    pub fn display_name(&self) -> (r: &'static str)
        ensures
            r@ == spec_display_name(*self),
    {
        match self {
            Self::Regular => "Not a Rust project",
            Self::Rust => "Rust",
            Self::Dioxus => "Dioxus",
        }
    }

    /// The fixed clean command line for this project type, as one string.
    pub fn clean_cmd(&self) -> (r: &'static str)
        ensures
            r@ == spec_clean_cmd(*self),
    {
        match self {
            Self::Regular => "",
            Self::Rust => "cargo clean",
            Self::Dioxus => "dx clean",
        }
    }

    /// The program of the clean command line: what precedes the whitespace
    /// in `clean_cmd`. Defined for marked projects only, whose command lines
    /// are fixed constants.
    pub fn clean_program(&self) -> (r: &'static str)
        requires
            !((*self) is Regular),
        ensures
            r@ == spec_clean_program(*self),
            spec_clean_cmd(*self) == r@ + " "@ + "clean"@,
    {
        match self {
            Self::Regular => "",
            Self::Rust => {
                proof {
                    reveal_strlit("cargo clean");
                    reveal_strlit("cargo");
                    reveal_strlit(" ");
                    reveal_strlit("clean");
                    assert("cargo clean"@ =~= "cargo"@ + " "@ + "clean"@);
                }
                "cargo"
            },
            Self::Dioxus => {
                proof {
                    reveal_strlit("dx clean");
                    reveal_strlit("dx");
                    reveal_strlit(" ");
                    reveal_strlit("clean");
                    assert("dx clean"@ =~= "dx"@ + " "@ + "clean"@);
                }
                "dx"
            },
        }
    }

    /// The argument list of the clean command line: what follows the program,
    /// split on whitespace. For both marked project types it is the single
    /// word `clean`.
    pub fn clean_args(&self) -> (r: Vec<&'static str>)
        requires
            !((*self) is Regular),
        ensures
            r@.len() == 1,
            r@[0]@ == "clean"@,
    {
        let mut args: Vec<&'static str> = Vec::new();
        args.push("clean");
        args
    }

    /// Whether this project is cleaned without prompting under the given
    /// flags: plain Rust projects under `--yes-cargo`, Dioxus projects under
    /// `--yes-dioxus`, either under `--yes-all`; regular directories never.
    pub fn should_autoclean(&self, yes_dioxus: bool, yes_cargo: bool, yes_all: bool) -> (r: bool)
        ensures
            r == spec_should_autoclean(*self, yes_dioxus, yes_cargo, yes_all),
    {
        match self {
            Self::Regular => false,
            Self::Rust => yes_cargo || yes_all,
            Self::Dioxus => yes_dioxus || yes_all,
        }
    }
}

/// What `ProjectType::display_name` returns for each variant.
pub open spec fn spec_display_name(t: ProjectType) -> Seq<char> {
    match t {
        ProjectType::Regular => "Not a Rust project"@,
        ProjectType::Rust => "Rust"@,
        ProjectType::Dioxus => "Dioxus"@,
    }
}

/// What `ProjectType::clean_cmd` returns for each variant.
pub open spec fn spec_clean_cmd(t: ProjectType) -> Seq<char> {
    match t {
        ProjectType::Regular => ""@,
        ProjectType::Rust => "cargo clean"@,
        ProjectType::Dioxus => "dx clean"@,
    }
}

/// What `ProjectType::clean_program` returns for each marked variant.
pub open spec fn spec_clean_program(t: ProjectType) -> Seq<char> {
    match t {
        ProjectType::Regular => ""@,
        ProjectType::Rust => "cargo"@,
        ProjectType::Dioxus => "dx"@,
    }
}

/// What `ProjectType::should_autoclean` returns for each variant.
pub open spec fn spec_should_autoclean(
    t: ProjectType,
    yes_dioxus: bool,
    yes_cargo: bool,
    yes_all: bool,
) -> bool {
    match t {
        ProjectType::Regular => false,
        ProjectType::Rust => yes_cargo || yes_all,
        ProjectType::Dioxus => yes_dioxus || yes_all,
    }
}

} // verus!
