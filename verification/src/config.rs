//! Session configuration and the fixed lists of commit types and scopes.
use vstd::prelude::*;

verus! {

/// Number of entries in the fixed commit-type list.
pub const COMMIT_TYPE_COUNT: usize = 10;

/// Number of entries in the fixed scope list (entry 0 stands for "no scope").
pub const COMMIT_SCOPE_COUNT: usize = 9;

/// The label of the `i`-th commit type.
pub open spec fn spec_type_label(i: int) -> Seq<char> {
    if i == 0 {
        "feat"@
    } else if i == 1 {
        "fix"@
    } else if i == 2 {
        "docs"@
    } else if i == 3 {
        "style"@
    } else if i == 4 {
        "refactor"@
    } else if i == 5 {
        "perf"@
    } else if i == 6 {
        "test"@
    } else if i == 7 {
        "build"@
    } else if i == 8 {
        "ci"@
    } else {
        "chore"@
    }
}

/// The label of the `i`-th scope entry; entry 0 is the placeholder shown
/// for "no scope" and is never stored in the commit model.
pub open spec fn spec_scope_label(i: int) -> Seq<char> {
    if i == 0 {
        "<None>"@
    } else if i == 1 {
        "ui"@
    } else if i == 2 {
        "api"@
    } else if i == 3 {
        "database"@
    } else if i == 4 {
        "auth"@
    } else if i == 5 {
        "config"@
    } else if i == 6 {
        "logging"@
    } else if i == 7 {
        "network"@
    } else {
        "storage"@
    }
}

/// The fixed, ordered list of commit types, selected by index.
pub fn commit_type_label(i: usize) -> (r: &'static str)
    requires
        i < COMMIT_TYPE_COUNT,
    ensures
        r@ == spec_type_label(i as int),
{
    match i {
        0 => "feat",
        1 => "fix",
        2 => "docs",
        3 => "style",
        4 => "refactor",
        5 => "perf",
        6 => "test",
        7 => "build",
        8 => "ci",
        _ => "chore",
    }
}

/// The fixed, ordered list of scope entries, selected by index.
pub fn scope_label(i: usize) -> (r: &'static str)
    requires
        i < COMMIT_SCOPE_COUNT,
    ensures
        r@ == spec_scope_label(i as int),
{
    match i {
        0 => "<None>",
        1 => "ui",
        2 => "api",
        3 => "database",
        4 => "auth",
        5 => "config",
        6 => "logging",
        7 => "network",
        _ => "storage",
    }
}

/// Every commit type of the fixed list is a non-empty lowercase word, as
/// the header grammar asks.
pub proof fn lemma_type_label_valid(i: int)
    requires
        0 <= i < COMMIT_TYPE_COUNT,
    ensures
        spec_type_label(i).len() >= 1,
        crate::commit::all_lower_alpha(spec_type_label(i)),
{
    reveal_strlit("feat");
    reveal_strlit("fix");
    reveal_strlit("docs");
    reveal_strlit("style");
    reveal_strlit("refactor");
    reveal_strlit("perf");
    reveal_strlit("test");
    reveal_strlit("build");
    reveal_strlit("ci");
    reveal_strlit("chore");
}

/// Every storable scope of the fixed list (entry `0` is never stored) holds
/// no parentheses and no line breaks, as the header grammar asks.
pub proof fn lemma_scope_label_valid(i: int)
    requires
        1 <= i < COMMIT_SCOPE_COUNT,
    ensures
        crate::commit::all_scope_chars(spec_scope_label(i)),
{
    reveal_strlit("ui");
    reveal_strlit("api");
    reveal_strlit("database");
    reveal_strlit("auth");
    reveal_strlit("config");
    reveal_strlit("logging");
    reveal_strlit("network");
    reveal_strlit("storage");
}

/// Display options of one session: `dev_mode` makes the session print the
/// final message instead of invoking the version-control tool. The options
/// never influence field logic or validation.
#[derive(Debug, Clone, Copy, PartialEq, Eq, Structural)]
pub struct AppConfig {
    pub dev_mode: bool,
}

impl Default for AppConfig {
    fn default() -> (r: Self)
        ensures
            !r.dev_mode,
    {
        AppConfig { dev_mode: false }
    }
}

} // verus!
