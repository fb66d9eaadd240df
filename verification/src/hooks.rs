//! Decision rules for installing and removing the commit-message hook.
//!
//! The rules themselves are pure: what to do is decided from whether a
//! repository is present and from the content of whatever hook file already
//! exists. Reading and writing the hook file is a caller's business.
use vstd::prelude::*;

verus! {

/// `needle` occurs somewhere inside `hay`.
pub open spec fn spec_contains(hay: Seq<char>, needle: Seq<char>) -> bool {
    exists|i: int|
        0 <= i && i + needle.len() <= hay.len() && #[trigger] hay.subrange(
            i,
            i + needle.len() as int,
        ) == needle
}

fn matches_at(hay: &str, needle: &str, i: usize) -> (r: bool)
    requires
        i + needle@.len() <= hay@.len(),
    ensures
        r == (hay@.subrange(i as int, i as int + needle@.len() as int) == needle@),
{
    let n = hay.unicode_len();
    let m = needle.unicode_len();
    let mut k: usize = 0;
    while k < m && hay.get_char(i + k) == needle.get_char(k)
        invariant
            0 <= k <= m,
            m == needle@.len(),
            n == hay@.len(),
            i + m <= n,
            forall|t: int| 0 <= t < k ==> hay@[i + t] == needle@[t],
        decreases m - k,
    {
        k += 1;
    }
    if k == m {
        proof {
            assert(hay@.subrange(i as int, i as int + m as int) =~= needle@);
        }
        true
    } else {
        proof {
            assert(hay@[i as int + k as int] != needle@[k as int]);
            if hay@.subrange(i as int, i as int + m as int) == needle@ {
                assert(hay@.subrange(i as int, i as int + m as int)[k as int] == needle@[
                    k as int
                ]);
                assert(false);
            }
        }
        false
    }
}

/// Decides whether `needle` occurs inside `hay`.
pub fn contains_substring(hay: &str, needle: &str) -> (r: bool)
    ensures
        r == spec_contains(hay@, needle@),
{
    let n = hay.unicode_len();
    let m = needle.unicode_len();
    if m > n {
        proof {
            if spec_contains(hay@, needle@) {
                let i = choose|i: int|
                    0 <= i && i + needle@.len() <= hay@.len() && #[trigger] hay@.subrange(
                        i,
                        i + needle@.len() as int,
                    ) == needle@;
                assert(false);
            }
        }
        return false;
    }
    if m == 0 {
        proof {
            assert(hay@.subrange(0, 0 + needle@.len() as int) =~= needle@);
        }
        return true;
    }
    let mut i: usize = 0;
    while i <= n - m
        invariant
            1 <= m <= n,
            n == hay@.len(),
            m == needle@.len(),
            0 <= i <= n - m + 1,
            forall|t: int|
                0 <= t < i ==> #[trigger] hay@.subrange(t, t + needle@.len() as int) != needle@,
        decreases n - i,
    {
        if matches_at(hay, needle, i) {
            return true;
        }
        i += 1;
    }
    proof {
        if spec_contains(hay@, needle@) {
            let t = choose|t: int|
                0 <= t && t + needle@.len() <= hay@.len() && #[trigger] hay@.subrange(
                    t,
                    t + needle@.len() as int,
                ) == needle@;
            assert(t < i);
            assert(false);
        }
    }
    false
}

/// The marker by which this tool recognizes its own hook file.
pub open spec fn hook_marker() -> Seq<char> {
    "convinci"@
}

/// A hook file's content is recognizable as this tool's own.
pub open spec fn spec_is_our_hook(content: Seq<char>) -> bool {
    spec_contains(content, hook_marker())
}

/// Decides whether a hook file's content is recognizable as this tool's own.
pub fn is_our_hook(content: &str) -> (r: bool)
    ensures
        r == spec_is_our_hook(content@),
{
    contains_substring(content, "convinci")
}

/// The script the installer writes.
pub open spec fn spec_hook_script() -> Seq<char> {
    "#!/bin/sh\n# Convinci commit-msg hook\n# Validates conventional commits format\n\n# Pass commit message file content via stdin\ncat \"$1\" | convinci validate -\n"@
}

/// The script the installer writes always carries this tool's marker, so a
/// later install or uninstall recognizes it.
pub proof fn lemma_script_is_ours()
    ensures
        spec_is_our_hook(spec_hook_script()),
{
    reveal_strlit(
        "#!/bin/sh\n# Convinci commit-msg hook\n# Validates conventional commits format\n\n# Pass commit message file content via stdin\ncat \"$1\" | convinci validate -\n",
    );
    reveal_strlit("convinci");
    let s = spec_hook_script();
    let mk = hook_marker();
    assert(s.subrange(134, 134 + mk.len() as int) =~= mk);
    assert(spec_contains(s, mk));
}

/// The script the installer writes.
pub fn hook_script() -> (r: &'static str)
    ensures
        r@ == spec_hook_script(),
        spec_is_our_hook(r@),
{
    proof {
        lemma_script_is_ours();
    }
    "#!/bin/sh\n# Convinci commit-msg hook\n# Validates conventional commits format\n\n# Pass commit message file content via stdin\ncat \"$1\" | convinci validate -\n"
}

/// What installing the hook should do, decided from what is on disk.
#[derive(Debug, Clone, Copy, PartialEq, Eq, Structural)]
pub enum InstallPlan {
    /// Not inside a repository: refuse the whole operation.
    NotARepository,
    /// Write the hook script, overwriting this tool's own earlier hook if
    /// one is present.
    WriteHook,
    /// A hook not recognizable as this tool's is present: leave it untouched
    /// and report it.
    RefuseForeignHook,
}

/// What removing the hook should do, decided from what is on disk.
#[derive(Debug, Clone, Copy, PartialEq, Eq, Structural)]
pub enum UninstallPlan {
    /// No hook file is present: nothing to do.
    NothingInstalled,
    /// The hook is this tool's own: remove it.
    RemoveHook,
    /// The hook is not recognizable as this tool's: leave it untouched.
    LeaveForeignHook,
}

pub open spec fn spec_plan_install(repo_present: bool, existing: Option<Seq<char>>) -> InstallPlan {
    if !repo_present {
        InstallPlan::NotARepository
    } else {
        match existing {
            None => InstallPlan::WriteHook,
            Some(c) => if spec_is_our_hook(c) {
                InstallPlan::WriteHook
            } else {
                InstallPlan::RefuseForeignHook
            },
        }
    }
}

pub open spec fn spec_plan_uninstall(existing: Option<Seq<char>>) -> UninstallPlan {
    match existing {
        None => UninstallPlan::NothingInstalled,
        Some(c) => if spec_is_our_hook(c) {
            UninstallPlan::RemoveHook
        } else {
            UninstallPlan::LeaveForeignHook
        },
    }
}

/// Decides what installing the hook should do. `existing` is the content of
/// the hook file already present, if any.
pub fn plan_install(repo_present: bool, existing: Option<&str>) -> (r: InstallPlan)
    ensures
        r == spec_plan_install(
            repo_present,
            match existing {
                Some(c) => Some(c@),
                None => None,
            },
        ),
{
    if !repo_present {
        InstallPlan::NotARepository
    } else {
        match existing {
            None => InstallPlan::WriteHook,
            Some(c) => {
                if is_our_hook(c) {
                    InstallPlan::WriteHook
                } else {
                    InstallPlan::RefuseForeignHook
                }
            },
        }
    }
}

/// Decides what removing the hook should do. `existing` is the content of
/// the hook file present, if any.
pub fn plan_uninstall(existing: Option<&str>) -> (r: UninstallPlan)
    ensures
        r == spec_plan_uninstall(
            match existing {
                Some(c) => Some(c@),
                None => None,
            },
        ),
{
    match existing {
        None => UninstallPlan::NothingInstalled,
        Some(c) => {
            if is_our_hook(c) {
                UninstallPlan::RemoveHook
            } else {
                UninstallPlan::LeaveForeignHook
            }
        },
    }
}

/// Reinstalling over this tool's own hook always goes through: installing
/// is idempotent on its own script.
pub proof fn lemma_install_idempotent()
    ensures
        spec_plan_install(true, Some(spec_hook_script())) == InstallPlan::WriteHook,
{
    lemma_script_is_ours();
}

} // verus!
