use convinci::hooks::{
    contains_substring, hook_script, is_our_hook, plan_install, plan_uninstall, InstallPlan,
    UninstallPlan,
};

#[test]
fn script_is_recognized_as_ours() {
    let script = hook_script();
    assert!(script.contains("convinci"));
    assert!(is_our_hook(script));
    assert!(script.starts_with("#!/bin/sh\n"));
    assert!(script.contains("convinci validate -"));
}

#[test]
fn install_refused_outside_repository() {
    assert_eq!(plan_install(false, None), InstallPlan::NotARepository);
    assert_eq!(
        plan_install(false, Some(hook_script())),
        InstallPlan::NotARepository
    );
}

#[test]
fn install_writes_when_no_hook() {
    assert_eq!(plan_install(true, None), InstallPlan::WriteHook);
}

#[test]
fn install_is_idempotent_on_own_hook() {
    assert_eq!(
        plan_install(true, Some(hook_script())),
        InstallPlan::WriteHook
    );
}

#[test]
fn install_refuses_foreign_hook() {
    assert_eq!(
        plan_install(true, Some("#!/bin/sh\nexit 1\n")),
        InstallPlan::RefuseForeignHook
    );
}

#[test]
fn uninstall_without_hook_is_noop() {
    assert_eq!(plan_uninstall(None), UninstallPlan::NothingInstalled);
}

#[test]
fn uninstall_removes_own_hook() {
    assert_eq!(plan_uninstall(Some(hook_script())), UninstallPlan::RemoveHook);
}

#[test]
fn uninstall_leaves_foreign_hook() {
    assert_eq!(
        plan_uninstall(Some("#!/bin/sh\nexit 1\n")),
        UninstallPlan::LeaveForeignHook
    );
}

#[test]
fn substring_search() {
    assert!(contains_substring("abcdef", "cde"));
    assert!(contains_substring("abcdef", ""));
    assert!(contains_substring("abc", "abc"));
    assert!(!contains_substring("abc", "abcd"));
    assert!(!contains_substring("", "a"));
    assert!(!is_our_hook(""));
    assert!(is_our_hook("convinci"));
    assert!(!is_our_hook("convinc"));
}
