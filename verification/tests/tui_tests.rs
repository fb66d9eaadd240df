use convinci::tui::{App, InputField, Key, KeyCode};

fn key(code: KeyCode) -> Key {
    Key { code, ctrl: false }
}

fn ctrl(code: KeyCode) -> Key {
    Key { code, ctrl: true }
}

fn ch(c: char) -> Key {
    key(KeyCode::Char(c))
}

/// Moves a fresh session to the breaking toggle and sets the flag.
fn app_with_breaking() -> App {
    let mut app = App::new();
    for _ in 0..4 {
        app.handle_key(key(KeyCode::Tab));
    }
    assert_eq!(app.current_field, InputField::BreakingToggle);
    app.handle_key(ch(' '));
    assert!(app.commit.breaking_change);
    app
}

#[test]
fn initial_state() {
    let app = App::new();
    assert_eq!(app.current_field, InputField::Type);
    assert_eq!(app.commit.commit_type, "feat");
    assert_eq!(app.type_index, 0);
    assert_eq!(app.scope_index, 0);
    assert!(!app.should_quit);
    assert!(!app.should_confirm);
}

#[test]
fn forward_cycle_six_steps_with_breaking() {
    // with the breaking flag set, six forward moves from Type return to
    // Type, visiting BreakingDescription on the way
    let mut app = app_with_breaking();
    app.handle_key(key(KeyCode::Tab)); // -> BreakingDescription
    app.handle_key(key(KeyCode::Tab)); // -> Type
    assert_eq!(app.current_field, InputField::Type);
    let expected = [
        InputField::Scope,
        InputField::Description,
        InputField::Body,
        InputField::BreakingToggle,
        InputField::BreakingDescription,
        InputField::Type,
    ];
    for f in expected {
        app.handle_key(key(KeyCode::Tab));
        assert_eq!(app.current_field, f);
    }
}

#[test]
fn forward_cycle_five_steps_without_breaking() {
    // with the breaking flag unset, the BreakingDescription stop is skipped
    let mut app = App::new();
    let expected = [
        InputField::Scope,
        InputField::Description,
        InputField::Body,
        InputField::BreakingToggle,
        InputField::Type,
    ];
    for f in expected {
        app.handle_key(key(KeyCode::Tab));
        assert_eq!(app.current_field, f);
    }
}

#[test]
fn forward_then_backward_returns() {
    let mut app = App::new();
    // from Type: forward to Scope, back to Type
    app.handle_key(key(KeyCode::Tab));
    app.handle_key(key(KeyCode::BackTab));
    assert_eq!(app.current_field, InputField::Type);
    // from Type backward with the flag unset: the cycle's last field is the
    // toggle
    app.handle_key(key(KeyCode::BackTab));
    assert_eq!(app.current_field, InputField::BreakingToggle);
    app.handle_key(key(KeyCode::Tab));
    assert_eq!(app.current_field, InputField::Type);
}

#[test]
fn backward_from_type_with_breaking() {
    let mut app = app_with_breaking();
    app.handle_key(key(KeyCode::Tab)); // -> BreakingDescription
    app.handle_key(key(KeyCode::Tab)); // -> Type
    app.handle_key(key(KeyCode::BackTab));
    assert_eq!(app.current_field, InputField::BreakingDescription);
    app.handle_key(key(KeyCode::Tab));
    assert_eq!(app.current_field, InputField::Type);
}

#[test]
fn numeric_type_selection() {
    let mut app = App::new();
    app.handle_key(ch('3'));
    assert_eq!(app.commit.commit_type, "docs");
    assert_eq!(app.type_index, 2);
    assert_eq!(app.current_field, InputField::Scope);
}

#[test]
fn arrow_type_selection_wraps() {
    let mut app = App::new();
    app.handle_key(key(KeyCode::Up));
    assert_eq!(app.commit.commit_type, "chore");
    assert_eq!(app.type_index, 9);
    app.handle_key(key(KeyCode::Down));
    assert_eq!(app.commit.commit_type, "feat");
    assert_eq!(app.type_index, 0);
    app.handle_key(ch('j'));
    assert_eq!(app.commit.commit_type, "fix");
    app.handle_key(ch('k'));
    assert_eq!(app.commit.commit_type, "feat");
    // staying in the type field: no digit advanced the focus
    assert_eq!(app.current_field, InputField::Type);
}

#[test]
fn scope_selection_and_clear() {
    let mut app = App::new();
    app.handle_key(key(KeyCode::Tab)); // -> Scope
    app.handle_key(ch('3')); // entry 2: "api", then advance
    assert_eq!(app.commit.scope.as_deref(), Some("api"));
    assert_eq!(app.scope_index, 2);
    assert_eq!(app.current_field, InputField::Description);
    // back to the scope list, clear the scope
    app.handle_key(key(KeyCode::BackTab));
    app.handle_key(key(KeyCode::Backspace));
    assert_eq!(app.commit.scope, None);
    assert_eq!(app.scope_index, 0);
}

#[test]
fn scope_unset_formats_without_parentheses() {
    let mut app = App::new();
    app.handle_key(key(KeyCode::Tab)); // -> Scope
    app.handle_key(ch('1')); // entry 0: no scope
    assert_eq!(app.commit.scope, None);
    let msg = app.commit.generate();
    assert!(!msg.contains('('));
    // a set scope appears exactly as the list entry, parenthesized
    let mut app2 = App::new();
    app2.handle_key(key(KeyCode::Tab));
    app2.handle_key(ch('2')); // entry 1: "ui"
    assert_eq!(app2.commit.scope.as_deref(), Some("ui"));
    assert!(app2.commit.generate().starts_with("feat(ui): "));
}

#[test]
fn description_editing() {
    let mut app = App::new();
    app.handle_key(key(KeyCode::Tab));
    app.handle_key(key(KeyCode::Tab)); // -> Description
    for c in "fixx".chars() {
        app.handle_key(ch(c));
    }
    app.handle_key(key(KeyCode::Backspace));
    assert_eq!(app.commit.description, "fix");
    // a control-chorded character is not text
    app.handle_key(ctrl(KeyCode::Char('x')));
    assert_eq!(app.commit.description, "fix");
    // backspace on an empty description is a no-op
    let mut empty = App::new();
    empty.handle_key(key(KeyCode::Tab));
    empty.handle_key(key(KeyCode::Tab));
    empty.handle_key(key(KeyCode::Backspace));
    assert_eq!(empty.commit.description, "");
}

#[test]
fn body_editing_with_newline() {
    let mut app = App::new();
    for _ in 0..3 {
        app.handle_key(key(KeyCode::Tab)); // -> Body
    }
    assert_eq!(app.current_field, InputField::Body);
    assert_eq!(app.commit.body, None);
    app.handle_key(ch('a'));
    assert_eq!(app.commit.body.as_deref(), Some("a"));
    // enter inserts a line break instead of confirming
    app.handle_key(key(KeyCode::Enter));
    app.handle_key(ch('b'));
    assert_eq!(app.commit.body.as_deref(), Some("a\nb"));
    assert!(!app.should_confirm);
    app.handle_key(key(KeyCode::Backspace));
    assert_eq!(app.commit.body.as_deref(), Some("a\n"));
    // backspace with no body stays without a body
    let mut none = App::new();
    for _ in 0..3 {
        none.handle_key(key(KeyCode::Tab));
    }
    none.handle_key(key(KeyCode::Backspace));
    assert_eq!(none.commit.body, None);
}

#[test]
fn toggle_preserves_breaking_description() {
    let mut app = app_with_breaking();
    app.handle_key(key(KeyCode::Tab)); // -> BreakingDescription
    for c in "api".chars() {
        app.handle_key(ch(c));
    }
    assert_eq!(app.commit.breaking_change_description, "api");
    // back to the toggle, flip the flag off: the text is kept but not rendered
    app.handle_key(key(KeyCode::Esc));
    assert_eq!(app.current_field, InputField::BreakingToggle);
    app.handle_key(ch(' '));
    assert!(!app.commit.breaking_change);
    assert_eq!(app.commit.breaking_change_description, "api");
    assert!(!app.commit.generate().contains("BREAKING CHANGE:"));
}

#[test]
fn defocus_and_refocus() {
    let mut app = App::new();
    app.handle_key(key(KeyCode::Esc));
    assert_eq!(app.current_field, InputField::Unfocused);
    assert!(!app.should_quit);
    app.handle_key(key(KeyCode::Tab));
    assert_eq!(app.current_field, InputField::Type);
    // back-tab from unfocused enters the cycle at its last field
    app.handle_key(key(KeyCode::Esc));
    app.handle_key(key(KeyCode::BackTab));
    assert_eq!(app.current_field, InputField::BreakingToggle);
    // escape while unfocused ends the session
    app.handle_key(key(KeyCode::Esc));
    app.handle_key(key(KeyCode::Esc));
    assert!(app.should_quit);
    assert!(!app.should_confirm);
}

#[test]
fn confirm_from_any_field() {
    let mut app = App::new();
    app.handle_key(key(KeyCode::Enter));
    assert!(app.should_confirm);
    assert!(app.should_quit);
    // an incomplete description does not block confirmation
    assert_eq!(app.commit.description, "");
}

#[test]
fn global_shortcuts() {
    let mut app = App::new();
    app.handle_key(ctrl(KeyCode::Char('c')));
    assert!(app.should_quit);
    assert!(!app.should_confirm);
    let mut app2 = App::new();
    app2.handle_key(key(KeyCode::Tab));
    app2.handle_key(key(KeyCode::Tab)); // -> Description
    app2.handle_key(ctrl(KeyCode::Enter));
    assert!(app2.should_quit);
    assert!(app2.should_confirm);
}

#[test]
fn scope_arrows_wrap() {
    let mut app = App::new();
    app.handle_key(key(KeyCode::Tab)); // -> Scope
    app.handle_key(ch('k'));
    assert_eq!(app.scope_index, 8);
    assert_eq!(app.commit.scope.as_deref(), Some("storage"));
    app.handle_key(ch('j'));
    assert_eq!(app.scope_index, 0);
    assert_eq!(app.commit.scope, None);
    app.handle_key(key(KeyCode::Down));
    assert_eq!(app.commit.scope.as_deref(), Some("ui"));
    app.handle_key(key(KeyCode::Up));
    assert_eq!(app.commit.scope, None);
    // no digit was pressed: the scope list keeps focus
    assert_eq!(app.current_field, InputField::Scope);
}

#[test]
fn digit_bounds() {
    let mut app = App::new();
    // '9' selects the ninth type
    app.handle_key(ch('9'));
    assert_eq!(app.commit.commit_type, "ci");
    assert_eq!(app.type_index, 8);
    assert_eq!(app.current_field, InputField::Scope);
    // '0' names no entry and is ignored
    let mut app2 = App::new();
    app2.handle_key(ch('0'));
    assert_eq!(app2.commit.commit_type, "feat");
    assert_eq!(app2.current_field, InputField::Type);
}

#[test]
fn unrecognized_key_is_ignored() {
    let mut app = App::new();
    app.handle_key(key(KeyCode::Other));
    assert_eq!(app.current_field, InputField::Type);
    assert_eq!(app.commit.commit_type, "feat");
    assert!(!app.should_quit);
    assert!(!app.should_confirm);
    // an ordinary letter in the type list is not a selection either
    app.handle_key(ch('z'));
    assert_eq!(app.commit.commit_type, "feat");
}

#[test]
fn enter_confirms_in_description() {
    let mut app = App::new();
    app.handle_key(key(KeyCode::Tab));
    app.handle_key(key(KeyCode::Tab)); // -> Description
    app.handle_key(ch('x'));
    app.handle_key(key(KeyCode::Enter));
    assert!(app.should_confirm);
    assert!(app.should_quit);
    assert_eq!(app.commit.description, "x");
}

#[test]
fn full_session_with_body_and_breaking() {
    let mut app = App::new();
    app.handle_key(ch('1')); // type "feat", on to the scope list
    app.handle_key(ch('3')); // scope "api", on to the description
    for c in "add endpoint".chars() {
        app.handle_key(ch(c));
    }
    app.handle_key(key(KeyCode::Tab)); // -> Body
    for c in "first".chars() {
        app.handle_key(ch(c));
    }
    app.handle_key(key(KeyCode::Enter)); // line break inside the body
    for c in "second".chars() {
        app.handle_key(ch(c));
    }
    app.handle_key(key(KeyCode::Tab)); // -> BreakingToggle
    app.handle_key(ch(' ')); // set the flag
    app.handle_key(key(KeyCode::Tab)); // -> BreakingDescription
    for c in "shape changed".chars() {
        app.handle_key(ch(c));
    }
    app.handle_key(key(KeyCode::Enter)); // confirm
    assert!(app.should_confirm);
    let msg = app.commit.generate();
    assert_eq!(
        msg,
        "feat(api)!: add endpoint\n\nfirst\nsecond\n\nBREAKING CHANGE: shape changed"
    );
    assert!(convinci::commit::ConventionalCommit::validate(&msg).is_ok());
}

#[test]
fn guided_session_end_to_end() {
    let mut app = App::new();
    app.handle_key(ch('2')); // type "fix", on to the scope list
    app.handle_key(ch('1')); // no scope, on to the description
    for c in "null check".chars() {
        app.handle_key(ch(c));
    }
    app.handle_key(key(KeyCode::Enter)); // confirm
    assert!(app.should_confirm);
    let msg = app.commit.generate();
    assert_eq!(msg, "fix: null check");
    assert!(convinci::commit::ConventionalCommit::validate(&msg).is_ok());
}
