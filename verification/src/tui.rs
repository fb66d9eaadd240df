//! The interactive field state machine of a guided session.
//!
//! An [`App`] owns the commit model, the field that currently has focus and
//! the selection indices of the two fixed lists. Every input event goes
//! through [`App::handle_key`], whose whole effect is the transition
//! function [`spec_step`]; nothing else mutates the model.
use crate::commit::CommitView;
use crate::commit::ConventionalCommit;
use crate::commit::spec_default_commit;
use crate::config::AppConfig;
use crate::config::COMMIT_SCOPE_COUNT;
use crate::config::COMMIT_TYPE_COUNT;
use crate::config::commit_type_label;
use crate::config::scope_label;
use crate::config::spec_scope_label;
use crate::config::spec_type_label;
use crate::text::pop_char;
use crate::text::push_char;
use vstd::prelude::*;
use vstd::string::StringExecFns;

verus! {

/// The field of a session that has focus, or `Unfocused`.
#[derive(Debug, Clone, Copy, PartialEq, Eq, Structural)]
pub enum InputField {
    Type,
    Scope,
    Description,
    Body,
    BreakingToggle,
    BreakingDescription,
    Unfocused,
}

/// What a pressed key means to the session: a printable character or one of
/// the recognized control keys. Anything else is `Other` and is ignored.
#[derive(Debug, Clone, Copy, PartialEq, Eq, Structural)]
pub enum KeyCode {
    Char(char),
    Enter,
    Tab,
    BackTab,
    Backspace,
    Esc,
    Up,
    Down,
    Other,
}

/// One input event: a key, and whether a control modifier was held.
#[derive(Debug, Clone, Copy, PartialEq, Eq, Structural)]
pub struct Key {
    pub code: KeyCode,
    pub ctrl: bool,
}

/// One interactive session.
#[derive(Debug)]
pub struct App {
    pub commit: ConventionalCommit,
    pub current_field: InputField,
    pub config: AppConfig,
    pub should_quit: bool,
    pub type_index: usize,
    pub scope_index: usize,
    pub should_confirm: bool,
    pub single_field_mode: bool,
    pub show_help: bool,
}

/// The mathematical value of an [`App`].
pub struct AppView {
    pub commit: CommitView,
    pub current_field: InputField,
    pub config: AppConfig,
    pub should_quit: bool,
    pub type_index: int,
    pub scope_index: int,
    pub should_confirm: bool,
    pub single_field_mode: bool,
    pub show_help: bool,
}

impl View for App {
    type V = AppView;

    open spec fn view(&self) -> AppView {
        AppView {
            commit: self.commit@,
            current_field: self.current_field,
            config: self.config,
            should_quit: self.should_quit,
            type_index: self.type_index as int,
            scope_index: self.scope_index as int,
            should_confirm: self.should_confirm,
            single_field_mode: self.single_field_mode,
            show_help: self.show_help,
        }
    }
}

impl AppView {
    /// A session is well formed when its selection indices lie inside the
    /// fixed lists, the model agrees with those selections, and the
    /// breaking-description field has focus only while the breaking flag is
    /// set.
    pub open spec fn wf(self) -> bool {
        &&& 0 <= self.type_index < COMMIT_TYPE_COUNT
        &&& 0 <= self.scope_index < COMMIT_SCOPE_COUNT
        &&& self.commit.commit_type == spec_type_label(self.type_index)
        &&& (self.scope_index == 0 ==> self.commit.scope is None)
        &&& (self.scope_index > 0 ==> self.commit.scope == Some(
            spec_scope_label(self.scope_index),
        ))
        &&& (self.current_field is BreakingDescription ==> self.commit.breaking_change)
    }
}

/// The field one forward move (next) reaches: the fixed cycle, where the
/// stop at `BreakingDescription` exists only while the breaking flag is set.
pub open spec fn forward_field(f: InputField, breaking: bool) -> InputField {
    match f {
        InputField::Type => InputField::Scope,
        InputField::Scope => InputField::Description,
        InputField::Description => InputField::Body,
        InputField::Body => InputField::BreakingToggle,
        InputField::BreakingToggle => if breaking {
            InputField::BreakingDescription
        } else {
            InputField::Type
        },
        InputField::BreakingDescription => InputField::Type,
        InputField::Unfocused => InputField::Type,
    }
}

/// The field one backward move (previous) reaches: the exact reverse of
/// [`forward_field`], with the same conditional stop.
pub open spec fn backward_field(f: InputField, breaking: bool) -> InputField {
    match f {
        InputField::Type => if breaking {
            InputField::BreakingDescription
        } else {
            InputField::BreakingToggle
        },
        InputField::Scope => InputField::Type,
        InputField::Description => InputField::Scope,
        InputField::Body => InputField::Description,
        InputField::BreakingToggle => InputField::Body,
        InputField::BreakingDescription => InputField::BreakingToggle,
        InputField::Unfocused => InputField::Type,
    }
}

/// The selection index a digit key stands for: `1` through `9` select
/// entries `0` through `8`.
pub open spec fn spec_digit_index(c: char) -> Option<int> {
    if c == '1' {
        Some(0int)
    } else if c == '2' {
        Some(1int)
    } else if c == '3' {
        Some(2int)
    } else if c == '4' {
        Some(3int)
    } else if c == '5' {
        Some(4int)
    } else if c == '6' {
        Some(5int)
    } else if c == '7' {
        Some(6int)
    } else if c == '8' {
        Some(7int)
    } else if c == '9' {
        Some(8int)
    } else {
        None
    }
}

fn digit_index(c: char) -> (r: Option<usize>)
    ensures
        r == match spec_digit_index(c) {
            Some(i) => Some(i as usize),
            None => None::<usize>,
        },
{
    match c {
        '1' => Some(0),
        '2' => Some(1),
        '3' => Some(2),
        '4' => Some(3),
        '5' => Some(4),
        '6' => Some(5),
        '7' => Some(6),
        '8' => Some(7),
        '9' => Some(8),
        _ => None,
    }
}

/// The session after a confirm action: it ends with confirmation requested.
pub open spec fn spec_confirmed(v: AppView) -> AppView {
    AppView { should_confirm: true, should_quit: true, ..v }
}

/// The session with focus moved to `f` and nothing else changed.
pub open spec fn spec_with_field(v: AppView, f: InputField) -> AppView {
    AppView { current_field: f, ..v }
}

/// The session after selecting entry `idx` of the type list: the selection
/// and the model's type both move to that entry.
pub open spec fn spec_select_type(v: AppView, idx: int) -> AppView {
    AppView {
        type_index: idx,
        commit: CommitView { commit_type: spec_type_label(idx), ..v.commit },
        ..v
    }
}

/// The session after selecting entry `idx` of the scope list: entry `0`
/// unsets the model's scope, any other entry stores that entry's label.
pub open spec fn spec_set_scope(v: AppView, idx: int) -> AppView {
    AppView {
        scope_index: idx,
        commit: CommitView {
            scope: if idx == 0 {
                None
            } else {
                Some(spec_scope_label(idx))
            },
            ..v.commit
        },
        ..v
    }
}

/// A text after deleting its last character; an empty text stays empty.
pub open spec fn spec_pop_text(s: Seq<char>) -> Seq<char> {
    if s.len() > 0 {
        s.drop_last()
    } else {
        s
    }
}

/// A body after appending one character; an unset body becomes a one-character body.
pub open spec fn spec_push_body(b: Option<Seq<char>>, c: char) -> Option<Seq<char>> {
    match b {
        Some(s) => Some(s.push(c)),
        None => Some(seq![c]),
    }
}

/// A body after deleting its last character; an unset body stays unset, and
/// a body emptied this way stays set (but empty).
pub open spec fn spec_pop_body(b: Option<Seq<char>>) -> Option<Seq<char>> {
    match b {
        Some(s) => Some(spec_pop_text(s)),
        None => None,
    }
}

/// The session a guided run starts from: focus on the type field, the
/// default model, both selections at entry `0`.
pub open spec fn spec_initial_app() -> AppView {
    AppView {
        commit: spec_default_commit(),
        current_field: InputField::Type,
        config: AppConfig { dev_mode: false },
        should_quit: false,
        type_index: 0,
        scope_index: 0,
        should_confirm: false,
        single_field_mode: false,
        show_help: true,
    }
}

/// What a key does while the type list has focus: arrows (or `j`/`k`) move
/// the selection with wraparound, a digit selects directly and advances one
/// field, navigation keys move focus, enter confirms.
pub open spec fn spec_step_type(v: AppView, key: Key) -> AppView {
    match key.code {
        KeyCode::Down => spec_select_type(v, (v.type_index + 1) % (COMMIT_TYPE_COUNT as int)),
        KeyCode::Up => spec_select_type(
            v,
            if v.type_index == 0 {
                COMMIT_TYPE_COUNT as int - 1
            } else {
                v.type_index - 1
            },
        ),
        KeyCode::Tab => spec_with_field(
            v,
            forward_field(v.current_field, v.commit.breaking_change),
        ),
        KeyCode::BackTab => spec_with_field(
            v,
            backward_field(v.current_field, v.commit.breaking_change),
        ),
        KeyCode::Esc => spec_with_field(v, InputField::Unfocused),
        KeyCode::Enter => spec_confirmed(v),
        KeyCode::Char(c) => if c == 'j' {
            spec_select_type(v, (v.type_index + 1) % (COMMIT_TYPE_COUNT as int))
        } else if c == 'k' {
            spec_select_type(
                v,
                if v.type_index == 0 {
                    COMMIT_TYPE_COUNT as int - 1
                } else {
                    v.type_index - 1
                },
            )
        } else {
            match spec_digit_index(c) {
                Some(idx) => if idx < COMMIT_TYPE_COUNT {
                    spec_with_field(
                        spec_select_type(v, idx),
                        forward_field(v.current_field, v.commit.breaking_change),
                    )
                } else {
                    v
                },
                None => v,
            }
        },
        _ => v,
    }
}

/// What a key does while the scope list has focus: as for the type list,
/// and backspace clears the scope (selection back to entry `0`, scope
/// unset).
pub open spec fn spec_step_scope(v: AppView, key: Key) -> AppView {
    match key.code {
        KeyCode::Down => spec_set_scope(v, (v.scope_index + 1) % (COMMIT_SCOPE_COUNT as int)),
        KeyCode::Up => spec_set_scope(
            v,
            if v.scope_index == 0 {
                COMMIT_SCOPE_COUNT as int - 1
            } else {
                v.scope_index - 1
            },
        ),
        KeyCode::Tab => spec_with_field(
            v,
            forward_field(v.current_field, v.commit.breaking_change),
        ),
        KeyCode::BackTab => spec_with_field(
            v,
            backward_field(v.current_field, v.commit.breaking_change),
        ),
        KeyCode::Esc => spec_with_field(v, InputField::Unfocused),
        KeyCode::Enter => spec_confirmed(v),
        KeyCode::Backspace => spec_set_scope(v, 0),
        KeyCode::Char(c) => if c == 'j' {
            spec_set_scope(v, (v.scope_index + 1) % (COMMIT_SCOPE_COUNT as int))
        } else if c == 'k' {
            spec_set_scope(
                v,
                if v.scope_index == 0 {
                    COMMIT_SCOPE_COUNT as int - 1
                } else {
                    v.scope_index - 1
                },
            )
        } else {
            match spec_digit_index(c) {
                Some(idx) => if idx < COMMIT_SCOPE_COUNT {
                    spec_with_field(
                        spec_set_scope(v, idx),
                        forward_field(v.current_field, v.commit.breaking_change),
                    )
                } else {
                    v
                },
                None => v,
            }
        },
        _ => v,
    }
}

/// What a key does while the description has focus: unmodified characters
/// are text, backspace deletes, navigation keys move focus, enter confirms.
/// A control-chorded character is not text.
pub open spec fn spec_step_description(v: AppView, key: Key) -> AppView {
    match key.code {
        KeyCode::Char(c) => if !key.ctrl {
            AppView {
                commit: CommitView { description: v.commit.description.push(c), ..v.commit },
                ..v
            }
        } else {
            v
        },
        KeyCode::Backspace => AppView {
            commit: CommitView {
                description: spec_pop_text(v.commit.description),
                ..v.commit
            },
            ..v
        },
        KeyCode::Tab => spec_with_field(
            v,
            forward_field(v.current_field, v.commit.breaking_change),
        ),
        KeyCode::BackTab => spec_with_field(
            v,
            backward_field(v.current_field, v.commit.breaking_change),
        ),
        KeyCode::Esc => spec_with_field(v, InputField::Unfocused),
        KeyCode::Enter => spec_confirmed(v),
        _ => v,
    }
}

/// What a key does while the body has focus: as for the description, but
/// enter appends a line break instead of confirming.
pub open spec fn spec_step_body(v: AppView, key: Key) -> AppView {
    match key.code {
        KeyCode::Char(c) => if !key.ctrl {
            AppView {
                commit: CommitView { body: spec_push_body(v.commit.body, c), ..v.commit },
                ..v
            }
        } else {
            v
        },
        KeyCode::Backspace => AppView {
            commit: CommitView { body: spec_pop_body(v.commit.body), ..v.commit },
            ..v
        },
        KeyCode::Enter => AppView {
            commit: CommitView { body: spec_push_body(v.commit.body, '\n'), ..v.commit },
            ..v
        },
        KeyCode::Tab => spec_with_field(
            v,
            forward_field(v.current_field, v.commit.breaking_change),
        ),
        KeyCode::BackTab => spec_with_field(
            v,
            backward_field(v.current_field, v.commit.breaking_change),
        ),
        KeyCode::Esc => spec_with_field(v, InputField::Unfocused),
        _ => v,
    }
}

/// What a key does while the breaking toggle has focus: space flips the
/// flag (the breaking description is kept either way), navigation keys move
/// focus, enter confirms.
pub open spec fn spec_step_toggle(v: AppView, key: Key) -> AppView {
    match key.code {
        KeyCode::Char(c) => if c == ' ' {
            AppView {
                commit: CommitView {
                    breaking_change: !v.commit.breaking_change,
                    ..v.commit
                },
                ..v
            }
        } else {
            v
        },
        KeyCode::Tab => spec_with_field(
            v,
            forward_field(v.current_field, v.commit.breaking_change),
        ),
        KeyCode::BackTab => spec_with_field(
            v,
            backward_field(v.current_field, v.commit.breaking_change),
        ),
        KeyCode::Esc => spec_with_field(v, InputField::Unfocused),
        KeyCode::Enter => spec_confirmed(v),
        _ => v,
    }
}

/// What a key does while the breaking description has focus: as for the
/// description, except that defocusing returns to the breaking toggle —
/// editing this text is a sub-step of the toggle, not a top-level field.
pub open spec fn spec_step_breaking_description(v: AppView, key: Key) -> AppView {
    match key.code {
        KeyCode::Char(c) => if !key.ctrl {
            AppView {
                commit: CommitView {
                    breaking_change_description: v.commit.breaking_change_description.push(c),
                    ..v.commit
                },
                ..v
            }
        } else {
            v
        },
        KeyCode::Backspace => AppView {
            commit: CommitView {
                breaking_change_description: spec_pop_text(
                    v.commit.breaking_change_description,
                ),
                ..v.commit
            },
            ..v
        },
        KeyCode::Tab => spec_with_field(
            v,
            forward_field(v.current_field, v.commit.breaking_change),
        ),
        KeyCode::BackTab => spec_with_field(
            v,
            backward_field(v.current_field, v.commit.breaking_change),
        ),
        KeyCode::Esc => spec_with_field(v, InputField::BreakingToggle),
        KeyCode::Enter => spec_confirmed(v),
        _ => v,
    }
}

/// What a key does while no field has focus: tab enters the cycle at its
/// first field, back-tab at its last (which depends on the breaking flag),
/// escape ends the session, enter confirms.
pub open spec fn spec_step_unfocused(v: AppView, key: Key) -> AppView {
    match key.code {
        KeyCode::Tab => spec_with_field(v, InputField::Type),
        KeyCode::BackTab => spec_with_field(
            v,
            if v.commit.breaking_change {
                InputField::BreakingDescription
            } else {
                InputField::BreakingToggle
            },
        ),
        KeyCode::Esc => AppView { should_quit: true, ..v },
        KeyCode::Enter => spec_confirmed(v),
        _ => v,
    }
}

/// The whole transition function: the global shortcuts (control-c ends the
/// session, control-enter confirms it), then the rules of whatever field
/// has focus.
pub open spec fn spec_step(v: AppView, key: Key) -> AppView {
    if key.ctrl && key.code == KeyCode::Char('c') {
        AppView { should_quit: true, ..v }
    } else if key.ctrl && key.code == KeyCode::Enter {
        spec_confirmed(v)
    } else {
        match v.current_field {
            InputField::Type => spec_step_type(v, key),
            InputField::Scope => spec_step_scope(v, key),
            InputField::Description => spec_step_description(v, key),
            InputField::Body => spec_step_body(v, key),
            InputField::BreakingToggle => spec_step_toggle(v, key),
            InputField::BreakingDescription => spec_step_breaking_description(v, key),
            InputField::Unfocused => spec_step_unfocused(v, key),
        }
    }
}

/// Six forward moves from `Type` lead back to `Type`, and no fewer do, as
/// long as the breaking flag is set when the move out of `BreakingToggle`
/// happens: the stop at `BreakingDescription` is inserted into the cycle,
/// not appended after it. The flag during every other move is irrelevant.
pub proof fn lemma_forward_cycle_six(b0: bool, b1: bool, b2: bool, b3: bool, b5: bool)
    ensures
        ({
            let f1 = forward_field(InputField::Type, b0);
            let f2 = forward_field(f1, b1);
            let f3 = forward_field(f2, b2);
            let f4 = forward_field(f3, b3);
            let f5 = forward_field(f4, true);
            let f6 = forward_field(f5, b5);
            &&& f6 == InputField::Type
            &&& f1 != InputField::Type
            &&& f2 != InputField::Type
            &&& f3 != InputField::Type
            &&& f4 != InputField::Type
            &&& f5 == InputField::BreakingDescription
        }),
{
}

/// With the breaking flag unset when the move out of `BreakingToggle`
/// happens, the stop at `BreakingDescription` is skipped and the cycle
/// closes after five moves instead.
pub proof fn lemma_forward_cycle_five(b0: bool, b1: bool, b2: bool, b3: bool)
    ensures
        ({
            let f1 = forward_field(InputField::Type, b0);
            let f2 = forward_field(f1, b1);
            let f3 = forward_field(f2, b2);
            let f4 = forward_field(f3, b3);
            let f5 = forward_field(f4, false);
            &&& f5 == InputField::Type
            &&& f1 != InputField::Type
            &&& f2 != InputField::Type
            &&& f3 != InputField::Type
            &&& f4 != InputField::Type
        }),
{
}

/// Cycle symmetry: a forward move followed by a backward one (and the other
/// way round) returns to the starting field, as long as the breaking flag
/// does not change in between. `BreakingDescription` is a field of the
/// cycle only while the flag is set.
pub proof fn lemma_cycle_symmetry(f: InputField, breaking: bool)
    requires
        f != InputField::Unfocused,
        f is BreakingDescription ==> breaking,
    ensures
        backward_field(forward_field(f, breaking), breaking) == f,
        forward_field(backward_field(f, breaking), breaking) == f,
{
}

/// Selecting a type by digit `c` (`1` through `9`) stores the entry the
/// digit names in the model, moves the selection there, and advances focus
/// exactly one step forward (from `Type` always to `Scope`); nothing else
/// of the session changes.
pub proof fn lemma_numeric_type_selection(v: AppView, c: char)
    requires
        v.wf(),
        v.current_field == InputField::Type,
        spec_digit_index(c) is Some,
    ensures
        ({
            let idx = spec_digit_index(c)->0;
            let v2 = spec_step(v, Key { code: KeyCode::Char(c), ctrl: false });
            &&& v2.commit.commit_type == spec_type_label(idx)
            &&& v2.type_index == idx
            &&& v2.current_field == forward_field(
                v.current_field,
                v.commit.breaking_change,
            )
            &&& v2.current_field == InputField::Scope
            &&& v2.commit.scope == v.commit.scope
            &&& v2.commit.description == v.commit.description
            &&& v2.commit.body == v.commit.body
            &&& v2.commit.breaking_change == v.commit.breaking_change
            &&& v2.commit.breaking_change_description == v.commit.breaking_change_description
            &&& v2.should_quit == v.should_quit
            &&& v2.should_confirm == v.should_confirm
        }),
{
}

/// Selecting scope entry `0` leaves the model without a scope, so its
/// header carries no parenthesized segment; selecting any other entry
/// stores that entry's label, and the header carries exactly `(label)`.
pub proof fn lemma_scope_selection_header(v: AppView, idx: int)
    requires
        0 <= idx < COMMIT_SCOPE_COUNT,
    ensures
        idx == 0 ==> crate::commit::spec_header(spec_set_scope(v, idx).commit)
            == v.commit.commit_type + crate::commit::bang_part(v.commit.breaking_change)
            + crate::commit::colon_space() + v.commit.description,
        idx > 0 ==> crate::commit::spec_header(spec_set_scope(v, idx).commit)
            == v.commit.commit_type + (seq!['('] + spec_scope_label(idx) + seq![')'])
            + crate::commit::bang_part(v.commit.breaking_change)
            + crate::commit::colon_space() + v.commit.description,
{
    crate::commit::lemma_header_scope(spec_set_scope(v, idx).commit);
}

/// Any well-formed session whose description is non-empty and free of line
/// breaks formats to a message the validator accepts, whatever its scope
/// selection, body, breaking flag and breaking description hold.
pub proof fn lemma_session_round_trip(v: AppView)
    requires
        v.wf(),
        v.commit.description.len() >= 1,
        crate::commit::no_line_breaks(v.commit.description),
    ensures
        crate::commit::is_conventional_header(
            crate::commit::spec_first_line(crate::commit::spec_generate(v.commit)),
        ),
{
    crate::config::lemma_type_label_valid(v.type_index);
    if v.scope_index > 0 {
        crate::config::lemma_scope_label_valid(v.scope_index);
    }
    crate::commit::lemma_generate_validates(v.commit);
}

impl Default for App {
    fn default() -> (r: Self)
        ensures
            r@ == spec_initial_app(),
            r@.wf(),
    {
        App {
            commit: ConventionalCommit::default(),
            current_field: InputField::Type,
            config: AppConfig::default(),
            should_quit: false,
            type_index: 0,
            scope_index: 0,
            should_confirm: false,
            single_field_mode: false,
            show_help: true,
        }
    }
}

impl App {
    /// A fresh session.
    pub fn new() -> (r: Self)
        ensures
            r@ == spec_initial_app(),
            r@.wf(),
    {
        Self::default()
    }

    /// Ends the session with confirmation requested, whatever field has
    /// focus.
    pub fn confirm_commit(&mut self)
        ensures
            final(self)@ == spec_confirmed(old(self)@),
    {
        self.should_confirm = true;
        self.should_quit = true;
    }

    fn focus_field(&mut self, field: InputField)
        ensures
            final(self)@ == spec_with_field(old(self)@, field),
    {
        self.current_field = field;
    }

    fn next_field(&mut self)
        ensures
            final(self)@ == spec_with_field(
                old(self)@,
                forward_field(old(self)@.current_field, old(self)@.commit.breaking_change),
            ),
    {
        self.current_field = match self.current_field {
            InputField::Type => InputField::Scope,
            InputField::Scope => InputField::Description,
            InputField::Description => InputField::Body,
            InputField::Body => InputField::BreakingToggle,
            InputField::BreakingToggle => {
                if self.commit.breaking_change {
                    InputField::BreakingDescription
                } else {
                    InputField::Type
                }
            },
            InputField::BreakingDescription => InputField::Type,
            InputField::Unfocused => InputField::Type,
        };
    }

    fn previous_field(&mut self)
        ensures
            final(self)@ == spec_with_field(
                old(self)@,
                backward_field(old(self)@.current_field, old(self)@.commit.breaking_change),
            ),
    {
        self.current_field = match self.current_field {
            InputField::Type => {
                if self.commit.breaking_change {
                    InputField::BreakingDescription
                } else {
                    InputField::BreakingToggle
                }
            },
            InputField::Scope => InputField::Type,
            InputField::Description => InputField::Scope,
            InputField::Body => InputField::Description,
            InputField::BreakingToggle => InputField::Body,
            InputField::BreakingDescription => InputField::BreakingToggle,
            InputField::Unfocused => InputField::Type,
        };
    }

    fn select_type(&mut self, idx: usize)
        requires
            idx < COMMIT_TYPE_COUNT,
        ensures
            final(self)@ == spec_select_type(old(self)@, idx as int),
    {
        self.type_index = idx;
        self.commit.commit_type = String::from_str(commit_type_label(idx));
    }

    fn set_scope(&mut self, idx: usize)
        requires
            idx < COMMIT_SCOPE_COUNT,
        ensures
            final(self)@ == spec_set_scope(old(self)@, idx as int),
    {
        self.scope_index = idx;
        if idx == 0 {
            self.commit.scope = None;
        } else {
            self.commit.scope = Some(String::from_str(scope_label(idx)));
        }
    }

    /// Applies one input event to the session: exactly the transition
    /// function [`spec_step`].
    pub fn handle_key(&mut self, key: Key)
        requires
            old(self)@.wf(),
        ensures
            final(self)@ == spec_step(old(self)@, key),
            final(self)@.wf(),
    {
        // global shortcuts, available whatever has focus
        if key.ctrl && key.code == KeyCode::Char('c') {
            self.should_quit = true;
            return;
        }
        if key.ctrl && key.code == KeyCode::Enter {
            self.confirm_commit();
            return;
        }
        match self.current_field {
            InputField::Type => self.handle_type_selection(key),
            InputField::Scope => self.handle_scope_selection(key),
            InputField::Description => self.handle_description_input(key),
            InputField::Body => self.handle_body_input(key),
            InputField::BreakingToggle => self.handle_breaking_toggle(key),
            InputField::BreakingDescription => self.handle_breaking_description(key),
            InputField::Unfocused => self.handle_no_field(key),
        }
    }

    fn handle_no_field(&mut self, key: Key)
        ensures
            final(self)@ == spec_step_unfocused(old(self)@, key),
    {
        match key.code {
            KeyCode::Tab => self.focus_field(InputField::Type),
            KeyCode::BackTab => {
                if self.commit.breaking_change {
                    self.focus_field(InputField::BreakingDescription);
                } else {
                    self.focus_field(InputField::BreakingToggle);
                }
            },
            KeyCode::Esc => self.should_quit = true,
            KeyCode::Enter => self.confirm_commit(),
            _ => {},
        }
    }

    fn handle_type_selection(&mut self, key: Key)
        requires
            0 <= old(self)@.type_index < COMMIT_TYPE_COUNT,
        ensures
            final(self)@ == spec_step_type(old(self)@, key),
    {
        match key.code {
            KeyCode::Down => {
                let next = (self.type_index + 1) % COMMIT_TYPE_COUNT;
                self.select_type(next);
            },
            KeyCode::Up => {
                let prev = if self.type_index == 0 {
                    COMMIT_TYPE_COUNT - 1
                } else {
                    self.type_index - 1
                };
                self.select_type(prev);
            },
            KeyCode::Tab => self.next_field(),
            KeyCode::BackTab => self.previous_field(),
            KeyCode::Esc => self.focus_field(InputField::Unfocused),
            KeyCode::Enter => self.confirm_commit(),
            KeyCode::Char(c) => {
                if c == 'j' {
                    let next = (self.type_index + 1) % COMMIT_TYPE_COUNT;
                    self.select_type(next);
                } else if c == 'k' {
                    let prev = if self.type_index == 0 {
                        COMMIT_TYPE_COUNT - 1
                    } else {
                        self.type_index - 1
                    };
                    self.select_type(prev);
                } else {
                    match digit_index(c) {
                        Some(idx) => {
                            if idx < COMMIT_TYPE_COUNT {
                                self.select_type(idx);
                                self.next_field();
                            }
                        },
                        None => {},
                    }
                }
            },
            _ => {},
        }
    }

    fn handle_scope_selection(&mut self, key: Key)
        requires
            0 <= old(self)@.scope_index < COMMIT_SCOPE_COUNT,
        ensures
            final(self)@ == spec_step_scope(old(self)@, key),
    {
        match key.code {
            KeyCode::Down => {
                let next = (self.scope_index + 1) % COMMIT_SCOPE_COUNT;
                self.set_scope(next);
            },
            KeyCode::Up => {
                let prev = if self.scope_index == 0 {
                    COMMIT_SCOPE_COUNT - 1
                } else {
                    self.scope_index - 1
                };
                self.set_scope(prev);
            },
            KeyCode::Tab => self.next_field(),
            KeyCode::BackTab => self.previous_field(),
            KeyCode::Esc => self.focus_field(InputField::Unfocused),
            KeyCode::Enter => self.confirm_commit(),
            KeyCode::Backspace => self.set_scope(0),
            KeyCode::Char(c) => {
                if c == 'j' {
                    let next = (self.scope_index + 1) % COMMIT_SCOPE_COUNT;
                    self.set_scope(next);
                } else if c == 'k' {
                    let prev = if self.scope_index == 0 {
                        COMMIT_SCOPE_COUNT - 1
                    } else {
                        self.scope_index - 1
                    };
                    self.set_scope(prev);
                } else {
                    match digit_index(c) {
                        Some(idx) => {
                            if idx < COMMIT_SCOPE_COUNT {
                                self.set_scope(idx);
                                self.next_field();
                            }
                        },
                        None => {},
                    }
                }
            },
            _ => {},
        }
    }

    fn handle_description_input(&mut self, key: Key)
        ensures
            final(self)@ == spec_step_description(old(self)@, key),
    {
        match key.code {
            KeyCode::Char(c) => {
                if !key.ctrl {
                    push_char(&mut self.commit.description, c);
                }
            },
            KeyCode::Backspace => {
                pop_char(&mut self.commit.description);
            },
            KeyCode::Tab => self.next_field(),
            KeyCode::BackTab => self.previous_field(),
            KeyCode::Esc => self.focus_field(InputField::Unfocused),
            KeyCode::Enter => self.confirm_commit(),
            _ => {},
        }
    }

    fn push_body_char(&mut self, c: char)
        ensures
            final(self)@ == (AppView {
                commit: CommitView {
                    body: spec_push_body(old(self)@.commit.body, c),
                    ..old(self)@.commit
                },
                ..old(self)@
            }),
    {
        match &mut self.commit.body {
            Some(b) => push_char(b, c),
            None => {
                let mut s = String::new();
                push_char(&mut s, c);
                proof {
                    assert(s@ =~= seq![c]);
                }
                self.commit.body = Some(s);
            },
        }
    }

    fn handle_body_input(&mut self, key: Key)
        ensures
            final(self)@ == spec_step_body(old(self)@, key),
    {
        match key.code {
            KeyCode::Char(c) => {
                if !key.ctrl {
                    self.push_body_char(c);
                }
            },
            KeyCode::Backspace => {
                match &mut self.commit.body {
                    Some(b) => {
                        pop_char(b);
                    },
                    None => {},
                }
            },
            KeyCode::Enter => self.push_body_char('\n'),
            KeyCode::Tab => self.next_field(),
            KeyCode::BackTab => self.previous_field(),
            KeyCode::Esc => self.focus_field(InputField::Unfocused),
            _ => {},
        }
    }

    fn handle_breaking_toggle(&mut self, key: Key)
        ensures
            final(self)@ == spec_step_toggle(old(self)@, key),
    {
        match key.code {
            KeyCode::Char(c) => {
                if c == ' ' {
                    self.commit.breaking_change = !self.commit.breaking_change;
                }
            },
            KeyCode::Tab => self.next_field(),
            KeyCode::BackTab => self.previous_field(),
            KeyCode::Esc => self.focus_field(InputField::Unfocused),
            KeyCode::Enter => self.confirm_commit(),
            _ => {},
        }
    }

    fn handle_breaking_description(&mut self, key: Key)
        ensures
            final(self)@ == spec_step_breaking_description(old(self)@, key),
    {
        match key.code {
            KeyCode::Char(c) => {
                if !key.ctrl {
                    push_char(&mut self.commit.breaking_change_description, c);
                }
            },
            KeyCode::Backspace => {
                pop_char(&mut self.commit.breaking_change_description);
            },
            KeyCode::Tab => self.next_field(),
            KeyCode::BackTab => self.previous_field(),
            KeyCode::Esc => self.focus_field(InputField::BreakingToggle),
            KeyCode::Enter => self.confirm_commit(),
            _ => {},
        }
    }
}

} // verus!
