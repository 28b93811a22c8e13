//! What each key press does to the renamer's state.
//!
//! The terminal loop lives outside the library; it turns key events into
//! [`Key`]s, calls [`handle_key`], and carries out the returned [`Action`]
//! when it needs the file system.

use vstd::prelude::*;
use crate::text::{push_chars, string_from};
use crate::number::{decimal, decimal_chars, parse_u32, parse_usize, parsed_u32, parsed_usize};
use crate::rules::{RenameRule, CaseTransform, stem_result, regex_compiles, regex_replace_all};
use crate::text::replace_all;
use crate::number::pad_zeros;
use crate::app::{App, Panel, RuleInputMode, RuleInputStep, swap_with_next};

verus! {

/// A key press, as far as the renamer tells keys apart.
#[derive(Debug, Clone, Copy, PartialEq, Eq)]
pub enum Key {
    Char(char),
    Enter,
    Esc,
    Backspace,
    Tab,
    Up,
    Down,
    Other,
}

/// Work on the file system that a key press asks for.
#[derive(Debug, Clone, Copy, PartialEq, Eq, Structural)]
pub enum Action {
    /// Nothing beyond the state change.
    Nothing,
    /// Rename the listed files on disk, then re-read the directory and call
    /// [`App::finish_rename`].
    RenameOnDisk,
    /// Re-read the directory and call [`App::finish_refresh`].
    RefreshListing,
}

/// `key` is the character `c`.
pub open spec fn is_char(key: Key, c: char) -> bool {
    key matches Key::Char(k) && k == c
}

/// Only the rule-entry fields may differ between `a` and `b`.
pub open spec fn only_input_changed(a: App, b: App) -> bool {
    &&& b.same_files(a)
    &&& b.same_rules(a)
    &&& b.same_screen(a)
}

/// `b` is `a` with one more rule at the end, the cursor past it and the
/// status "Rule added.", and nothing else about files or screen changed.
pub open spec fn rule_added(a: App, b: App) -> bool {
    &&& b.rules@.len() == a.rules@.len() + 1
    &&& b.rules@.drop_last() == a.rules@
    &&& b.rule_cursor == b.rules@.len()
    &&& b.status_msg@ == "Rule added."@
    &&& b.same_files(a)
    &&& b.running == a.running
    &&& b.active_panel == a.active_panel
    &&& b.error_msg == a.error_msg
}

/// The rule most recently added.
pub open spec fn last_rule(a: App) -> RenameRule {
    a.rules@.last()
}

/// The answer to "Use regex? (y/n)" is yes.
pub open spec fn says_yes(s: Seq<char>) -> bool {
    s.len() > 0 && (s[0] == 'y' || s[0] == 'Y')
}

/// `b` moved on to `step` of the same kind of rule with an empty buffer;
/// files, rules and screen are unchanged.
pub open spec fn moved_to_step(a: App, b: App, step: RuleInputStep) -> bool {
    &&& only_input_changed(a, b)
    &&& b.rule_input_mode == a.rule_input_mode
    &&& b.rule_input_step == step
    &&& b.rule_input_buffer@.len() == 0
}

/// What pressing Enter during rule entry does.
pub open spec fn submit_post(a: App, b: App) -> bool {
    let buf = a.rule_input_buffer@;
    match (a.rule_input_mode, a.rule_input_step) {
        (RuleInputMode::FindReplace, RuleInputStep::InputText) => {
            &&& moved_to_step(a, b, RuleInputStep::InputReplace)
            &&& b.find_replace_find matches Some(f) && f@ == buf
            &&& b.find_replace_replace == a.find_replace_replace
            &&& b.numbering_start == a.numbering_start
            &&& b.numbering_width == a.numbering_width
        },
        (RuleInputMode::FindReplace, RuleInputStep::InputReplace) => {
            &&& moved_to_step(a, b, RuleInputStep::ConfirmRegex)
            &&& b.find_replace_find == a.find_replace_find
            &&& b.find_replace_replace matches Some(r) && r@ == buf
            &&& b.numbering_start == a.numbering_start
            &&& b.numbering_width == a.numbering_width
        },
        (RuleInputMode::FindReplace, RuleInputStep::ConfirmRegex) => match (
            a.find_replace_find,
            a.find_replace_replace,
        ) {
            (Some(f), Some(r)) => {
                &&& rule_added(a, b)
                &&& b.input_cleared()
                &&& if says_yes(buf) {
                    last_rule(b) matches RenameRule::FindReplaceRegex { pattern, replacement }
                        && pattern@ == f@ && replacement@ == r@
                } else {
                    last_rule(b) matches RenameRule::FindReplace { find, replace } && find@
                        == f@ && replace@ == r@
                }
            },
            _ => b == a,
        },
        (RuleInputMode::Prefix, RuleInputStep::InputText) => {
            &&& rule_added(a, b)
            &&& b.input_cleared()
            &&& last_rule(b) matches RenameRule::AddPrefix(s) && s@ == buf
        },
        (RuleInputMode::Suffix, RuleInputStep::InputText) => {
            &&& rule_added(a, b)
            &&& b.input_cleared()
            &&& last_rule(b) matches RenameRule::AddSuffix(s) && s@ == buf
        },
        (RuleInputMode::RemovePattern, RuleInputStep::InputText) => {
            &&& rule_added(a, b)
            &&& b.input_cleared()
            &&& last_rule(b) matches RenameRule::RemovePattern(s) && s@ == buf
        },
        (RuleInputMode::Numbering, RuleInputStep::InputNumber) => {
            &&& moved_to_step(a, b, RuleInputStep::InputWidth)
            &&& b.numbering_start == parsed_u32(buf)
            &&& b.find_replace_find == a.find_replace_find
            &&& b.find_replace_replace == a.find_replace_replace
            &&& b.numbering_width == a.numbering_width
        },
        (RuleInputMode::Numbering, RuleInputStep::InputWidth) => {
            &&& moved_to_step(a, b, RuleInputStep::InputPlaceholder)
            &&& b.numbering_width == parsed_usize(buf)
            &&& b.find_replace_find == a.find_replace_find
            &&& b.find_replace_replace == a.find_replace_replace
            &&& b.numbering_start == a.numbering_start
        },
        (RuleInputMode::Numbering, RuleInputStep::InputPlaceholder) => match (
            a.numbering_start,
            a.numbering_width,
        ) {
            (Some(start), Some(width)) => {
                &&& rule_added(a, b)
                &&& b.input_cleared()
                &&& last_rule(b) matches RenameRule::Numbering { start: s, width: w, placeholder }
                    && s == start && w == width && placeholder@ == buf
            },
            _ => b == a,
        },
        _ => {
            &&& only_input_changed(a, b)
            &&& b.input_cleared()
        },
    }
}

/// The case transform chosen by the digits `1` to `4`.
pub open spec fn case_choice(c: char) -> Option<CaseTransform> {
    if c == '1' {
        Some(CaseTransform::Upper)
    } else if c == '2' {
        Some(CaseTransform::Lower)
    } else if c == '3' {
        Some(CaseTransform::Title)
    } else if c == '4' {
        Some(CaseTransform::Toggle)
    } else {
        None
    }
}

/// What a key does while a rule is being entered.
pub open spec fn rule_input_key_post(a: App, b: App, key: Key) -> bool {
    match key {
        Key::Esc => only_input_changed(a, b) && b.input_cleared(),
        Key::Enter => submit_post(a, b),
        Key::Backspace => {
            &&& only_input_changed(a, b)
            &&& b.rule_input_mode == a.rule_input_mode
            &&& b.rule_input_step == a.rule_input_step
            &&& b.find_replace_find == a.find_replace_find
            &&& b.find_replace_replace == a.find_replace_replace
            &&& b.numbering_start == a.numbering_start
            &&& b.numbering_width == a.numbering_width
            &&& b.rule_input_buffer@ == if a.rule_input_buffer@.len() == 0 {
                a.rule_input_buffer@
            } else {
                a.rule_input_buffer@.drop_last()
            }
        },
        Key::Char(c) => if a.rule_input_step == RuleInputStep::SelectCase {
            match case_choice(c) {
                Some(t) => {
                    &&& rule_added(a, b)
                    &&& b.input_cleared()
                    &&& last_rule(b) == RenameRule::ChangeCase(t)
                },
                None => b == a,
            }
        } else {
            &&& only_input_changed(a, b)
            &&& b.rule_input_mode == a.rule_input_mode
            &&& b.rule_input_step == a.rule_input_step
            &&& b.find_replace_find == a.find_replace_find
            &&& b.find_replace_replace == a.find_replace_replace
            &&& b.numbering_start == a.numbering_start
            &&& b.numbering_width == a.numbering_width
            &&& b.rule_input_buffer@ == a.rule_input_buffer@.push(c)
        },
        _ => b == a,
    }
}

/// `b` starts entering a rule of kind `mode` at `step`, all else unchanged.
pub open spec fn starts_input(a: App, b: App, mode: RuleInputMode, step: RuleInputStep) -> bool {
    &&& only_input_changed(a, b)
    &&& b.rule_input_mode == mode
    &&& b.rule_input_step == step
    &&& b.rule_input_buffer == a.rule_input_buffer
    &&& b.find_replace_find == a.find_replace_find
    &&& b.find_replace_replace == a.find_replace_replace
    &&& b.numbering_start == a.numbering_start
    &&& b.numbering_width == a.numbering_width
}

/// `b` is `a` with the rule cursor at `cursor`.
pub open spec fn rule_cursor_moved(a: App, b: App, cursor: usize) -> bool {
    &&& b.rules == a.rules
    &&& b.rule_cursor == cursor
    &&& b.same_files(a)
    &&& b.same_input(a)
    &&& b.same_screen(a)
}

/// Keys of the rules panel that would index past the rule list: moving a
/// rule down in an empty list, or moving up from the position just past the
/// last rule.
pub open spec fn rules_key_refused(a: App, key: Key) -> bool {
    ||| is_char(key, 'J') && a.rules@.len() == 0
    ||| is_char(key, 'K') && a.rule_cursor > 0 && a.rule_cursor >= a.rules@.len()
}

/// What a key does in the rules panel when no rule is being entered.
pub open spec fn rules_key_post(a: App, b: App, key: Key) -> bool {
    if is_char(key, 'j') || key == Key::Down {
        if a.rules@.len() > 0 && a.rule_cursor < a.rules@.len() - 1 {
            rule_cursor_moved(a, b, (a.rule_cursor + 1) as usize)
        } else {
            b == a
        }
    } else if is_char(key, 'k') || key == Key::Up {
        if a.rule_cursor > 0 {
            rule_cursor_moved(a, b, (a.rule_cursor - 1) as usize)
        } else {
            b == a
        }
    } else if is_char(key, 'd') {
        &&& b.same_files(a)
        &&& b.same_input(a)
        &&& b.rule_cursor == a.rule_cursor
        &&& b.running == a.running
        &&& b.active_panel == a.active_panel
        &&& b.error_msg == a.error_msg
        &&& if a.rule_cursor < a.rules@.len() {
            b.rules@ == a.rules@.remove(a.rule_cursor as int) && b.status_msg@ == "Rule removed."@
        } else {
            b.rules == a.rules && b.status_msg == a.status_msg
        }
    } else if is_char(key, 'J') {
        &&& b.same_files(a)
        &&& b.same_input(a)
        &&& b.same_screen(a)
        &&& if a.rule_cursor < a.rules@.len() - 1 {
            b.rules@ == swap_with_next(a.rules@, a.rule_cursor as int) && b.rule_cursor
                == a.rule_cursor + 1
        } else {
            b.same_rules(a)
        }
    } else if is_char(key, 'K') {
        &&& b.same_files(a)
        &&& b.same_input(a)
        &&& b.same_screen(a)
        &&& if a.rule_cursor > 0 {
            b.rules@ == swap_with_next(a.rules@, a.rule_cursor - 1) && b.rule_cursor
                == a.rule_cursor - 1
        } else {
            b.same_rules(a)
        }
    } else if is_char(key, 'f') {
        starts_input(a, b, RuleInputMode::FindReplace, RuleInputStep::InputText)
    } else if is_char(key, 'p') {
        starts_input(a, b, RuleInputMode::Prefix, RuleInputStep::InputText)
    } else if is_char(key, 's') {
        starts_input(a, b, RuleInputMode::Suffix, RuleInputStep::InputText)
    } else if is_char(key, 'c') {
        starts_input(a, b, RuleInputMode::Case, RuleInputStep::SelectCase)
    } else if is_char(key, 'r') {
        starts_input(a, b, RuleInputMode::RemovePattern, RuleInputStep::InputText)
    } else if is_char(key, 'n') {
        starts_input(a, b, RuleInputMode::Numbering, RuleInputStep::InputNumber)
    } else {
        b == a
    }
}

/// `b` is `a` with the file cursor at `cursor`.
pub open spec fn file_cursor_moved(a: App, b: App, cursor: usize) -> bool {
    &&& b.current_dir == a.current_dir
    &&& b.files == a.files
    &&& b.file_cursor == cursor
    &&& b.same_rules(a)
    &&& b.same_input(a)
    &&& b.same_screen(a)
}

/// The status after a dry run over `n` files.
pub open spec fn dry_run_message(n: nat) -> Seq<char> {
    "Dry-run: "@ + decimal(n) + " files would be renamed."@
}

/// The status after renaming `n` files.
pub open spec fn renamed_message(n: nat) -> Seq<char> {
    "Renamed "@ + decimal(n) + " files."@
}

/// What a key does in the files panel, and the file-system work it asks for.
pub open spec fn files_key_post(a: App, b: App, key: Key, action: Action) -> bool {
    if is_char(key, 'j') || key == Key::Down {
        &&& action == Action::Nothing
        &&& if a.files@.len() > 0 && a.file_cursor < a.files@.len() - 1 {
            file_cursor_moved(a, b, (a.file_cursor + 1) as usize)
        } else {
            b == a
        }
    } else if is_char(key, 'k') || key == Key::Up {
        &&& action == Action::Nothing
        &&& if a.file_cursor > 0 {
            file_cursor_moved(a, b, (a.file_cursor - 1) as usize)
        } else {
            b == a
        }
    } else if is_char(key, 'G') {
        &&& action == Action::Nothing
        &&& if a.files@.len() > 0 {
            file_cursor_moved(a, b, (a.files@.len() - 1) as usize)
        } else {
            b == a
        }
    } else if is_char(key, 'r') {
        &&& action == Action::Nothing
        &&& b.same_files(a)
        &&& b.same_rules(a)
        &&& b.same_input(a)
        &&& b.running == a.running
        &&& b.active_panel == a.active_panel
        &&& b.error_msg == a.error_msg
        &&& b.status_msg@ == dry_run_message(a.files@.len())
    } else if is_char(key, 'R') {
        action == Action::RenameOnDisk && b == a
    } else if is_char(key, '/') {
        action == Action::RefreshListing && b == a
    } else {
        action == Action::Nothing && b == a
    }
}

/// Keys that would index past a list (see [`rules_key_refused`]), and a dry
/// run whose file numbers would leave `u32` (see [`App::rename_allowed`]).
pub open spec fn key_refused(a: App, key: Key) -> bool {
    &&& a.rule_input_mode == RuleInputMode::Idle
    &&& !(is_char(key, 'q') || is_char(key, 'h') || is_char(key, 'l') || key == Key::Tab)
    &&& if a.active_panel == Panel::Rules {
        rules_key_refused(a, key)
    } else {
        is_char(key, 'r') && !a.rename_allowed()
    }
}

/// What any key does.
pub open spec fn key_post(a: App, b: App, key: Key, action: Action) -> bool {
    if a.rule_input_mode != RuleInputMode::Idle {
        action == Action::Nothing && rule_input_key_post(a, b, key)
    } else if is_char(key, 'q') {
        &&& action == Action::Nothing
        &&& !b.running
        &&& b.same_files(a)
        &&& b.same_rules(a)
        &&& b.same_input(a)
        &&& b.active_panel == a.active_panel
        &&& b.status_msg == a.status_msg
        &&& b.error_msg == a.error_msg
    } else if is_char(key, 'h') || is_char(key, 'l') || key == Key::Tab {
        &&& action == Action::Nothing
        &&& b.active_panel == if a.active_panel == Panel::Rules {
            Panel::Files
        } else {
            Panel::Rules
        }
        &&& b.input_cleared()
        &&& b.same_files(a)
        &&& b.same_rules(a)
        &&& b.running == a.running
        &&& b.status_msg == a.status_msg
        &&& b.error_msg == a.error_msg
    } else if a.active_panel == Panel::Rules {
        action == Action::Nothing && rules_key_post(a, b, key)
    } else {
        files_key_post(a, b, key, action)
    }
}

/// Whether pressing `key` would index past a list (see [`key_refused`]).
pub fn refuses_key(app: &App, key: Key) -> (r: bool)
    ensures
        r == key_refused(*app, key),
{
    if app.rule_input_mode != RuleInputMode::Idle {
        return false;
    }
    match key {
        Key::Char('q') | Key::Char('h') | Key::Char('l') | Key::Tab => false,
        Key::Char('r') => app.active_panel == Panel::Files && !app.can_rename(),
        Key::Char('J') => app.active_panel == Panel::Rules && app.rules.len() == 0,
        Key::Char('K') => app.active_panel == Panel::Rules && app.rule_cursor > 0
            && app.rule_cursor >= app.rules.len(),
        _ => false,
    }
}

/// Handles a key press: the state change, and the file-system work to do.
pub fn handle_key(app: &mut App, key: Key) -> (action: Action)
    requires
        !key_refused(*old(app), key),
    ensures
        key_post(*old(app), *final(app), key, action),
{
    if app.rule_input_mode != RuleInputMode::Idle {
        handle_rule_input_key(app, key);
        return Action::Nothing;
    }
    match key {
        Key::Char('q') => {
            app.running = false;
            Action::Nothing
        },
        Key::Char('h') | Key::Char('l') | Key::Tab => {
            app.active_panel = if app.active_panel == Panel::Rules {
                Panel::Files
            } else {
                Panel::Rules
            };
            app.clear_input();
            Action::Nothing
        },
        _ => {
            if app.active_panel == Panel::Rules {
                handle_rules_key(app, key);
                Action::Nothing
            } else {
                handle_files_key(app, key)
            }
        },
    }
}

/// Handles a key in the rules panel (or passes it to rule entry when a
/// rule is being entered).
pub fn handle_rules_key(app: &mut App, key: Key)
    requires
        old(app).rule_input_mode == RuleInputMode::Idle ==> !rules_key_refused(*old(app), key),
    ensures
        old(app).rule_input_mode != RuleInputMode::Idle ==> rule_input_key_post(
            *old(app),
            *final(app),
            key,
        ),
        old(app).rule_input_mode == RuleInputMode::Idle ==> rules_key_post(
            *old(app),
            *final(app),
            key,
        ),
{
    if app.rule_input_mode != RuleInputMode::Idle {
        handle_rule_input_key(app, key);
        return;
    }
    match key {
        Key::Char('j') | Key::Down => {
            if app.rule_cursor < app.rules.len().saturating_sub(1) {
                app.rule_cursor = app.rule_cursor + 1;
            }
        },
        Key::Char('k') | Key::Up => {
            if app.rule_cursor > 0 {
                app.rule_cursor = app.rule_cursor - 1;
            }
        },
        Key::Char('d') => {
            app.remove_rule();
        },
        Key::Char('J') => {
            app.move_rule_down();
        },
        Key::Char('K') => {
            app.move_rule_up();
        },
        Key::Char('f') => {
            app.rule_input_mode = RuleInputMode::FindReplace;
            app.rule_input_step = RuleInputStep::InputText;
        },
        Key::Char('p') => {
            app.rule_input_mode = RuleInputMode::Prefix;
            app.rule_input_step = RuleInputStep::InputText;
        },
        Key::Char('s') => {
            app.rule_input_mode = RuleInputMode::Suffix;
            app.rule_input_step = RuleInputStep::InputText;
        },
        Key::Char('c') => {
            app.rule_input_mode = RuleInputMode::Case;
            app.rule_input_step = RuleInputStep::SelectCase;
        },
        Key::Char('r') => {
            app.rule_input_mode = RuleInputMode::RemovePattern;
            app.rule_input_step = RuleInputStep::InputText;
        },
        Key::Char('n') => {
            app.rule_input_mode = RuleInputMode::Numbering;
            app.rule_input_step = RuleInputStep::InputNumber;
        },
        _ => {},
    }
}

/// A status message made of `before`, the decimal numeral of `n` and `after`.
fn count_message(before: &str, n: usize, after: &str) -> (r: String)
    ensures
        r@ == before@ + decimal(n as nat) + after@,
{
    let mut r = string_from(before);
    push_chars(&mut r, &decimal_chars(n as u64));
    crate::text::push_str_chars(&mut r, after);
    r
}

/// Handles a key in the files panel; renaming on disk and re-reading the
/// directory are returned as work to do.
pub fn handle_files_key(app: &mut App, key: Key) -> (action: Action)
    requires
        is_char(key, 'r') ==> old(app).rename_allowed(),
    ensures
        files_key_post(*old(app), *final(app), key, action),
{
    match key {
        Key::Char('j') | Key::Down => {
            if !app.files.is_empty() && app.file_cursor < app.files.len().saturating_sub(1) {
                app.file_cursor = app.file_cursor + 1;
            }
            Action::Nothing
        },
        Key::Char('k') | Key::Up => {
            if app.file_cursor > 0 {
                app.file_cursor = app.file_cursor - 1;
            }
            Action::Nothing
        },
        Key::Char('g') => Action::Nothing,
        Key::Char('G') => {
            if !app.files.is_empty() {
                app.file_cursor = app.files.len() - 1;
            }
            Action::Nothing
        },
        Key::Char('r') => {
            let results = app.rename_files(true);
            app.status_msg = count_message("Dry-run: ", results.len(), " files would be renamed.");
            Action::Nothing
        },
        Key::Char('R') => Action::RenameOnDisk,
        Key::Char('/') => Action::RefreshListing,
        _ => Action::Nothing,
    }
}

/// Handles a key while a rule is being entered.
pub fn handle_rule_input_key(app: &mut App, key: Key)
    ensures
        rule_input_key_post(*old(app), *final(app), key),
{
    match key {
        Key::Esc => {
            app.clear_input();
        },
        Key::Enter => {
            submit_rule_input(app);
        },
        Key::Backspace => {
            let _ = app.rule_input_buffer.pop();
        },
        Key::Char(c) => {
            if app.rule_input_step == RuleInputStep::SelectCase {
                if c == '1' {
                    app.add_rule(RenameRule::ChangeCase(CaseTransform::Upper));
                    app.clear_input();
                } else if c == '2' {
                    app.add_rule(RenameRule::ChangeCase(CaseTransform::Lower));
                    app.clear_input();
                } else if c == '3' {
                    app.add_rule(RenameRule::ChangeCase(CaseTransform::Title));
                    app.clear_input();
                } else if c == '4' {
                    app.add_rule(RenameRule::ChangeCase(CaseTransform::Toggle));
                    app.clear_input();
                }
            } else {
                app.rule_input_buffer.push(c);
            }
        },
        _ => {},
    }
}

/// Handles Enter during rule entry: stores the typed value and moves to the
/// next question, or adds the finished rule.
pub fn submit_rule_input(app: &mut App)
    ensures
        submit_post(*old(app), *final(app)),
{
    let buf = app.rule_input_buffer.clone();
    match (app.rule_input_mode, app.rule_input_step) {
        (RuleInputMode::FindReplace, RuleInputStep::InputText) => {
            app.find_replace_find = Some(buf);
            app.rule_input_step = RuleInputStep::InputReplace;
            app.rule_input_buffer = String::new();
        },
        (RuleInputMode::FindReplace, RuleInputStep::InputReplace) => {
            app.find_replace_replace = Some(buf);
            app.rule_input_step = RuleInputStep::ConfirmRegex;
            app.rule_input_buffer = String::new();
        },
        (RuleInputMode::FindReplace, RuleInputStep::ConfirmRegex) => {
            match (&app.find_replace_find, &app.find_replace_replace) {
                (Some(find), Some(replace)) => {
                    let find = find.clone();
                    let replace = replace.clone();
                    let cs = crate::text::chars_of(buf.as_str());
                    let is_regex = cs.len() > 0 && (cs[0] == 'y' || cs[0] == 'Y');
                    if is_regex {
                        app.add_rule(
                            RenameRule::FindReplaceRegex { pattern: find, replacement: replace },
                        );
                    } else {
                        app.add_rule(RenameRule::FindReplace { find, replace });
                    }
                    app.clear_input();
                },
                _ => {},
            }
        },
        (RuleInputMode::Prefix, RuleInputStep::InputText) => {
            app.add_rule(RenameRule::AddPrefix(buf));
            app.clear_input();
        },
        (RuleInputMode::Suffix, RuleInputStep::InputText) => {
            app.add_rule(RenameRule::AddSuffix(buf));
            app.clear_input();
        },
        (RuleInputMode::RemovePattern, RuleInputStep::InputText) => {
            app.add_rule(RenameRule::RemovePattern(buf));
            app.clear_input();
        },
        (RuleInputMode::Numbering, RuleInputStep::InputNumber) => {
            app.numbering_start = parse_u32(buf.as_str());
            app.rule_input_step = RuleInputStep::InputWidth;
            app.rule_input_buffer = String::new();
        },
        (RuleInputMode::Numbering, RuleInputStep::InputWidth) => {
            app.numbering_width = parse_usize(buf.as_str());
            app.rule_input_step = RuleInputStep::InputPlaceholder;
            app.rule_input_buffer = String::new();
        },
        (RuleInputMode::Numbering, RuleInputStep::InputPlaceholder) => {
            match (app.numbering_start, app.numbering_width) {
                (Some(start), Some(width)) => {
                    app.add_rule(RenameRule::Numbering { start, width, placeholder: buf });
                    app.clear_input();
                },
                _ => {},
            }
        },
        _ => {
            app.clear_input();
        },
    }
}

impl App {
    /// After renaming `renamed` files on disk and re-reading the directory
    /// (`entries`): refreshes the list and reports the count.
    pub fn finish_rename(&mut self, renamed: usize, entries: Vec<String>)
        ensures
            final(self).status_msg@ == renamed_message(renamed as nat),
            old(self).well_formed() ==> final(self).well_formed(),
            crate::listing::sorted_names(final(self).files@),
            final(self).files@.to_multiset() == crate::listing::visible_names(
                entries@,
            ).to_multiset(),
            final(self).file_cursor == crate::app::clamped_cursor(
                old(self).file_cursor,
                final(self).files@.len(),
            ),
            final(self).current_dir == old(self).current_dir,
            final(self).same_rules(*old(self)),
            final(self).same_input(*old(self)),
            final(self).running == old(self).running,
            final(self).active_panel == old(self).active_panel,
            final(self).error_msg == old(self).error_msg,
    {
        self.refresh_files(entries);
        self.status_msg = count_message("Renamed ", renamed, " files.");
    }

    /// After re-reading the directory (`entries`): refreshes the list and
    /// says so.
    pub fn finish_refresh(&mut self, entries: Vec<String>)
        ensures
            final(self).status_msg@ == "File list refreshed."@,
            old(self).well_formed() ==> final(self).well_formed(),
            crate::listing::sorted_names(final(self).files@),
            final(self).files@.to_multiset() == crate::listing::visible_names(
                entries@,
            ).to_multiset(),
            final(self).file_cursor == crate::app::clamped_cursor(
                old(self).file_cursor,
                final(self).files@.len(),
            ),
            final(self).current_dir == old(self).current_dir,
            final(self).same_rules(*old(self)),
            final(self).same_input(*old(self)),
            final(self).running == old(self).running,
            final(self).active_panel == old(self).active_panel,
            final(self).error_msg == old(self).error_msg,
    {
        self.refresh_files(entries);
        self.status_msg = string_from("File list refreshed.");
    }
}

/// Every key that is not refused keeps the state's invariant: rule entry
/// stays consistent and both cursors stay on their lists.
pub proof fn lemma_key_keeps_well_formed(a: App, b: App, key: Key, action: Action)
    requires
        a.well_formed(),
        !key_refused(a, key),
        key_post(a, b, key, action),
    ensures
        b.well_formed(),
{
    if a.rule_input_mode == RuleInputMode::Idle && a.active_panel == Panel::Rules {
        if is_char(key, 'd') && a.rule_cursor < a.rules@.len() {
            assert(b.rules@.len() == a.rules@.len() - 1);
        } else if is_char(key, 'J') && a.rule_cursor < a.rules@.len() - 1 {
            assert(b.rules@.len() == a.rules@.len());
        } else if is_char(key, 'K') && a.rule_cursor > 0 {
            assert(b.rules@.len() == a.rules@.len());
        }
    }
}

/// Pressing `d` in the rules panel deletes the rule under the cursor: the
/// rules before it keep their places, the ones after it move up by one, the
/// cursor stays, and nothing is deleted when the cursor is past the last
/// rule.
pub proof fn lemma_delete_key_removes_rule_under_cursor(a: App, b: App, action: Action)
    requires
        a.rule_input_mode == RuleInputMode::Idle,
        a.active_panel == Panel::Rules,
        key_post(a, b, Key::Char('d'), action),
    ensures
        action == Action::Nothing,
        b.rule_cursor == a.rule_cursor,
        a.rule_cursor < a.rules@.len() ==> {
            &&& b.rules@.len() == a.rules@.len() - 1
            &&& forall|k: int| 0 <= k < a.rule_cursor ==> b.rules@[k] == a.rules@[k]
            &&& forall|k: int| a.rule_cursor <= k < b.rules@.len() ==> b.rules@[k] == a.rules@[k + 1]
        },
        a.rule_cursor >= a.rules@.len() ==> b.rules == a.rules,
{
}

/// The rule that Enter completes does to every stem what its prompts asked
/// for: a prefix goes in front, a suffix after, a removal deletes the typed
/// pattern (as a regex, or literally when it is not one), a find/replace
/// replaces the typed find text by the typed replacement (as a regex when
/// the answer starts with `y`/`Y`), and numbering puts the zero-padded number
/// where the typed placeholder was.
pub proof fn lemma_entered_rule_effect(a: App, b: App, stem: Seq<char>, index: u32)
    requires
        submit_post(a, b),
        b.rules@.len() == a.rules@.len() + 1,
    ensures
        ({
            let buf = a.rule_input_buffer@;
            let r = last_rule(b);
            let e = Seq::<char>::empty();
            &&& (a.rule_input_mode == RuleInputMode::Prefix && a.rule_input_step
                == RuleInputStep::InputText) ==> stem_result(r, stem, index) == buf + stem
            &&& (a.rule_input_mode == RuleInputMode::Suffix && a.rule_input_step
                == RuleInputStep::InputText) ==> stem_result(r, stem, index) == stem + buf
            &&& (a.rule_input_mode == RuleInputMode::RemovePattern && a.rule_input_step
                == RuleInputStep::InputText) ==> stem_result(r, stem, index) == if regex_compiles(
                buf,
            ) {
                regex_replace_all(buf, stem, e)
            } else {
                replace_all(stem, buf, e)
            }
            &&& (a.rule_input_mode == RuleInputMode::FindReplace && a.rule_input_step
                == RuleInputStep::ConfirmRegex) ==> (a.find_replace_find matches Some(f)
                && a.find_replace_replace matches Some(t) && stem_result(r, stem, index) == if buf.len()
                > 0 && (buf[0] == 'y' || buf[0] == 'Y') {
                if regex_compiles(f@) {
                    regex_replace_all(f@, stem, t@)
                } else {
                    stem
                }
            } else {
                replace_all(stem, f@, t@)
            })
            &&& (a.rule_input_mode == RuleInputMode::Numbering && a.rule_input_step
                == RuleInputStep::InputPlaceholder) ==> (a.numbering_start matches Some(st)
                && a.numbering_width matches Some(w) && (st + index <= u32::MAX ==> stem_result(
                r,
                stem,
                index,
            ) == replace_all(stem, buf, pad_zeros(crate::number::decimal((st + index) as nat), w as nat))))
        }),
{
}

/// Pressing `K` in the rules panel exchanges the rule under the cursor with
/// the one above it and moves the cursor up with it; `J` exchanges it with
/// the one below and moves the cursor down. All other rules stay in place.
pub proof fn lemma_move_keys_exchange_neighbours(a: App, b: App, key: Key, action: Action)
    requires
        a.rule_input_mode == RuleInputMode::Idle,
        a.active_panel == Panel::Rules,
        key == Key::Char('K') || key == Key::Char('J'),
        !key_refused(a, key),
        key_post(a, b, key, action),
    ensures
        b.rules@.len() == a.rules@.len(),
        key == Key::Char('K') && a.rule_cursor > 0 ==> {
            let c = a.rule_cursor as int;
            &&& b.rule_cursor == c - 1
            &&& b.rules@[c - 1] == a.rules@[c]
            &&& b.rules@[c] == a.rules@[c - 1]
            &&& forall|k: int|
                0 <= k < a.rules@.len() && k != c && k != c - 1 ==> b.rules@[k] == a.rules@[k]
        },
        key == Key::Char('J') && a.rule_cursor + 1 < a.rules@.len() ==> {
            let c = a.rule_cursor as int;
            &&& b.rule_cursor == c + 1
            &&& b.rules@[c + 1] == a.rules@[c]
            &&& b.rules@[c] == a.rules@[c + 1]
            &&& forall|k: int|
                0 <= k < a.rules@.len() && k != c && k != c + 1 ==> b.rules@[k] == a.rules@[k]
        },
{
}

} // verus!
