//! The text of the screen: rule rows, the rule-entry prompt, file previews
//! and the status bar. Drawing it is left to the terminal front end.

use vstd::prelude::*;
use crate::text::{push_chars, push_str_chars, string_from};
use crate::number::{decimal, decimal_chars};
use crate::rules::{RenameRule, apply_rules, apply_rules_spec, rules_fit};
use crate::app::{App, RuleInputMode, RuleInputStep};
use crate::input::case_choice;
use crate::casing::CaseTransform;

verus! {

/// The line of the rules list for rule `i`: a marker on the rule under the
/// cursor, the position, and the rule's description.
pub open spec fn rule_row_text(app: App, i: int) -> Seq<char> {
    (if i == app.rule_cursor {
        ">> "@
    } else {
        "   "@
    }) + "["@ + decimal(i as nat) + "] "@ + app.rules@[i].describe_spec()
}

/// The question asked at each step of rule entry.
pub open spec fn prompt_text(mode: RuleInputMode, step: RuleInputStep) -> Seq<char> {
    match (mode, step) {
        (RuleInputMode::FindReplace, RuleInputStep::InputText) => "Find pattern:"@,
        (RuleInputMode::FindReplace, RuleInputStep::InputReplace) => "Replace with:"@,
        (RuleInputMode::FindReplace, RuleInputStep::ConfirmRegex) => "Use regex? (y/n):"@,
        (RuleInputMode::Prefix, RuleInputStep::InputText) => "Prefix string:"@,
        (RuleInputMode::Suffix, RuleInputStep::InputText) => "Suffix string:"@,
        (RuleInputMode::RemovePattern, RuleInputStep::InputText) => "Pattern to remove:"@,
        (RuleInputMode::Numbering, RuleInputStep::InputNumber) => "Start number:"@,
        (RuleInputMode::Numbering, RuleInputStep::InputWidth) => "Width (digits):"@,
        (RuleInputMode::Numbering, RuleInputStep::InputPlaceholder) => "Placeholder (e.g. ##):"@,
        (RuleInputMode::Case, RuleInputStep::SelectCase) => "Case: 1=UPPER 2=lower 3=Title 4=tOGGLE"@,
        _ => "Input:"@,
    }
}

/// The preview of one file: `old -> new` when the rules change its name,
/// the name alone otherwise.
pub open spec fn preview_text(file: Seq<char>, new_name: Seq<char>) -> Seq<char> {
    if new_name != file {
        file + " -> "@ + new_name
    } else {
        file
    }
}

/// The status bar: the status message, any error, and the two counts.
pub open spec fn status_text(app: App) -> Seq<char> {
    let msg = match app.error_msg {
        Some(e) => app.status_msg@ + " | ERR: "@ + e@,
        None => app.status_msg@,
    };
    " "@ + msg + " | Files: "@ + decimal(app.files@.len()) + " | Rules: "@ + decimal(
        app.rules@.len(),
    ) + " "@
}

/// Whether the rules panel shows its "No rules yet." help: there are no
/// rules and none is being entered.
pub fn shows_rules_hint(app: &App) -> (b: bool)
    ensures
        b == (app.rules@.len() == 0 && app.rule_input_mode == RuleInputMode::Idle),
{
    app.rules.len() == 0 && app.rule_input_mode == RuleInputMode::Idle
}

/// Whether the rules panel shows the rule-entry line: a rule is being
/// entered.
pub fn shows_input_line(app: &App) -> (b: bool)
    ensures
        b == (app.rule_input_mode != RuleInputMode::Idle),
{
    app.rule_input_mode != RuleInputMode::Idle
}

/// Whether the row of file `i` is highlighted: it is under the file cursor.
pub fn file_row_highlighted(app: &App, i: usize) -> (b: bool)
    ensures
        b == (i == app.file_cursor),
{
    i == app.file_cursor
}

/// The line of the rules list for rule `i`.
pub fn rule_row(app: &App, i: usize) -> (r: String)
    requires
        i < app.rules@.len(),
    ensures
        r@ == rule_row_text(*app, i as int),
{
    let mut r = if i == app.rule_cursor {
        string_from(">> ")
    } else {
        string_from("   ")
    };
    push_str_chars(&mut r, "[");
    push_chars(&mut r, &decimal_chars(i as u64));
    push_str_chars(&mut r, "] ");
    let d = app.rules[i].describe();
    push_str_chars(&mut r, d.as_str());
    r
}

/// The question asked at `step` of entering a rule of kind `mode`.
pub fn input_prompt(mode: RuleInputMode, step: RuleInputStep) -> (r: String)
    ensures
        r@ == prompt_text(mode, step),
{
    match (mode, step) {
        (RuleInputMode::FindReplace, RuleInputStep::InputText) => string_from("Find pattern:"),
        (RuleInputMode::FindReplace, RuleInputStep::InputReplace) => string_from("Replace with:"),
        (RuleInputMode::FindReplace, RuleInputStep::ConfirmRegex) => string_from(
            "Use regex? (y/n):",
        ),
        (RuleInputMode::Prefix, RuleInputStep::InputText) => string_from("Prefix string:"),
        (RuleInputMode::Suffix, RuleInputStep::InputText) => string_from("Suffix string:"),
        (RuleInputMode::RemovePattern, RuleInputStep::InputText) => string_from(
            "Pattern to remove:",
        ),
        (RuleInputMode::Numbering, RuleInputStep::InputNumber) => string_from("Start number:"),
        (RuleInputMode::Numbering, RuleInputStep::InputWidth) => string_from("Width (digits):"),
        (RuleInputMode::Numbering, RuleInputStep::InputPlaceholder) => string_from(
            "Placeholder (e.g. ##):",
        ),
        (RuleInputMode::Case, RuleInputStep::SelectCase) => string_from(
            "Case: 1=UPPER 2=lower 3=Title 4=tOGGLE",
        ),
        _ => string_from("Input:"),
    }
}

/// The rule-entry line: `> `, the question, the text typed so far and a
/// cursor mark.
pub fn input_line(app: &App) -> (r: String)
    ensures
        r@ == "> "@ + prompt_text(app.rule_input_mode, app.rule_input_step) + " "@
            + app.rule_input_buffer@ + "|"@,
{
    let mut r = string_from("> ");
    let p = input_prompt(app.rule_input_mode, app.rule_input_step);
    push_str_chars(&mut r, p.as_str());
    push_str_chars(&mut r, " ");
    push_str_chars(&mut r, app.rule_input_buffer.as_str());
    push_str_chars(&mut r, "|");
    r
}

/// The preview of the file `file` at position `index` under `rules`.
pub fn file_preview(file: &String, rules: &[RenameRule], index: u32) -> (r: String)
    requires
        rules_fit(rules@, index),
    ensures
        r@ == preview_text(file@, apply_rules_spec(file@, rules@, index)),
{
    let new_name = apply_rules(file.as_str(), rules, index);
    if new_name != *file {
        let mut r = string_from(file.as_str());
        push_str_chars(&mut r, " -> ");
        push_str_chars(&mut r, new_name.as_str());
        r
    } else {
        string_from(file.as_str())
    }
}

/// The text of the status bar.
pub fn status_line(app: &App) -> (r: String)
    ensures
        r@ == status_text(*app),
{
    let mut r = string_from(" ");
    push_str_chars(&mut r, app.status_msg.as_str());
    match &app.error_msg {
        Some(e) => {
            push_str_chars(&mut r, " | ERR: ");
            push_str_chars(&mut r, e.as_str());
        },
        None => {},
    }
    push_str_chars(&mut r, " | Files: ");
    push_chars(&mut r, &decimal_chars(app.files.len() as u64));
    push_str_chars(&mut r, " | Rules: ");
    push_chars(&mut r, &decimal_chars(app.rules.len() as u64));
    push_str_chars(&mut r, " ");
    r
}

/// `sub` stands in `s` starting at position `i`.
pub open spec fn occurs_at_pos(s: Seq<char>, sub: Seq<char>, i: int) -> bool {
    0 <= i && i + sub.len() <= s.len() && s.subrange(i, i + sub.len()) == sub
}

/// The prompt `p` offers `c=label` at position `i`, the label ending at a
/// space or at the end of the prompt.
pub open spec fn offers_at(p: Seq<char>, c: char, label: Seq<char>, i: int) -> bool {
    &&& occurs_at_pos(p, seq![c, '='] + label, i)
    &&& (i + 2 + label.len() == p.len() || p[i + 2 + label.len()] == ' ')
}

/// At the case prompt, the digit pressed picks the transform that the prompt
/// names after that digit: the prompt holds `c=` followed by the chosen
/// transform's label, ending at a space or at the end of the prompt. A
/// character the prompt offers no `c=` for picks nothing.
pub proof fn lemma_case_digit_matches_prompt(c: char)
    ensures
        ({
            let p = prompt_text(RuleInputMode::Case, RuleInputStep::SelectCase);
            match case_choice(c) {
                Some(t) => exists|i: int| #[trigger] offers_at(p, c, t.label_spec(), i),
                None => forall|i: int| !occurs_at_pos(p, seq![c, '='], i),
            }
        }),
{
    let p = prompt_text(RuleInputMode::Case, RuleInputStep::SelectCase);
    reveal_strlit("Case: 1=UPPER 2=lower 3=Title 4=tOGGLE");
    reveal_strlit("UPPER");
    reveal_strlit("lower");
    reveal_strlit("Title");
    reveal_strlit("tOGGLE");
    assert(p.len() == 38);
    if c == '1' {
        let sub = seq![c, '='] + CaseTransform::Upper.label_spec();
        assert(p.subrange(6, 6 + sub.len() as int) =~= sub);
        assert(occurs_at_pos(p, sub, 6));
        assert(offers_at(p, c, CaseTransform::Upper.label_spec(), 6));
    } else if c == '2' {
        let sub = seq![c, '='] + CaseTransform::Lower.label_spec();
        assert(p.subrange(14, 14 + sub.len() as int) =~= sub);
        assert(occurs_at_pos(p, sub, 14));
        assert(offers_at(p, c, CaseTransform::Lower.label_spec(), 14));
    } else if c == '3' {
        let sub = seq![c, '='] + CaseTransform::Title.label_spec();
        assert(p.subrange(22, 22 + sub.len() as int) =~= sub);
        assert(occurs_at_pos(p, sub, 22));
        assert(offers_at(p, c, CaseTransform::Title.label_spec(), 22));
    } else if c == '4' {
        let sub = seq![c, '='] + CaseTransform::Toggle.label_spec();
        assert(p.subrange(30, 30 + sub.len() as int) =~= sub);
        assert(occurs_at_pos(p, sub, 30));
        assert(offers_at(p, c, CaseTransform::Toggle.label_spec(), 30));
    } else {
        assert forall|i: int| !occurs_at_pos(p, seq![c, '='], i) by {
            if occurs_at_pos(p, seq![c, '='], i) {
                assert(p[i] == p.subrange(i, i + 2)[0]);
                assert(p[i + 1] == p.subrange(i, i + 2)[1]);
                assert(p[i + 1] == '=');
                assert(i == 6 || i == 14 || i == 22 || i == 30);
            }
        }
    }
}

} // verus!
