use std::path::PathBuf;

use erm::app::{App, Panel, RuleInputMode, RuleInputStep};
use erm::casing::CaseTransform;
use erm::input::{handle_key, refuses_key, submit_rule_input, Action, Key};
use erm::rules::RenameRule;
use erm::view::{
    file_preview, file_row_highlighted, input_line, input_prompt, rule_row, shows_input_line,
    shows_rules_hint, status_line,
};

fn names(xs: &[&str]) -> Vec<String> {
    xs.iter().map(|x| x.to_string()).collect()
}

fn app_with(files: &[&str]) -> App {
    App::new(PathBuf::from("/tmp/dir"), names(files))
}

fn typed(app: &mut App, text: &str) {
    for c in text.chars() {
        assert_eq!(handle_key(app, Key::Char(c)), Action::Nothing);
    }
}

fn describe_all(app: &App) -> Vec<String> {
    app.rules.iter().map(|r| r.describe()).collect()
}

#[test]
fn new_lists_visible_files_sorted() {
    let app = app_with(&["b.txt", ".git", "a.txt"]);
    assert!(app.running);
    assert_eq!(app.files, names(&["a.txt", "b.txt"]));
    assert_eq!(app.file_cursor, 0);
    assert_eq!(app.active_panel, Panel::Files);
    assert_eq!(app.rule_input_mode, RuleInputMode::Idle);
    assert_eq!(app.rule_input_step, RuleInputStep::Waiting);
    assert!(app.status_msg.starts_with("erm - EncryptedData's Re Namer"));
    assert_eq!(app.error_msg, None);
}

#[test]
fn refresh_files_clamps_cursor() {
    let mut app = app_with(&["a", "b", "c"]);
    app.file_cursor = 2;
    app.refresh_files(names(&["x"]));
    assert_eq!(app.files, names(&["x"]));
    assert_eq!(app.file_cursor, 0);
    app.refresh_files(names(&[]));
    assert_eq!(app.file_cursor, 0);
    app.refresh_files(names(&["q", "p", "r"]));
    app.file_cursor = 1;
    app.refresh_files(names(&["q", "p", "r", "s"]));
    assert_eq!(app.file_cursor, 1);
    app.file_cursor = 3;
    app.refresh_files(names(&["q", "p"]));
    assert_eq!(app.file_cursor, 1);
}

#[test]
fn add_rule_puts_cursor_past_end() {
    let mut app = app_with(&[]);
    app.add_rule(RenameRule::AddPrefix("x".to_string()));
    assert_eq!(app.rules.len(), 1);
    assert_eq!(app.rule_cursor, 1);
    assert_eq!(app.status_msg, "Rule added.");
    app.remove_rule();
    assert_eq!(app.rules.len(), 1);
    app.rule_cursor = 0;
    app.remove_rule();
    assert_eq!(app.rules.len(), 0);
    assert_eq!(app.status_msg, "Rule removed.");
}

#[test]
fn move_rules_up_and_down() {
    let mut app = app_with(&[]);
    app.add_rule(RenameRule::AddPrefix("a".to_string()));
    app.add_rule(RenameRule::AddPrefix("b".to_string()));
    app.add_rule(RenameRule::AddPrefix("c".to_string()));
    app.rule_cursor = 1;
    app.move_rule_up();
    assert_eq!(describe_all(&app), vec!["prefix 'b'", "prefix 'a'", "prefix 'c'"]);
    assert_eq!(app.rule_cursor, 0);
    app.move_rule_up();
    assert_eq!(app.rule_cursor, 0);
    app.move_rule_down();
    assert_eq!(describe_all(&app), vec!["prefix 'a'", "prefix 'b'", "prefix 'c'"]);
    assert_eq!(app.rule_cursor, 1);
    app.move_rule_down();
    app.move_rule_down();
    assert_eq!(describe_all(&app), vec!["prefix 'a'", "prefix 'c'", "prefix 'b'"]);
    assert_eq!(app.rule_cursor, 2);
}

#[test]
fn clear_input_resets_entry() {
    let mut app = app_with(&[]);
    app.rule_input_mode = RuleInputMode::Numbering;
    app.rule_input_step = RuleInputStep::InputWidth;
    app.rule_input_buffer = "12".to_string();
    app.numbering_start = Some(3);
    app.find_replace_find = Some("f".to_string());
    app.find_replace_replace = Some("g".to_string());
    app.clear_input();
    assert_eq!(app.rule_input_mode, RuleInputMode::Idle);
    assert_eq!(app.rule_input_step, RuleInputStep::Waiting);
    assert_eq!(app.rule_input_buffer, "");
    assert_eq!(app.numbering_start, None);
    assert_eq!(app.numbering_width, None);
    assert_eq!(app.find_replace_find, None);
    assert_eq!(app.find_replace_replace, None);
}

#[test]
fn rename_plan_numbers_files() {
    let mut app = app_with(&["a_#.txt", "b_#.txt", "c_#.txt"]);
    app.add_rule(RenameRule::Numbering { start: 1, width: 2, placeholder: "#".to_string() });
    let expected = vec![
        ("a_#.txt".to_string(), "a_01.txt".to_string()),
        ("b_#.txt".to_string(), "b_02.txt".to_string()),
        ("c_#.txt".to_string(), "c_03.txt".to_string()),
    ];
    assert_eq!(app.rename_files(true), expected);
    assert_eq!(app.rename_files(false), expected);
    assert!(app.can_rename());
}

#[test]
fn dry_run_refused_when_numbers_overflow() {
    let mut app = app_with(&["a#", "b#"]);
    app.add_rule(RenameRule::Numbering { start: u32::MAX, width: 1, placeholder: "#".to_string() });
    assert!(!app.can_rename());
    assert!(refuses_key(&app, Key::Char('r')));
    let mut single = app_with(&["a#"]);
    single.add_rule(RenameRule::Numbering { start: u32::MAX, width: 1, placeholder: "#".to_string() });
    assert!(single.can_rename());
    assert!(!refuses_key(&single, Key::Char('r')));
}

#[test]
fn rename_error_message() {
    let mut app = app_with(&[]);
    app.record_rename_error("x.txt", "permission denied");
    assert_eq!(app.error_msg, Some("Failed to rename 'x.txt': permission denied".to_string()));
}

#[test]
fn quit_and_switch_panels() {
    let mut app = app_with(&["a"]);
    assert_eq!(handle_key(&mut app, Key::Tab), Action::Nothing);
    assert_eq!(app.active_panel, Panel::Rules);
    handle_key(&mut app, Key::Char('l'));
    assert_eq!(app.active_panel, Panel::Files);
    handle_key(&mut app, Key::Char('h'));
    assert_eq!(app.active_panel, Panel::Rules);
    handle_key(&mut app, Key::Char('q'));
    assert!(!app.running);
}

#[test]
fn enter_prefix_rule_by_keys() {
    let mut app = app_with(&["a.txt"]);
    handle_key(&mut app, Key::Tab);
    handle_key(&mut app, Key::Char('p'));
    assert_eq!(app.rule_input_mode, RuleInputMode::Prefix);
    assert_eq!(app.rule_input_step, RuleInputStep::InputText);
    typed(&mut app, "new_x");
    handle_key(&mut app, Key::Backspace);
    assert_eq!(app.rule_input_buffer, "new_");
    handle_key(&mut app, Key::Enter);
    assert_eq!(describe_all(&app), vec!["prefix 'new_'"]);
    assert_eq!(app.rule_input_mode, RuleInputMode::Idle);
    assert_eq!(app.rule_input_buffer, "");
}

#[test]
fn enter_find_replace_rule_by_keys() {
    let mut app = app_with(&[]);
    handle_key(&mut app, Key::Tab);
    handle_key(&mut app, Key::Char('f'));
    typed(&mut app, "old");
    handle_key(&mut app, Key::Enter);
    assert_eq!(app.find_replace_find, Some("old".to_string()));
    assert_eq!(app.rule_input_step, RuleInputStep::InputReplace);
    typed(&mut app, "new");
    handle_key(&mut app, Key::Enter);
    assert_eq!(app.rule_input_step, RuleInputStep::ConfirmRegex);
    assert_eq!(app.find_replace_replace, Some("new".to_string()));
    assert_eq!(app.rule_input_buffer, "");
    typed(&mut app, "n");
    handle_key(&mut app, Key::Enter);
    assert_eq!(describe_all(&app), vec!["find 'old' \u{2192} 'new'"]);
    assert_eq!(app.find_replace_find, None);
    assert_eq!(app.find_replace_replace, None);
    handle_key(&mut app, Key::Char('f'));
    typed(&mut app, "[0-9]");
    handle_key(&mut app, Key::Enter);
    typed(&mut app, "#");
    handle_key(&mut app, Key::Enter);
    typed(&mut app, "Yes");
    handle_key(&mut app, Key::Enter);
    assert_eq!(describe_all(&app)[1], "[rx]find '[0-9]' \u{2192} '#'");
    assert_eq!(app.rules[1].apply("a1b22.txt", 0), "a#b##.txt");
    assert_eq!(app.status_msg, "Rule added.");
}

#[test]
fn find_replace_foo_bar_yes() {
    let mut app = app_with(&[]);
    app.rule_input_mode = RuleInputMode::FindReplace;
    app.rule_input_step = RuleInputStep::InputText;
    app.rule_input_buffer = "foo".to_string();
    submit_rule_input(&mut app);
    app.rule_input_buffer = "bar".to_string();
    submit_rule_input(&mut app);
    app.rule_input_buffer = "y".to_string();
    submit_rule_input(&mut app);
    assert_eq!(describe_all(&app), vec!["[rx]find 'foo' \u{2192} 'bar'"]);
    assert_eq!(app.rule_input_mode, RuleInputMode::Idle);
    assert_eq!(app.rule_input_step, RuleInputStep::Waiting);
    assert_eq!(app.rule_input_buffer, "");
    assert_eq!(app.status_msg, "Rule added.");
}

#[test]
fn enter_numbering_rule_by_keys() {
    let mut app = app_with(&[]);
    handle_key(&mut app, Key::Tab);
    handle_key(&mut app, Key::Char('n'));
    typed(&mut app, "5");
    handle_key(&mut app, Key::Enter);
    assert_eq!(app.numbering_start, Some(5));
    typed(&mut app, "3");
    handle_key(&mut app, Key::Enter);
    assert_eq!(app.numbering_width, Some(3));
    typed(&mut app, "##");
    handle_key(&mut app, Key::Enter);
    assert_eq!(describe_all(&app), vec!["number 5.. (##)"]);
    assert_eq!(app.rules[0].apply("f##.txt", 2), "f007.txt");
}

#[test]
fn numbering_with_bad_number_waits_at_placeholder() {
    let mut app = app_with(&[]);
    handle_key(&mut app, Key::Tab);
    handle_key(&mut app, Key::Char('n'));
    typed(&mut app, "x");
    handle_key(&mut app, Key::Enter);
    assert_eq!(app.numbering_start, None);
    typed(&mut app, "2");
    handle_key(&mut app, Key::Enter);
    typed(&mut app, "#");
    handle_key(&mut app, Key::Enter);
    assert!(app.rules.is_empty());
    assert_eq!(app.rule_input_step, RuleInputStep::InputPlaceholder);
    handle_key(&mut app, Key::Esc);
    assert_eq!(app.rule_input_mode, RuleInputMode::Idle);
}

#[test]
fn choose_case_by_digit() {
    let mut app = app_with(&[]);
    handle_key(&mut app, Key::Tab);
    handle_key(&mut app, Key::Char('c'));
    assert_eq!(app.rule_input_step, RuleInputStep::SelectCase);
    handle_key(&mut app, Key::Char('9'));
    assert!(app.rules.is_empty());
    handle_key(&mut app, Key::Char('3'));
    assert_eq!(describe_all(&app), vec!["case Title"]);
    assert!(matches!(app.rules[0], RenameRule::ChangeCase(CaseTransform::Title)));
    assert_eq!(app.rule_input_mode, RuleInputMode::Idle);
}

#[test]
fn submit_outside_known_steps_clears() {
    let mut app = app_with(&[]);
    app.rule_input_mode = RuleInputMode::Prefix;
    app.rule_input_step = RuleInputStep::InputWidth;
    app.rule_input_buffer = "zz".to_string();
    submit_rule_input(&mut app);
    assert_eq!(app.rule_input_mode, RuleInputMode::Idle);
    assert!(app.rules.is_empty());
}

#[test]
fn rules_panel_navigation_and_refused_keys() {
    let mut app = app_with(&[]);
    handle_key(&mut app, Key::Tab);
    assert!(refuses_key(&app, Key::Char('J')));
    app.add_rule(RenameRule::AddPrefix("a".to_string()));
    app.add_rule(RenameRule::AddPrefix("b".to_string()));
    assert!(refuses_key(&app, Key::Char('K')));
    assert!(!refuses_key(&app, Key::Char('J')));
    handle_key(&mut app, Key::Char('k'));
    assert_eq!(app.rule_cursor, 1);
    handle_key(&mut app, Key::Char('j'));
    assert_eq!(app.rule_cursor, 1);
    handle_key(&mut app, Key::Up);
    assert_eq!(app.rule_cursor, 0);
    handle_key(&mut app, Key::Down);
    assert_eq!(app.rule_cursor, 1);
    handle_key(&mut app, Key::Char('K'));
    assert_eq!(describe_all(&app), vec!["prefix 'b'", "prefix 'a'"]);
    handle_key(&mut app, Key::Char('J'));
    assert_eq!(describe_all(&app), vec!["prefix 'a'", "prefix 'b'"]);
    handle_key(&mut app, Key::Char('d'));
    assert_eq!(describe_all(&app), vec!["prefix 'a'"]);
    assert_eq!(app.status_msg, "Rule removed.");
}

#[test]
fn files_panel_keys() {
    let mut app = app_with(&["a", "b", "c"]);
    handle_key(&mut app, Key::Char('j'));
    assert_eq!(app.file_cursor, 1);
    handle_key(&mut app, Key::Char('G'));
    assert_eq!(app.file_cursor, 2);
    handle_key(&mut app, Key::Down);
    assert_eq!(app.file_cursor, 2);
    handle_key(&mut app, Key::Char('k'));
    assert_eq!(app.file_cursor, 1);
    assert_eq!(handle_key(&mut app, Key::Char('g')), Action::Nothing);
    assert_eq!(app.file_cursor, 1);
    assert_eq!(handle_key(&mut app, Key::Char('r')), Action::Nothing);
    assert_eq!(app.status_msg, "Dry-run: 3 files would be renamed.");
    assert_eq!(handle_key(&mut app, Key::Char('R')), Action::RenameOnDisk);
    assert_eq!(handle_key(&mut app, Key::Char('/')), Action::RefreshListing);
    assert_eq!(handle_key(&mut app, Key::Esc), Action::Nothing);
}

#[test]
fn finish_rename_and_refresh() {
    let mut app = app_with(&["a", "b"]);
    app.file_cursor = 1;
    app.finish_rename(2, names(&["x"]));
    assert_eq!(app.status_msg, "Renamed 2 files.");
    assert_eq!(app.files, names(&["x"]));
    assert_eq!(app.file_cursor, 0);
    app.finish_refresh(names(&["z", "y"]));
    assert_eq!(app.status_msg, "File list refreshed.");
    assert_eq!(app.files, names(&["y", "z"]));
}

#[test]
fn screen_text() {
    let mut app = app_with(&["a b.txt", "c.txt"]);
    app.add_rule(RenameRule::FindReplace { find: " ".to_string(), replace: "_".to_string() });
    app.add_rule(RenameRule::AddSuffix("!".to_string()));
    app.rule_cursor = 1;
    assert_eq!(rule_row(&app, 0), "   [0] find ' ' \u{2192} '_'");
    assert_eq!(rule_row(&app, 1), ">> [1] suffix '!'");
    assert_eq!(file_preview(&app.files[0], &app.rules, 0), "a b.txt -> a_b!.txt");
    assert_eq!(file_preview(&"x".to_string(), &[], 0), "x");
    assert_eq!(status_line(&app), " Rule added. | Files: 2 | Rules: 2 ");
    app.record_rename_error("a", "boom");
    assert_eq!(status_line(&app), " Rule added. | ERR: Failed to rename 'a': boom | Files: 2 | Rules: 2 ");
    app.rule_input_mode = RuleInputMode::Numbering;
    app.rule_input_step = RuleInputStep::InputWidth;
    app.rule_input_buffer = "4".to_string();
    assert_eq!(input_line(&app), "> Width (digits): 4|");
    assert_eq!(input_prompt(RuleInputMode::Case, RuleInputStep::SelectCase), "Case: 1=UPPER 2=lower 3=Title 4=tOGGLE");
    assert_eq!(input_prompt(RuleInputMode::Prefix, RuleInputStep::InputNumber), "Input:");
}

#[test]
fn screen_decisions() {
    let mut app = app_with(&["a", "b"]);
    assert!(shows_rules_hint(&app));
    assert!(!shows_input_line(&app));
    assert!(file_row_highlighted(&app, 0));
    assert!(!file_row_highlighted(&app, 1));
    app.rule_input_mode = RuleInputMode::Prefix;
    app.rule_input_step = RuleInputStep::InputText;
    assert!(!shows_rules_hint(&app));
    assert!(shows_input_line(&app));
    app.clear_input();
    app.add_rule(RenameRule::AddPrefix("p".to_string()));
    assert!(!shows_rules_hint(&app));
}
