use erm::casing::CaseTransform;
use erm::rules::{apply_rules, regex_rule_stem, rules_fit_index, split_filename, RenameRule};

fn s(x: &str) -> String {
    x.to_string()
}

#[test]
fn split_filename_cases() {
    assert_eq!(split_filename("photo.jpg"), (s("photo"), s("jpg")));
    assert_eq!(split_filename("archive.tar.gz"), (s("archive.tar"), s("gz")));
    assert_eq!(split_filename(".bashrc"), (s(".bashrc"), s("")));
    assert_eq!(split_filename("noext"), (s("noext"), s("")));
    assert_eq!(split_filename("file."), (s("file"), s("")));
    assert_eq!(split_filename(""), (s(""), s("")));
}

#[test]
fn find_replace_every_occurrence() {
    let r = RenameRule::FindReplace { find: s("a"), replace: s("b") };
    assert_eq!(r.apply("banana.txt", 0), "bbnbnb.txt");
    let r = RenameRule::FindReplace { find: s("aa"), replace: s("x") };
    assert_eq!(r.apply("aaa.txt", 0), "xa.txt");
}

#[test]
fn find_replace_empty_pattern_matches_everywhere() {
    let r = RenameRule::FindReplace { find: s(""), replace: s("-") };
    assert_eq!(r.apply("ab.txt", 0), "-a-b-.txt");
}

#[test]
fn find_replace_absent_pattern_keeps_name() {
    let r = RenameRule::FindReplace { find: s("zz"), replace: s("q") };
    assert_eq!(r.apply("photo.jpg", 3), "photo.jpg");
}

#[test]
fn find_replace_by_itself_keeps_name() {
    let r = RenameRule::FindReplace { find: s("an"), replace: s("an") };
    assert_eq!(r.apply("banana.txt", 0), "banana.txt");
}

#[test]
fn regex_rule_replaces_matches() {
    let r = RenameRule::FindReplaceRegex { pattern: s("[0-9]+"), replacement: s("#") };
    assert_eq!(r.apply("img123x45.png", 0), "img#x#.png");
}

#[test]
fn regex_rule_uses_capture_groups() {
    let r = RenameRule::FindReplaceRegex {
        pattern: s("(\\w+)-(\\w+)"),
        replacement: s("$2-$1"),
    };
    assert_eq!(r.apply("foo-bar.txt", 0), "bar-foo.txt");
}

#[test]
fn regex_rule_with_invalid_pattern_keeps_name() {
    let r = RenameRule::FindReplaceRegex { pattern: s("("), replacement: s("x") };
    assert_eq!(r.apply("a(b.txt", 0), "a(b.txt");
}

#[test]
fn prefix_and_suffix() {
    assert_eq!(RenameRule::AddPrefix(s("new_")).apply("photo.jpg", 0), "new_photo.jpg");
    assert_eq!(RenameRule::AddSuffix(s("_v2")).apply("photo.jpg", 0), "photo_v2.jpg");
    assert_eq!(RenameRule::AddSuffix(s("_v2")).apply("README", 0), "README_v2");
}

#[test]
fn extension_is_not_touched() {
    let r = RenameRule::ChangeCase(CaseTransform::Upper);
    assert_eq!(r.apply("report.pdf", 0), "REPORT.pdf");
}

#[test]
fn trailing_dot_is_dropped() {
    let r = RenameRule::AddPrefix(s(""));
    assert_eq!(r.apply("notes.", 0), "notes");
}

#[test]
fn case_transforms() {
    let up = RenameRule::ChangeCase(CaseTransform::Upper);
    let low = RenameRule::ChangeCase(CaseTransform::Lower);
    let title = RenameRule::ChangeCase(CaseTransform::Title);
    let toggle = RenameRule::ChangeCase(CaseTransform::Toggle);
    assert_eq!(up.apply("Hello World.txt", 0), "HELLO WORLD.txt");
    assert_eq!(low.apply("Hello World.TXT", 0), "hello world.TXT");
    assert_eq!(title.apply("hello_world-foo bar.txt", 0), "Hello_World-Foo Bar.txt");
    assert_eq!(title.apply("hELLO wORLD", 0), "Hello World");
    assert_eq!(toggle.apply("Hello1.txt", 0), "hELLO1.txt");
    assert_eq!(up.apply("stra\u{df}e", 0), "STRASSE");
}

#[test]
fn remove_pattern_by_regex_or_literal() {
    let r = RenameRule::RemovePattern(s("[0-9]"));
    assert_eq!(r.apply("a1b2.txt", 0), "ab.txt");
    let r = RenameRule::RemovePattern(s("("));
    assert_eq!(r.apply("a(b(.txt", 0), "ab.txt");
}

#[test]
fn numbering_pads_with_zeros() {
    let r = RenameRule::Numbering { start: 1, width: 3, placeholder: s("##") };
    assert_eq!(r.apply("img_##.png", 4), "img_005.png");
    let r = RenameRule::Numbering { start: 10, width: 0, placeholder: s("#") };
    assert_eq!(r.apply("a#b#.txt", 2), "a12b12.txt");
    let r = RenameRule::Numbering { start: 123, width: 2, placeholder: s("N") };
    assert_eq!(r.apply("N", 0), "123");
}

#[test]
fn numbering_without_placeholder_keeps_name() {
    let r = RenameRule::Numbering { start: 1, width: 2, placeholder: s("##") };
    assert_eq!(r.apply("plain.txt", 7), "plain.txt");
}

#[test]
fn apply_to_stem_ignores_extension() {
    let r = RenameRule::ChangeCase(CaseTransform::Upper);
    assert_eq!(r.apply_to_stem("a.b", 0), "A.B");
    let r = RenameRule::AddSuffix(s("!"));
    assert_eq!(r.apply_to_stem("x.txt", 0), "x.txt!");
}

#[test]
fn apply_rules_in_order() {
    let rules = vec![
        RenameRule::FindReplace { find: s(" "), replace: s("_") },
        RenameRule::ChangeCase(CaseTransform::Lower),
        RenameRule::AddPrefix(s("##-")),
        RenameRule::Numbering { start: 1, width: 2, placeholder: s("##") },
    ];
    assert_eq!(apply_rules("My Holiday Photo.JPG", &rules, 2), "03-my_holiday_photo.JPG");
    assert_eq!(apply_rules("x.txt", &[], 9), "x.txt");
}

#[test]
fn apply_rules_composes() {
    let first = vec![RenameRule::AddPrefix(s("a_"))];
    let second = vec![RenameRule::ChangeCase(CaseTransform::Upper)];
    let both: Vec<RenameRule> = first.iter().chain(second.iter()).cloned().collect();
    let step = apply_rules("name.txt", &first, 0);
    assert_eq!(apply_rules("name.txt", &both, 0), apply_rules(&step, &second, 0));
    assert_eq!(apply_rules("name.txt", &both, 0), "A_NAME.txt");
}

#[test]
fn extension_survives_a_chain_of_rules() {
    let rules = vec![
        RenameRule::AddSuffix(s(".bak")),
        RenameRule::ChangeCase(CaseTransform::Upper),
    ];
    assert_eq!(apply_rules("a.txt", &rules, 0), "A.BAK.txt");
}

#[test]
fn rules_fit_index_detects_overflow() {
    let rules = vec![RenameRule::Numbering { start: u32::MAX - 1, width: 1, placeholder: s("#") }];
    assert!(rules_fit_index(&rules, 1));
    assert!(!rules_fit_index(&rules, 2));
    assert!(rules_fit_index(&[RenameRule::AddPrefix(s("x"))], u32::MAX));
}

#[test]
fn rule_descriptions() {
    assert_eq!(
        RenameRule::FindReplace { find: s("a"), replace: s("b") }.describe(),
        "find 'a' \u{2192} 'b'"
    );
    assert_eq!(
        RenameRule::FindReplaceRegex { pattern: s("x+"), replacement: s("y") }.describe(),
        "[rx]find 'x+' \u{2192} 'y'"
    );
    assert_eq!(RenameRule::AddPrefix(s("p")).describe(), "prefix 'p'");
    assert_eq!(RenameRule::AddSuffix(s("q")).describe(), "suffix 'q'");
    assert_eq!(RenameRule::ChangeCase(CaseTransform::Toggle).describe(), "case tOGGLE");
    assert_eq!(RenameRule::RemovePattern(s("z")).describe(), "remove 'z'");
    assert_eq!(
        RenameRule::Numbering { start: 42, width: 3, placeholder: s("##") }.describe(),
        "number 42.. (##)"
    );
}

#[test]
fn case_labels() {
    assert_eq!(CaseTransform::Upper.label(), "UPPER");
    assert_eq!(CaseTransform::Lower.label(), "lower");
    assert_eq!(CaseTransform::Title.label(), "Title");
    assert_eq!(CaseTransform::Toggle.label(), "tOGGLE");
}

#[test]
fn regex_rule_stem_uses_outcome() {
    let find = RenameRule::FindReplaceRegex { pattern: s("("), replacement: s("x") };
    assert_eq!(regex_rule_stem(&find, "a(b", None), "a(b");
    assert_eq!(regex_rule_stem(&find, "a(b", Some(s("zz"))), "zz");
    let remove = RenameRule::RemovePattern(s("("));
    assert_eq!(regex_rule_stem(&remove, "a(b(", None), "ab");
    assert_eq!(regex_rule_stem(&remove, "a(b(", Some(s("q"))), "q");
}
