//! The renamer's state: the listed files, the rule list, the two panels and
//! the rule being entered.

use vstd::prelude::*;
use crate::text::{push_str_chars, string_from};
use crate::rules::{RenameRule, apply_rules, apply_rules_spec, rules_fit, index_fits};
use crate::listing::{listed_files, sorted_names, visible_names};

verus! {

/// `std::path::PathBuf`, the directory whose files are renamed; it is only
/// carried through, never looked into.
#[verifier::external_type_specification]
#[verifier::external_body]
pub struct ExPathBuf(std::path::PathBuf);

/// The text of the status bar when the program starts.
pub open spec fn welcome_text() -> Seq<char> {
    "erm - EncryptedData's Re Namer | j/k:navigate  h/l:panel  f/p/s/c/r/n:add rule  d:del  J/K:move  r:dry-run  R:rename  q:quit"@
}

/// Which panel receives navigation keys.
#[derive(Debug, Clone, Copy, PartialEq, Eq, Structural)]
pub enum Panel {
    Rules,
    Files,
}

/// Which kind of rule is being entered, if any.
#[derive(Debug, Clone, Copy, PartialEq, Eq, Structural)]
pub enum RuleInputMode {
    Idle,
    FindReplace,
    Prefix,
    Suffix,
    RemovePattern,
    Numbering,
    Case,
}

/// Which value of the rule being entered is asked for next.
#[derive(Debug, Clone, Copy, PartialEq, Eq, Structural)]
pub enum RuleInputStep {
    Waiting,
    InputText,
    InputReplace,
    ConfirmRegex,
    InputNumber,
    InputWidth,
    InputPlaceholder,
    SelectCase,
}

/// The whole state of the renamer.
pub struct App {
    pub running: bool,
    pub current_dir: std::path::PathBuf,
    pub files: Vec<String>,
    pub file_cursor: usize,
    pub rules: Vec<RenameRule>,
    pub rule_cursor: usize,
    pub active_panel: Panel,
    pub status_msg: String,
    pub error_msg: Option<String>,
    pub rule_input_mode: RuleInputMode,
    pub rule_input_buffer: String,
    pub rule_input_step: RuleInputStep,
    pub find_replace_find: Option<String>,
    pub find_replace_replace: Option<String>,
    pub numbering_start: Option<u32>,
    pub numbering_width: Option<usize>,
}

/// The mode and step of rule entry go together: no step without a mode, and
/// each mode only at its own steps.
pub open spec fn input_pair_valid(mode: RuleInputMode, step: RuleInputStep) -> bool {
    match mode {
        RuleInputMode::Idle => step == RuleInputStep::Waiting,
        RuleInputMode::FindReplace => step == RuleInputStep::InputText || step
            == RuleInputStep::InputReplace || step == RuleInputStep::ConfirmRegex,
        RuleInputMode::Prefix => step == RuleInputStep::InputText,
        RuleInputMode::Suffix => step == RuleInputStep::InputText,
        RuleInputMode::RemovePattern => step == RuleInputStep::InputText,
        RuleInputMode::Numbering => step == RuleInputStep::InputNumber || step
            == RuleInputStep::InputWidth || step == RuleInputStep::InputPlaceholder,
        RuleInputMode::Case => step == RuleInputStep::SelectCase,
    }
}

/// The file at position `k` can be numbered: `k` fits in `u32` and every
/// numbering rule of `rules` stays within `u32` at `k`.
pub open spec fn index_usable(rules: Seq<RenameRule>, k: int) -> bool {
    k <= u32::MAX && rules_fit(rules, k as u32)
}

/// `s` with the elements at `i` and `i + 1` exchanged.
pub open spec fn swap_with_next<T>(s: Seq<T>, i: int) -> Seq<T> {
    s.update(i, s[i + 1]).update(i + 1, s[i])
}

/// The file cursor after the list shrank or grew to `len` entries.
pub open spec fn clamped_cursor(cursor: usize, len: nat) -> usize {
    if cursor >= len {
        if len == 0 {
            0
        } else {
            (len - 1) as usize
        }
    } else {
        cursor
    }
}

impl App {
    /// The input of a rule is in a consistent state.
    pub open spec fn input_valid(self) -> bool {
        input_pair_valid(self.rule_input_mode, self.rule_input_step)
    }

    /// The state's invariant: rule entry is consistent, the rule cursor
    /// points at a rule or just past the last one, and the file cursor points
    /// at a file (or is 0 when there are none).
    pub open spec fn well_formed(self) -> bool {
        &&& self.input_valid()
        &&& self.rule_cursor <= self.rules@.len()
        &&& (self.file_cursor == 0 || self.file_cursor < self.files@.len())
    }

    /// The file list, the directory and the file cursor are the same in
    /// `self` and `other`.
    pub open spec fn same_files(self, other: App) -> bool {
        &&& self.current_dir == other.current_dir
        &&& self.files == other.files
        &&& self.file_cursor == other.file_cursor
    }

    /// The rule list and rule cursor are the same.
    pub open spec fn same_rules(self, other: App) -> bool {
        &&& self.rules == other.rules
        &&& self.rule_cursor == other.rule_cursor
    }

    /// Everything about the rule being entered is the same.
    pub open spec fn same_input(self, other: App) -> bool {
        &&& self.rule_input_mode == other.rule_input_mode
        &&& self.rule_input_step == other.rule_input_step
        &&& self.rule_input_buffer == other.rule_input_buffer
        &&& self.find_replace_find == other.find_replace_find
        &&& self.find_replace_replace == other.find_replace_replace
        &&& self.numbering_start == other.numbering_start
        &&& self.numbering_width == other.numbering_width
    }

    /// The running flag, the active panel and both messages are the same.
    pub open spec fn same_screen(self, other: App) -> bool {
        &&& self.running == other.running
        &&& self.active_panel == other.active_panel
        &&& self.status_msg == other.status_msg
        &&& self.error_msg == other.error_msg
    }

    /// Nothing about rule entry is in progress.
    pub open spec fn input_cleared(self) -> bool {
        &&& self.rule_input_mode == RuleInputMode::Idle
        &&& self.rule_input_step == RuleInputStep::Waiting
        &&& self.rule_input_buffer@.len() == 0
        &&& self.find_replace_find is None
        &&& self.find_replace_replace is None
        &&& self.numbering_start is None
        &&& self.numbering_width is None
    }

    /// A renaming run over the listed files with the current rules stays
    /// within `u32` for the file index and every numbering rule.
    pub open spec fn rename_allowed(self) -> bool {
        forall|k: int| 0 <= k < self.files.len() ==> #[trigger] index_usable(self.rules@, k)
    }

    /// The state at start-up in `current_dir`, whose entries are `entries`.
    pub fn new(current_dir: std::path::PathBuf, entries: Vec<String>) -> (app: App)
        ensures
            app.running,
            app.current_dir == current_dir,
            sorted_names(app.files@),
            app.files@.to_multiset() == visible_names(entries@).to_multiset(),
            app.file_cursor == 0,
            app.rules@.len() == 0,
            app.rule_cursor == 0,
            app.active_panel == Panel::Files,
            app.status_msg@ == welcome_text(),
            app.error_msg is None,
            app.input_cleared(),
            app.well_formed(),
    {
        let files = listed_files(entries);
        App {
            running: true,
            current_dir,
            files,
            file_cursor: 0,
            rules: Vec::new(),
            rule_cursor: 0,
            active_panel: Panel::Files,
            status_msg: string_from(
                "erm - EncryptedData's Re Namer | j/k:navigate  h/l:panel  f/p/s/c/r/n:add rule  d:del  J/K:move  r:dry-run  R:rename  q:quit",
            ),
            error_msg: None,
            rule_input_mode: RuleInputMode::Idle,
            rule_input_buffer: String::new(),
            rule_input_step: RuleInputStep::Waiting,
            find_replace_find: None,
            find_replace_replace: None,
            numbering_start: None,
            numbering_width: None,
        }
    }

    /// Replaces the file list with the listed entries of the directory
    /// (`entries`, as read from disk) and keeps the file cursor on the list.
    pub fn refresh_files(&mut self, entries: Vec<String>)
        ensures
            sorted_names(final(self).files@),
            final(self).files@.to_multiset() == visible_names(entries@).to_multiset(),
            final(self).file_cursor == clamped_cursor(
                old(self).file_cursor,
                final(self).files@.len(),
            ),
            final(self).current_dir == old(self).current_dir,
            final(self).same_rules(*old(self)),
            final(self).same_input(*old(self)),
            final(self).same_screen(*old(self)),
            old(self).well_formed() ==> final(self).well_formed(),
    {
        self.files = listed_files(entries);
        if self.file_cursor >= self.files.len() {
            self.file_cursor = self.files.len().saturating_sub(1);
        }
    }

    /// The renaming the current rules make of every listed file: pairs of
    /// old and new name, in list order, the file at position `k` numbered
    /// `k`. A dry run and a real run get the same plan; `dry_run` only says
    /// whether the caller goes on to rename on disk.
    pub fn rename_files(&self, dry_run: bool) -> (r: Vec<(String, String)>)
        requires
            self.rename_allowed(),
        ensures
            r@.len() == self.files@.len(),
            forall|k: int|
                0 <= k < r@.len() ==> {
                    &&& (#[trigger] r@[k]).0@ == self.files@[k]@
                    &&& r@[k].1@ == apply_rules_spec(self.files@[k]@, self.rules@, k as u32)
                },
    {
        let mut results: Vec<(String, String)> = Vec::new();
        let mut k: usize = 0;
        while k < self.files.len()
            invariant
                k <= self.files@.len(),
                self.rename_allowed(),
                results@.len() == k,
                forall|j: int|
                    0 <= j < k ==> {
                        &&& (#[trigger] results@[j]).0@ == self.files@[j]@
                        &&& results@[j].1@ == apply_rules_spec(
                            self.files@[j]@,
                            self.rules@,
                            j as u32,
                        )
                    },
            decreases self.files.len() - k,
        {
            let old_name = &self.files[k];
            assert(index_usable(self.rules@, k as int));
            let file_index: u32 = k as u32;
            let new_name = apply_rules(old_name.as_str(), self.rules.as_slice(), file_index);
            results.push((old_name.clone(), new_name));
            k = k + 1;
        }
        results
    }

    /// Whether a renaming run may go ahead (see [`App::rename_allowed`]).
    pub fn can_rename(&self) -> (r: bool)
        ensures
            r == self.rename_allowed(),
    {
        let n = self.files.len();
        if n == 0 {
            return true;
        }
        if n - 1 > u32::MAX as usize {
            assert(!index_usable(self.rules@, n - 1));
            return false;
        }
        let top: u32 = (n - 1) as u32;
        let ok = crate::rules::rules_fit_index(self.rules.as_slice(), top);
        proof {
            if ok {
                assert forall|k: int| 0 <= k < self.files@.len() implies #[trigger] index_usable(
                    self.rules@,
                    k,
                ) by {
                    assert forall|j: int| 0 <= j < self.rules@.len() implies index_fits(
                        #[trigger] self.rules@[j],
                        k as u32,
                    ) by {
                        assert(index_fits(self.rules@[j], top));
                    }
                }
            } else {
                assert(!index_usable(self.rules@, n - 1));
            }
        }
        ok
    }

    /// Notes that renaming `old_name` failed for `reason`.
    pub fn record_rename_error(&mut self, old_name: &str, reason: &str)
        ensures
            final(self).error_msg matches Some(m) && m@ == "Failed to rename '"@ + old_name@
                + "': "@ + reason@,
            final(self).same_files(*old(self)),
            final(self).same_rules(*old(self)),
            final(self).same_input(*old(self)),
            final(self).running == old(self).running,
            final(self).active_panel == old(self).active_panel,
            final(self).status_msg == old(self).status_msg,
    {
        let mut m = string_from("Failed to rename '");
        push_str_chars(&mut m, old_name);
        push_str_chars(&mut m, "': ");
        push_str_chars(&mut m, reason);
        self.error_msg = Some(m);
    }

    /// Appends `rule` to the rule list and puts the rule cursor just past it.
    pub fn add_rule(&mut self, rule: RenameRule)
        ensures
            final(self).rules@ == old(self).rules@.push(rule),
            final(self).rules@.drop_last() == old(self).rules@,
            final(self).rules@.last() == rule,
            final(self).rule_cursor == final(self).rules@.len(),
            final(self).status_msg@ == "Rule added."@,
            final(self).same_files(*old(self)),
            final(self).same_input(*old(self)),
            final(self).running == old(self).running,
            final(self).active_panel == old(self).active_panel,
            final(self).error_msg == old(self).error_msg,
    {
        self.rules.push(rule);
        assert(self.rules@.drop_last() =~= old(self).rules@);
        self.rule_cursor = self.rules.len();
        self.status_msg = string_from("Rule added.");
    }

    /// Deletes the rule under the cursor, if the cursor is on a rule.
    pub fn remove_rule(&mut self)
        ensures
            old(self).rule_cursor < old(self).rules@.len() ==> {
                &&& final(self).rules@ == old(self).rules@.remove(old(self).rule_cursor as int)
                &&& final(self).status_msg@ == "Rule removed."@
            },
            old(self).rule_cursor >= old(self).rules@.len() ==> {
                &&& final(self).rules == old(self).rules
                &&& final(self).status_msg == old(self).status_msg
            },
            final(self).rule_cursor == old(self).rule_cursor,
            final(self).same_files(*old(self)),
            final(self).same_input(*old(self)),
            final(self).running == old(self).running,
            final(self).active_panel == old(self).active_panel,
            final(self).error_msg == old(self).error_msg,
    {
        if self.rule_cursor < self.rules.len() {
            self.rules.remove(self.rule_cursor);
            self.status_msg = string_from("Rule removed.");
        }
    }

    /// Swaps the rule under the cursor with the one above it and follows it.
    pub fn move_rule_up(&mut self)
        requires
            old(self).rule_cursor > 0 ==> old(self).rule_cursor < old(self).rules@.len(),
        ensures
            old(self).rule_cursor > 0 ==> {
                let c = old(self).rule_cursor as int;
                &&& final(self).rules@ == swap_with_next(old(self).rules@, c - 1)
                &&& final(self).rule_cursor == c - 1
            },
            old(self).rule_cursor == 0 ==> final(self).same_rules(*old(self)),
            final(self).same_files(*old(self)),
            final(self).same_input(*old(self)),
            final(self).same_screen(*old(self)),
    {
        if self.rule_cursor > 0 {
            let c = self.rule_cursor;
            let ghost before = self.rules@;
            let x = self.rules.remove(c);
            self.rules.insert(c - 1, x);
            assert(self.rules@ =~= swap_with_next(before, c - 1));
            self.rule_cursor = c - 1;
        }
    }

    /// Swaps the rule under the cursor with the one below it and follows it.
    pub fn move_rule_down(&mut self)
        requires
            old(self).rules@.len() > 0,
        ensures
            old(self).rule_cursor < old(self).rules@.len() - 1 ==> {
                let c = old(self).rule_cursor as int;
                &&& final(self).rules@ == swap_with_next(old(self).rules@, c)
                &&& final(self).rule_cursor == c + 1
            },
            old(self).rule_cursor >= old(self).rules@.len() - 1 ==> final(self).same_rules(
                *old(self),
            ),
            final(self).same_files(*old(self)),
            final(self).same_input(*old(self)),
            final(self).same_screen(*old(self)),
    {
        if self.rule_cursor < self.rules.len() - 1 {
            let c = self.rule_cursor;
            let ghost before = self.rules@;
            let x = self.rules.remove(c);
            self.rules.insert(c + 1, x);
            assert(self.rules@ =~= swap_with_next(before, c as int));
            self.rule_cursor = c + 1;
        }
    }

    /// Abandons the rule being entered.
    pub fn clear_input(&mut self)
        ensures
            final(self).input_cleared(),
            final(self).same_files(*old(self)),
            final(self).same_rules(*old(self)),
            final(self).same_screen(*old(self)),
    {
        self.rule_input_mode = RuleInputMode::Idle;
        self.rule_input_step = RuleInputStep::Waiting;
        self.rule_input_buffer = String::new();
        self.find_replace_find = None;
        self.find_replace_replace = None;
        self.numbering_start = None;
        self.numbering_width = None;
    }
}

/// Moving a rule up and then down again restores the rule list and the
/// cursor: for a cursor `c` with `0 < c < len`, moving up swaps `c - 1` and
/// `c` and leaves the cursor at `c - 1`, where moving down swaps the same two
/// rules back and returns the cursor to `c`.
pub proof fn lemma_move_up_then_down(rules: Seq<RenameRule>, c: int)
    requires
        0 < c < rules.len(),
    ensures
        c - 1 < rules.len() - 1,
        swap_with_next(swap_with_next(rules, c - 1), c - 1) == rules,
        (c - 1) + 1 == c,
{
    assert(swap_with_next(swap_with_next(rules, c - 1), c - 1) =~= rules);
}

/// Moving a rule down and then up again restores the rule list and the
/// cursor: for a cursor `c` with `c + 1 < len`, moving down leaves the cursor
/// at `c + 1`, where moving up swaps the same two rules back.
pub proof fn lemma_move_down_then_up(rules: Seq<RenameRule>, c: int)
    requires
        0 <= c,
        c + 1 < rules.len(),
    ensures
        0 < c + 1 < rules.len(),
        swap_with_next(swap_with_next(rules, c), (c + 1) - 1) == rules,
{
    assert(swap_with_next(swap_with_next(rules, c), c) =~= rules);
}

} // verus!
