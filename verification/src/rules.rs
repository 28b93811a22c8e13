//! Rename rules and how they rewrite a file name.
//!
//! A file name is split at its last `.` into a stem and an extension; a rule
//! rewrites the stem and the extension is put back.

use vstd::prelude::*;
use vstd::string::StrSliceExecFns;
use crate::text::{
    chars_of, push_chars, push_str_chars, string_from, string_of, replace_chars, replace_all,
};
use crate::number::{decimal, decimal_chars, pad_zeros, pad_zeros_chars};
pub use crate::casing::{CaseTransform, apply_case, case_of};

verus! {

/// One step of a renaming.
#[derive(Debug, Clone)]
pub enum RenameRule {
    /// Replace every occurrence of `find` by `replace`.
    FindReplace { find: String, replace: String },
    /// Replace every match of the regular expression `pattern` by
    /// `replacement` (which may refer to capture groups).
    FindReplaceRegex { pattern: String, replacement: String },
    /// Put a string in front of the stem.
    AddPrefix(String),
    /// Put a string after the stem.
    AddSuffix(String),
    /// Change the letter case of the stem.
    ChangeCase(CaseTransform),
    /// Delete every match of a regular expression, or of the literal text
    /// when it is not a valid regular expression.
    RemovePattern(String),
    /// Replace `placeholder` by the number `start + index`, zero-padded to
    /// `width` digits.
    Numbering { start: u32, width: usize, placeholder: String },
}

/// Whether `Regex::new` accepts `pattern`.
pub uninterp spec fn regex_compiles(pattern: Seq<char>) -> bool;

/// What `Regex::replace_all` returns for the regex compiled from `pattern`,
/// the haystack and the replacement string.
pub uninterp spec fn regex_replace_all(
    pattern: Seq<char>,
    haystack: Seq<char>,
    replacement: Seq<char>,
) -> Seq<char>;

/// Compiles `pattern` with `regex::Regex::new` and, when that succeeds,
/// replaces every match in `haystack` with `regex::Regex::replace_all`.
/// Claimed: the result is `Some` exactly when the pattern compiles, and its
/// text is the named result of `replace_all`. Both calls depend on their
/// arguments alone; nothing is claimed about what a regex matches.
#[verifier::external_body]
fn regex_replace(pattern: &str, haystack: &str, replacement: &str) -> (r: Option<String>)
    ensures
        r is Some <==> regex_compiles(pattern@),
        r matches Some(s) ==> s@ == regex_replace_all(pattern@, haystack@, replacement@),
{
    match regex::Regex::new(pattern) {
        Ok(re) => Some(re.replace_all(haystack, replacement).into_owned()),
        Err(_) => None,
    }
}

/// The position of the last occurrence of `c` in `s`.
pub open spec fn last_index_of(s: Seq<char>, c: char) -> Option<int>
    decreases s.len(),
{
    if s.len() == 0 {
        None
    } else if s.last() == c {
        Some(s.len() - 1)
    } else {
        last_index_of(s.drop_last(), c)
    }
}

/// A file name split into stem and extension at its last `.`; a name whose
/// only `.` is its first character, or that has none, has no extension.
pub open spec fn split_name(s: Seq<char>) -> (Seq<char>, Seq<char>) {
    match last_index_of(s, '.') {
        Some(d) => if d > 0 {
            (s.take(d), s.skip(d + 1))
        } else {
            (s, Seq::<char>::empty())
        },
        None => (s, Seq::<char>::empty()),
    }
}

/// Stem and extension put back together, with a `.` between them unless the
/// extension is empty.
pub open spec fn join_name(stem: Seq<char>, ext: Seq<char>) -> Seq<char> {
    if ext.len() == 0 {
        stem
    } else {
        stem + seq!['.'] + ext
    }
}

/// Whether numbering with `rule` at position `index` stays within `u32`.
pub open spec fn index_fits(rule: RenameRule, index: u32) -> bool {
    match rule {
        RenameRule::Numbering { start, .. } => start + index <= u32::MAX,
        _ => true,
    }
}

/// Whether every rule of `rules` can number position `index`.
pub open spec fn rules_fit(rules: Seq<RenameRule>, index: u32) -> bool {
    forall|k: int| 0 <= k < rules.len() ==> index_fits(#[trigger] rules[k], index)
}

/// The stem that `rule` makes of `stem` for the file at position `index`.
pub open spec fn stem_result(rule: RenameRule, stem: Seq<char>, index: u32) -> Seq<char> {
    match rule {
        RenameRule::FindReplace { find, replace } => replace_all(stem, find@, replace@),
        RenameRule::FindReplaceRegex { pattern, replacement } => if regex_compiles(pattern@) {
            regex_replace_all(pattern@, stem, replacement@)
        } else {
            stem
        },
        RenameRule::AddPrefix(s) => s@ + stem,
        RenameRule::AddSuffix(s) => stem + s@,
        RenameRule::ChangeCase(t) => case_of(stem, t),
        RenameRule::RemovePattern(s) => if regex_compiles(s@) {
            regex_replace_all(s@, stem, Seq::<char>::empty())
        } else {
            replace_all(stem, s@, Seq::<char>::empty())
        },
        RenameRule::Numbering { start, width, placeholder } => replace_all(
            stem,
            placeholder@,
            pad_zeros(decimal((start + index) as nat), width as nat),
        ),
    }
}

/// The file name that `rule` makes of `filename` at position `index`.
pub open spec fn apply_spec(rule: RenameRule, filename: Seq<char>, index: u32) -> Seq<char> {
    let (stem, ext) = split_name(filename);
    join_name(stem_result(rule, stem, index), ext)
}

/// The file name after applying `rules` in order.
pub open spec fn apply_rules_spec(filename: Seq<char>, rules: Seq<RenameRule>, index: u32) -> Seq<
    char,
>
    decreases rules.len(),
{
    if rules.len() == 0 {
        filename
    } else {
        apply_spec(rules.last(), apply_rules_spec(filename, rules.drop_last(), index), index)
    }
}

/// Splits `filename` at its last `.` into stem and extension.
pub fn split_filename(filename: &str) -> (r: (String, String))
    ensures
        (r.0@, r.1@) == split_name(filename@),
{
    let cs = chars_of(filename);
    let mut k: usize = cs.len();
    assert(cs@.take(k as int) =~= cs@);
    while k > 0 && cs[k - 1] != '.'
        invariant
            k <= cs.len(),
            cs@ == filename@,
            last_index_of(cs@, '.') == last_index_of(cs@.take(k as int), '.'),
        decreases k,
    {
        assert(cs@.take(k as int).drop_last() =~= cs@.take(k - 1));
        k = k - 1;
    }
    if k > 1 {
        let dot = k - 1;
        assert(cs@.take(k as int).last() == '.');
        assert(last_index_of(cs@, '.') == Some(dot as int));
        let stem = filename.substring_char(0, dot);
        let ext = filename.substring_char(dot + 1, cs.len());
        assert(stem@ =~= filename@.take(dot as int));
        assert(ext@ =~= filename@.skip(dot + 1));
        (string_from(stem), string_from(ext))
    } else {
        proof {
            if k == 1 {
                assert(cs@.take(1).last() == '.');
                assert(last_index_of(cs@, '.') == Some(0int));
            } else {
                assert(cs@.take(0).len() == 0);
            }
        }
        let e = String::new();
        assert(e@ =~= Seq::<char>::empty());
        (string_from(filename), e)
    }
}

/// Whether `rule` rewrites the stem with a regular expression.
pub open spec fn is_regex_rule(rule: RenameRule) -> bool {
    rule is FindReplaceRegex || rule is RemovePattern
}

/// The stem a regex rule makes of `stem`, given what compiling its pattern
/// and replacing every match gave (`None` when the pattern does not
/// compile): the replaced text, or else the stem unchanged for a
/// find/replace rule and the stem with the pattern removed as literal text
/// for a removal rule.
pub open spec fn regex_stem(rule: RenameRule, stem: Seq<char>, outcome: Option<Seq<char>>) -> Seq<
    char,
> {
    match outcome {
        Some(t) => t,
        None => match rule {
            RenameRule::RemovePattern(s) => replace_all(stem, s@, Seq::<char>::empty()),
            _ => stem,
        },
    }
}

/// The stem a regex rule makes of `stem`, given the outcome of the regex
/// replacement (`None` when the pattern did not compile).
pub fn regex_rule_stem(rule: &RenameRule, stem: &str, outcome: Option<String>) -> (r: String)
    requires
        is_regex_rule(*rule),
    ensures
        r@ == regex_stem(
            *rule,
            stem@,
            match outcome {
                Some(t) => Some(t@),
                None => None,
            },
        ),
{
    match outcome {
        Some(t) => t,
        None => match rule {
            RenameRule::RemovePattern(s) => {
                let cs = chars_of(stem);
                let pat = chars_of(s.as_str());
                let empty: Vec<char> = Vec::new();
                string_of(&replace_chars(&cs, &pat, &empty))
            },
            _ => string_from(stem),
        },
    }
}

impl RenameRule {
    /// The one-line description of the rule shown in the rules list.
    pub open spec fn describe_spec(self) -> Seq<char> {
        match self {
            RenameRule::FindReplace { find, replace } => "find '"@ + find@ + "' \u{2192} '"@
                + replace@ + "'"@,
            RenameRule::FindReplaceRegex { pattern, replacement } => "[rx]find '"@ + pattern@
                + "' \u{2192} '"@ + replacement@ + "'"@,
            RenameRule::AddPrefix(s) => "prefix '"@ + s@ + "'"@,
            RenameRule::AddSuffix(s) => "suffix '"@ + s@ + "'"@,
            RenameRule::ChangeCase(t) => "case "@ + t.label_spec(),
            RenameRule::RemovePattern(s) => "remove '"@ + s@ + "'"@,
            RenameRule::Numbering { start, placeholder, .. } => "number "@ + decimal(start as nat)
                + ".. ("@ + placeholder@ + ")"@,
        }
    }

    /// The one-line description of the rule shown in the rules list, such as
    /// `prefix 'new_'` or `number 1.. (##)`.
    pub fn describe(&self) -> (r: String)
        ensures
            r@ == self.describe_spec(),
    {
        match self {
            RenameRule::FindReplace { find, replace } => {
                let mut r = string_from("find '");
                push_str_chars(&mut r, find.as_str());
                push_str_chars(&mut r, "' \u{2192} '");
                push_str_chars(&mut r, replace.as_str());
                push_str_chars(&mut r, "'");
                r
            },
            RenameRule::FindReplaceRegex { pattern, replacement } => {
                let mut r = string_from("[rx]find '");
                push_str_chars(&mut r, pattern.as_str());
                push_str_chars(&mut r, "' \u{2192} '");
                push_str_chars(&mut r, replacement.as_str());
                push_str_chars(&mut r, "'");
                r
            },
            RenameRule::AddPrefix(s) => {
                let mut r = string_from("prefix '");
                push_str_chars(&mut r, s.as_str());
                push_str_chars(&mut r, "'");
                r
            },
            RenameRule::AddSuffix(s) => {
                let mut r = string_from("suffix '");
                push_str_chars(&mut r, s.as_str());
                push_str_chars(&mut r, "'");
                r
            },
            RenameRule::ChangeCase(t) => {
                let mut r = string_from("case ");
                let l = t.label();
                push_str_chars(&mut r, l.as_str());
                r
            },
            RenameRule::RemovePattern(s) => {
                let mut r = string_from("remove '");
                push_str_chars(&mut r, s.as_str());
                push_str_chars(&mut r, "'");
                r
            },
            RenameRule::Numbering { start, placeholder, .. } => {
                let mut r = string_from("number ");
                push_chars(&mut r, &decimal_chars(*start as u64));
                push_str_chars(&mut r, ".. (");
                push_str_chars(&mut r, placeholder.as_str());
                push_str_chars(&mut r, ")");
                r
            },
        }
    }

    /// The stem that this rule makes of `stem` for the file at position
    /// `index`.
    fn apply_stem(&self, stem: &str, index: u32) -> (r: String)
        requires
            index_fits(*self, index),
        ensures
            r@ == stem_result(*self, stem@, index),
    {
        match self {
            RenameRule::FindReplace { find, replace } => {
                let s = chars_of(stem);
                let f = chars_of(find.as_str());
                let p = chars_of(replace.as_str());
                string_of(&replace_chars(&s, &f, &p))
            },
            RenameRule::FindReplaceRegex { pattern, replacement } => {
                let outcome = regex_replace(pattern.as_str(), stem, replacement.as_str());
                regex_rule_stem(self, stem, outcome)
            },
            RenameRule::AddPrefix(s) => {
                let mut r = string_from(s.as_str());
                push_str_chars(&mut r, stem);
                r
            },
            RenameRule::AddSuffix(s) => {
                let mut r = string_from(stem);
                push_str_chars(&mut r, s.as_str());
                r
            },
            RenameRule::ChangeCase(t) => apply_case(stem, t),
            RenameRule::RemovePattern(s) => {
                let outcome = regex_replace(s.as_str(), stem, "");
                proof {
                    assert(""@ =~= Seq::<char>::empty()) by {
                        reveal_strlit("");
                    }
                }
                regex_rule_stem(self, stem, outcome)
            },
            RenameRule::Numbering { start, width, placeholder } => {
                let n: u32 = *start + index;
                let digits = pad_zeros_chars(&decimal_chars(n as u64), *width);
                let cs = chars_of(stem);
                let pat = chars_of(placeholder.as_str());
                string_of(&replace_chars(&cs, &pat, &digits))
            },
        }
    }

    /// Renames `filename` (the file at position `index`): the rule rewrites
    /// the stem and the extension is kept.
    pub fn apply(&self, filename: &str, index: u32) -> (r: String)
        requires
            index_fits(*self, index),
        ensures
            r@ == apply_spec(*self, filename@, index),
            self matches RenameRule::FindReplaceRegex { pattern, replacement } ==> r@ == join_name(
                if regex_compiles(pattern@) {
                    regex_replace_all(pattern@, split_name(filename@).0, replacement@)
                } else {
                    split_name(filename@).0
                },
                split_name(filename@).1,
            ),
    {
        let (name, ext) = split_filename(filename);
        let mut new_name = self.apply_to_stem(name.as_str(), index);
        if ext.as_str().is_empty() {
            new_name
        } else {
            new_name.push('.');
            push_str_chars(&mut new_name, ext.as_str());
            new_name
        }
    }

    /// Applies the rule to a bare stem, with no extension handling.
    pub fn apply_to_stem(&self, stem: &str, index: u32) -> (r: String)
        requires
            index_fits(*self, index),
        ensures
            r@ == stem_result(*self, stem@, index),
            self matches RenameRule::FindReplaceRegex { pattern, replacement } ==> r@ == if regex_compiles(
                pattern@,
            ) {
                regex_replace_all(pattern@, stem@, replacement@)
            } else {
                stem@
            },
            self matches RenameRule::RemovePattern(p) ==> r@ == if regex_compiles(p@) {
                regex_replace_all(p@, stem@, Seq::<char>::empty())
            } else {
                replace_all(stem@, p@, Seq::<char>::empty())
            },
    {
        self.apply_stem(stem, index)
    }
}

/// Whether every rule of `rules` can number the file at position `index`
/// without leaving `u32`.
pub fn rules_fit_index(rules: &[RenameRule], index: u32) -> (r: bool)
    ensures
        r == rules_fit(rules@, index),
{
    let mut k: usize = 0;
    while k < rules.len()
        invariant
            k <= rules@.len(),
            forall|j: int| 0 <= j < k ==> index_fits(#[trigger] rules@[j], index),
        decreases rules.len() - k,
    {
        match &rules[k] {
            RenameRule::Numbering { start, .. } => {
                if index > u32::MAX - *start {
                    assert(!index_fits(rules@[k as int], index));
                    return false;
                }
            },
            _ => {},
        }
        k = k + 1;
    }
    true
}

/// Applies `rules` to `filename` one after the other, for the file at
/// position `index`.
pub fn apply_rules(filename: &str, rules: &[RenameRule], index: u32) -> (r: String)
    requires
        rules_fit(rules@, index),
    ensures
        r@ == apply_rules_spec(filename@, rules@, index),
{
    let mut result = string_from(filename);
    let mut i: usize = 0;
    assert(rules@.take(0) =~= Seq::<RenameRule>::empty());
    while i < rules.len()
        invariant
            i <= rules@.len(),
            rules_fit(rules@, index),
            result@ == apply_rules_spec(filename@, rules@.take(i as int), index),
        decreases rules.len() - i,
    {
        assert(rules@.take(i + 1).drop_last() =~= rules@.take(i as int));
        assert(index_fits(rules@[i as int], index));
        result = rules[i].apply(result.as_str(), index);
        i = i + 1;
    }
    assert(rules@.take(rules@.len() as int) =~= rules@);
    result
}

/// Applying no rules leaves a file name as it is.
pub proof fn lemma_no_rules_identity(filename: Seq<char>, index: u32)
    ensures
        apply_rules_spec(filename, Seq::<RenameRule>::empty(), index) == filename,
{
}

/// Applying the rule list `first + second` is applying `first`, then
/// applying `second` to the outcome.
pub proof fn lemma_apply_rules_concat(
    filename: Seq<char>,
    first: Seq<RenameRule>,
    second: Seq<RenameRule>,
    index: u32,
)
    ensures
        apply_rules_spec(filename, first + second, index) == apply_rules_spec(
            apply_rules_spec(filename, first, index),
            second,
            index,
        ),
    decreases second.len(),
{
    if second.len() == 0 {
        assert(first + second =~= first);
    } else {
        lemma_apply_rules_concat(filename, first, second.drop_last(), index);
        assert((first + second).drop_last() =~= first + second.drop_last());
        assert((first + second).last() == second.last());
    }
}

/// Nothing after the last occurrence of `c` is `c`.
pub proof fn lemma_last_index_of_is_last(s: Seq<char>, c: char)
    ensures
        match last_index_of(s, c) {
            Some(d) => 0 <= d < s.len() && s[d] == c && forall|j: int|
                d < j < s.len() ==> s[j] != c,
            None => forall|j: int| 0 <= j < s.len() ==> s[j] != c,
        },
    decreases s.len(),
{
    if s.len() > 0 && s.last() != c {
        let t = s.drop_last();
        lemma_last_index_of_is_last(t, c);
        assert(forall|j: int| 0 <= j < t.len() ==> s[j] == #[trigger] t[j]);
        match last_index_of(t, c) {
            Some(d) => {
                assert forall|j: int| d < j < s.len() implies s[j] != c by {
                    if j < t.len() {
                        assert(s[j] == t[j]);
                    }
                }
            },
            None => {
                assert forall|j: int| 0 <= j < s.len() implies s[j] != c by {
                    if j < t.len() {
                        assert(s[j] == t[j]);
                    }
                }
            },
        }
    }
}

/// In `prefix + [c] + rest`, where `rest` holds no `c`, the last `c` is the
/// one after `prefix`.
pub proof fn lemma_last_index_of_after(prefix: Seq<char>, c: char, rest: Seq<char>)
    requires
        forall|j: int| 0 <= j < rest.len() ==> rest[j] != c,
    ensures
        last_index_of(prefix + seq![c] + rest, c) == Some(prefix.len() as int),
    decreases rest.len(),
{
    let s = prefix + seq![c] + rest;
    if rest.len() == 0 {
        assert(s.last() == c);
    } else {
        assert(s.last() == rest.last());
        assert(s.drop_last() =~= prefix + seq![c] + rest.drop_last());
        lemma_last_index_of_after(prefix, c, rest.drop_last());
    }
}

/// Splitting a file name and putting stem and extension back together gives
/// the name again, unless the name has two or more characters and ends in
/// `.` (that trailing `.` is dropped).
pub proof fn lemma_split_join(filename: Seq<char>)
    requires
        !(filename.len() >= 2 && filename.last() == '.'),
    ensures
        join_name(split_name(filename).0, split_name(filename).1) == filename,
{
    lemma_last_index_of_is_last(filename, '.');
    match last_index_of(filename, '.') {
        Some(d) => {
            if d > 0 {
                assert(filename.take(d) + seq!['.'] + filename.skip(d + 1) =~= filename);
            }
        },
        None => {},
    }
}

/// A rule keeps the extension: when the name has one and the rewritten stem
/// is not empty, splitting the new name gives back the new stem and the same
/// extension.
pub proof fn lemma_rule_keeps_extension(rule: RenameRule, filename: Seq<char>, index: u32)
    requires
        split_name(filename).1.len() > 0,
        stem_result(rule, split_name(filename).0, index).len() > 0,
    ensures
        split_name(apply_spec(rule, filename, index)) == (
            stem_result(rule, split_name(filename).0, index),
            split_name(filename).1,
        ),
{
    let (stem, ext) = split_name(filename);
    let new_stem = stem_result(rule, stem, index);
    lemma_last_index_of_is_last(filename, '.');
    let d = last_index_of(filename, '.')->0;
    assert(forall|j: int| 0 <= j < ext.len() ==> ext[j] == filename[d + 1 + j]);
    lemma_last_index_of_after(new_stem, '.', ext);
    let r = new_stem + seq!['.'] + ext;
    assert(r.take(new_stem.len() as int) =~= new_stem);
    assert(r.skip(new_stem.len() as int + 1) =~= ext);
}

/// With a non-empty pattern that does not occur in `s`, replacing changes
/// nothing.
pub proof fn lemma_replace_absent(s: Seq<char>, pat: Seq<char>, rep: Seq<char>)
    requires
        pat.len() > 0,
        forall|i: int| 0 <= i <= s.len() ==> !pat.is_prefix_of(#[trigger] s.skip(i)),
    ensures
        replace_all(s, pat, rep) == s,
    decreases s.len(),
{
    if s.len() > 0 {
        assert(s.skip(0) =~= s);
        assert forall|i: int| 0 <= i <= s.skip(1).len() implies !pat.is_prefix_of(
            #[trigger] s.skip(1).skip(i),
        ) by {
            assert(s.skip(1).skip(i) =~= s.skip(1 + i));
        }
        lemma_replace_absent(s.skip(1), pat, rep);
        assert(seq![s[0]] + s.skip(1) =~= s);
    }
}

/// Replacing a non-empty text by itself changes nothing.
pub proof fn lemma_replace_by_itself(s: Seq<char>, pat: Seq<char>)
    requires
        pat.len() > 0,
    ensures
        replace_all(s, pat, pat) == s,
    decreases s.len(),
{
    if s.len() > 0 {
        if pat.is_prefix_of(s) {
            lemma_replace_by_itself(s.skip(pat.len() as int), pat);
            assert(pat + s.skip(pat.len() as int) =~= s);
        } else {
            lemma_replace_by_itself(s.skip(1), pat);
            assert(seq![s[0]] + s.skip(1) =~= s);
        }
    }
}

/// A regex find/replace rule compiles exactly the pattern that was typed
/// and hands the typed replacement to `replace_all`; when the pattern does
/// not compile the stem is kept. The extension is put back either way.
pub proof fn lemma_regex_rule_uses_typed_pattern(
    pattern: String,
    replacement: String,
    filename: Seq<char>,
    index: u32,
)
    ensures
        stem_result(RenameRule::FindReplaceRegex { pattern, replacement }, split_name(filename).0, index)
            == if regex_compiles(pattern@) {
            regex_replace_all(pattern@, split_name(filename).0, replacement@)
        } else {
            split_name(filename).0
        },
        apply_spec(RenameRule::FindReplaceRegex { pattern, replacement }, filename, index)
            == join_name(
            stem_result(
                RenameRule::FindReplaceRegex { pattern, replacement },
                split_name(filename).0,
                index,
            ),
            split_name(filename).1,
        ),
{
}

/// A removal rule deletes the matches of exactly the typed pattern, and
/// when the pattern is not a valid regex it deletes the typed text
/// literally; the extension is put back either way.
pub proof fn lemma_remove_rule_uses_typed_pattern(p: String, stem: Seq<char>, index: u32)
    ensures
        stem_result(RenameRule::RemovePattern(p), stem, index) == if regex_compiles(p@) {
            regex_replace_all(p@, stem, Seq::<char>::empty())
        } else {
            replace_all(stem, p@, Seq::<char>::empty())
        },
{
}

/// The split is at the last `.` that is not the first character: the
/// extension holds no `.`; when the name has a `.` past its first character
/// the name is stem, `.`, extension; otherwise the stem is the whole name
/// and there is no extension.
pub proof fn lemma_split_name_parts(f: Seq<char>)
    ensures
        forall|j: int| 0 <= j < split_name(f).1.len() ==> #[trigger] split_name(f).1[j] != '.',
        (exists|d: int| 0 < d < f.len() && #[trigger] f[d] == '.') ==> f == split_name(f).0
            + seq!['.'] + split_name(f).1,
        !(exists|d: int| 0 < d < f.len() && #[trigger] f[d] == '.') ==> split_name(f).0 == f
            && split_name(f).1.len() == 0,
{
    lemma_last_index_of_is_last(f, '.');
    match last_index_of(f, '.') {
        Some(d) => {
            if d > 0 {
                let ext = f.skip(d + 1);
                assert forall|j: int| 0 <= j < ext.len() implies #[trigger] ext[j] != '.' by {
                    assert(ext[j] == f[d + 1 + j]);
                }
                assert(f.take(d) + seq!['.'] + f.skip(d + 1) =~= f);
            } else {
                assert forall|e: int| 0 < e < f.len() implies #[trigger] f[e] != '.' by {}
            }
        },
        None => {},
    }
}

} // verus!
