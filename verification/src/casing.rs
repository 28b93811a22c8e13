//! Letter-case transforms of file-name stems.
//!
//! Unicode case mapping comes from the standard library; it is named here
//! rather than spelled out (with what it does to ASCII stated), and the
//! transforms are proved over those names. The `White_Space` property, a
//! list of 25 code points, is written out.

use vstd::prelude::*;
use crate::text::{chars_of, push_chars};

verus! {

/// The four letter-case transforms a rule can apply.
#[derive(Debug, Clone, Copy, PartialEq, Eq, Structural)]
pub enum CaseTransform {
    Upper,
    Lower,
    Title,
    Toggle,
}

/// What `char::to_uppercase` yields for `c` (one or more characters).
pub uninterp spec fn char_uppercase(c: char) -> Seq<char>;

/// What `char::to_lowercase` yields for `c` (one or more characters).
pub uninterp spec fn char_lowercase(c: char) -> Seq<char>;

/// What `char::is_uppercase` answers for `c`.
pub uninterp spec fn char_is_uppercase(c: char) -> bool;

/// What `str::to_uppercase` returns for the string `s`.
pub uninterp spec fn str_uppercase(s: Seq<char>) -> Seq<char>;

/// What `str::to_lowercase` returns for the string `s`.
pub uninterp spec fn str_lowercase(s: Seq<char>) -> Seq<char>;

/// Whether `c` is ASCII.
pub open spec fn is_ascii_char(c: char) -> bool {
    c <= '\u{7f}'
}

/// Whether `c` is one of `A`..`Z`.
pub open spec fn is_ascii_upper(c: char) -> bool {
    'A' <= c && c <= 'Z'
}

/// Whether `c` is one of `a`..`z`.
pub open spec fn is_ascii_lower(c: char) -> bool {
    'a' <= c && c <= 'z'
}

/// `c` with `a`..`z` mapped to `A`..`Z`.
pub open spec fn ascii_to_upper(c: char) -> char {
    if is_ascii_lower(c) {
        ((c as u32) - 32) as char
    } else {
        c
    }
}

/// `c` with `A`..`Z` mapped to `a`..`z`.
pub open spec fn ascii_to_lower(c: char) -> char {
    if is_ascii_upper(c) {
        ((c as u32) + 32) as char
    } else {
        c
    }
}

/// Whether every character of `s` is ASCII.
pub open spec fn all_ascii(s: Seq<char>) -> bool {
    forall|i: int| 0 <= i < s.len() ==> is_ascii_char(#[trigger] s[i])
}

/// `s` with every character mapped by `ascii_to_upper`.
pub open spec fn ascii_upper_str(s: Seq<char>) -> Seq<char> {
    Seq::new(s.len(), |i: int| ascii_to_upper(s[i]))
}

/// `s` with every character mapped by `ascii_to_lower`.
pub open spec fn ascii_lower_str(s: Seq<char>) -> Seq<char> {
    Seq::new(s.len(), |i: int| ascii_to_lower(s[i]))
}

/// Calls `char::to_uppercase`; the characters it yields are named
/// `char_uppercase(c)`. Also claimed: an ASCII character yields the single
/// character that `char::to_ascii_uppercase` gives (its documentation sends
/// callers to `to_uppercase` for the same mapping extended beyond ASCII).
#[verifier::external_body]
fn upper_of_char(c: char) -> (r: Vec<char>)
    ensures
        r@ == char_uppercase(c),
        is_ascii_char(c) ==> r@ == seq![ascii_to_upper(c)],
{
    c.to_uppercase().collect()
}

/// Calls `char::to_lowercase`; the characters it yields are named
/// `char_lowercase(c)`. Also claimed: an ASCII character yields the single
/// character that `char::to_ascii_lowercase` gives.
#[verifier::external_body]
fn lower_of_char(c: char) -> (r: Vec<char>)
    ensures
        r@ == char_lowercase(c),
        is_ascii_char(c) ==> r@ == seq![ascii_to_lower(c)],
{
    c.to_lowercase().collect()
}

/// Whether `c` has the Unicode `White_Space` property, which is what
/// `char::is_whitespace` answers.
pub open spec fn is_white_space(c: char) -> bool {
    ||| ('\u{9}' <= c && c <= '\u{d}')
    ||| c == '\u{20}'
    ||| c == '\u{85}'
    ||| c == '\u{a0}'
    ||| c == '\u{1680}'
    ||| ('\u{2000}' <= c && c <= '\u{200a}')
    ||| c == '\u{2028}'
    ||| c == '\u{2029}'
    ||| c == '\u{202f}'
    ||| c == '\u{205f}'
    ||| c == '\u{3000}'
}

/// Whether `c` is white space, as `char::is_whitespace` answers.
pub fn is_whitespace_char(c: char) -> (b: bool)
    ensures
        b == is_white_space(c),
{
    ('\u{9}' <= c && c <= '\u{d}') || c == '\u{20}' || c == '\u{85}' || c == '\u{a0}' || c
        == '\u{1680}' || ('\u{2000}' <= c && c <= '\u{200a}') || c == '\u{2028}' || c
        == '\u{2029}' || c == '\u{202f}' || c == '\u{205f}' || c == '\u{3000}'
}

/// Calls `char::is_uppercase`; its answer is named `char_is_uppercase(c)`.
/// Also claimed: among ASCII characters exactly `A`..`Z` have the Unicode
/// `Uppercase` property that it tests.
#[verifier::external_body]
fn is_uppercase_char(c: char) -> (b: bool)
    ensures
        b == char_is_uppercase(c),
        is_ascii_char(c) ==> (b == is_ascii_upper(c)),
{
    c.is_uppercase()
}

/// Calls `str::to_uppercase`; its result is named `str_uppercase(s)`. Also
/// claimed: an ASCII string is upper-cased character by character as
/// `str::to_ascii_uppercase` does (its documentation sends callers to
/// `to_uppercase` for the same mapping extended beyond ASCII).
#[verifier::external_body]
fn upper_of_str(s: &str) -> (r: String)
    ensures
        r@ == str_uppercase(s@),
        all_ascii(s@) ==> r@ == ascii_upper_str(s@),
{
    s.to_uppercase()
}

/// Calls `str::to_lowercase`; its result is named `str_lowercase(s)`. Also
/// claimed: an ASCII string is lower-cased character by character as
/// `str::to_ascii_lowercase` does.
#[verifier::external_body]
fn lower_of_str(s: &str) -> (r: String)
    ensures
        r@ == str_lowercase(s@),
        all_ascii(s@) ==> r@ == ascii_lower_str(s@),
{
    s.to_lowercase()
}

/// Characters that end a word for title case: whitespace, `_` and `-`.
pub open spec fn is_word_separator(c: char) -> bool {
    is_white_space(c) || c == '_' || c == '-'
}

/// Title case of `s`: separators are kept, the first character after the
/// start or after a separator is upper-cased, every other one lower-cased.
/// `capitalize` says whether the next word character starts a word.
pub open spec fn title_from(s: Seq<char>, capitalize: bool) -> Seq<char>
    decreases s.len(),
{
    if s.len() == 0 {
        s
    } else if is_word_separator(s[0]) {
        seq![s[0]] + title_from(s.skip(1), true)
    } else if capitalize {
        char_uppercase(s[0]) + title_from(s.skip(1), false)
    } else {
        char_lowercase(s[0]) + title_from(s.skip(1), false)
    }
}

/// Title case of an ASCII string, character by character: separators are
/// kept, a character at the start or after a separator is upper-cased, every
/// other one lower-cased.
pub open spec fn ascii_title(s: Seq<char>) -> Seq<char> {
    Seq::new(
        s.len(),
        |i: int|
            if is_word_separator(s[i]) {
                s[i]
            } else if i == 0 || is_word_separator(s[i - 1]) {
                ascii_to_upper(s[i])
            } else {
                ascii_to_lower(s[i])
            },
    )
}

/// Each character of `s` flipped: upper-case letters lower-cased, every
/// other character upper-cased.
pub open spec fn toggle_case(s: Seq<char>) -> Seq<char>
    decreases s.len(),
{
    if s.len() == 0 {
        s
    } else {
        (if char_is_uppercase(s[0]) {
            char_lowercase(s[0])
        } else {
            char_uppercase(s[0])
        }) + toggle_case(s.skip(1))
    }
}

/// An ASCII character with its letter case flipped.
pub open spec fn ascii_toggle_char(c: char) -> char {
    if is_ascii_upper(c) {
        ascii_to_lower(c)
    } else {
        ascii_to_upper(c)
    }
}

/// An ASCII string with the letter case of every character flipped.
pub open spec fn ascii_toggle(s: Seq<char>) -> Seq<char> {
    Seq::new(s.len(), |i: int| ascii_toggle_char(s[i]))
}

/// The result of applying the transform `t` to `s`.
pub open spec fn case_of(s: Seq<char>, t: CaseTransform) -> Seq<char> {
    match t {
        CaseTransform::Upper => str_uppercase(s),
        CaseTransform::Lower => str_lowercase(s),
        CaseTransform::Title => title_from(s, true),
        CaseTransform::Toggle => toggle_case(s),
    }
}

impl CaseTransform {
    /// The label shown for the transform.
    pub open spec fn label_spec(self) -> Seq<char> {
        match self {
            CaseTransform::Upper => "UPPER"@,
            CaseTransform::Lower => "lower"@,
            CaseTransform::Title => "Title"@,
            CaseTransform::Toggle => "tOGGLE"@,
        }
    }

    /// The label shown for the transform (`UPPER`, `lower`, `Title`, `tOGGLE`).
    pub fn label(&self) -> (r: String)
        ensures
            r@ == self.label_spec(),
    {
        match self {
            CaseTransform::Upper => crate::text::string_from("UPPER"),
            CaseTransform::Lower => crate::text::string_from("lower"),
            CaseTransform::Title => crate::text::string_from("Title"),
            CaseTransform::Toggle => crate::text::string_from("tOGGLE"),
        }
    }
}

/// Title case of `s`.
fn title_case_string(s: &str) -> (r: String)
    ensures
        r@ == title_from(s@, true),
        all_ascii(s@) ==> r@ == ascii_title(s@),
{
    let cs = chars_of(s);
    let mut out = String::new();
    let mut capitalize = true;
    let mut i: usize = 0;
    assert(cs@.skip(0) =~= cs@);
    assert(out@ + title_from(cs@.skip(0), true) =~= title_from(cs@, true));
    assert(out@ =~= ascii_title(cs@).take(0));
    while i < cs.len()
        invariant
            i <= cs.len(),
            out@ + title_from(cs@.skip(i as int), capitalize) == title_from(cs@, true),
            cs@ == s@,
            capitalize == (i == 0 || is_word_separator(cs@[i - 1])),
            all_ascii(cs@) ==> out@ == ascii_title(cs@).take(i as int),
        decreases cs.len() - i,
    {
        let ch = cs[i];
        let ghost t = cs@.skip(i as int);
        assert(t.skip(1) =~= cs@.skip(i + 1));
        assert(t[0] == ch);
        if is_whitespace_char(ch) || ch == '_' || ch == '-' {
            out.push(ch);
            capitalize = true;
            assert(out@ + title_from(cs@.skip(i + 1), capitalize) =~= title_from(cs@, true));
            proof {
                if all_ascii(cs@) {
                    assert(out@ =~= ascii_title(cs@).take(i + 1));
                }
            }
        } else if capitalize {
            let up = upper_of_char(ch);
            push_chars(&mut out, &up);
            capitalize = false;
            assert(out@ + title_from(cs@.skip(i + 1), capitalize) =~= title_from(cs@, true));
            proof {
                if all_ascii(cs@) {
                    assert(is_ascii_char(cs@[i as int]));
                    assert(out@ =~= ascii_title(cs@).take(i + 1));
                }
            }
        } else {
            let low = lower_of_char(ch);
            push_chars(&mut out, &low);
            assert(out@ + title_from(cs@.skip(i + 1), capitalize) =~= title_from(cs@, true));
            proof {
                if all_ascii(cs@) {
                    assert(is_ascii_char(cs@[i as int]));
                    assert(out@ =~= ascii_title(cs@).take(i + 1));
                }
            }
        }
        i = i + 1;
    }
    assert(cs@.skip(i as int) =~= Seq::<char>::empty());
    assert(out@ =~= title_from(cs@, true));
    assert(ascii_title(cs@).take(i as int) =~= ascii_title(cs@));
    out
}

/// Every character of `s` with its case flipped.
fn toggle_case_string(s: &str) -> (r: String)
    ensures
        r@ == toggle_case(s@),
        all_ascii(s@) ==> r@ == ascii_toggle(s@),
{
    let cs = chars_of(s);
    let mut out = String::new();
    let mut i: usize = 0;
    assert(cs@.skip(0) =~= cs@);
    assert(out@ + toggle_case(cs@.skip(0)) =~= toggle_case(cs@));
    assert(out@ =~= ascii_toggle(cs@.take(0)));
    while i < cs.len()
        invariant
            i <= cs.len(),
            out@ + toggle_case(cs@.skip(i as int)) == toggle_case(cs@),
            cs@ == s@,
            all_ascii(cs@) ==> out@ == ascii_toggle(cs@.take(i as int)),
        decreases cs.len() - i,
    {
        let c = cs[i];
        let ghost t = cs@.skip(i as int);
        assert(t.skip(1) =~= cs@.skip(i + 1));
        assert(t[0] == c);
        let flipped = if is_uppercase_char(c) {
            lower_of_char(c)
        } else {
            upper_of_char(c)
        };
        push_chars(&mut out, &flipped);
        proof {
            if all_ascii(cs@) {
                assert(is_ascii_char(cs@[i as int]));
                assert(flipped@ == seq![ascii_toggle_char(c)]);
                assert(out@ =~= ascii_toggle(cs@.take(i + 1)));
            }
        }
        i = i + 1;
        assert(out@ + toggle_case(cs@.skip(i as int)) =~= toggle_case(cs@));
    }
    assert(cs@.skip(i as int) =~= Seq::<char>::empty());
    assert(out@ =~= toggle_case(cs@));
    assert(cs@.take(i as int) =~= cs@);
    out
}

/// `s` under the case transform `transform`.
pub fn apply_case(s: &str, transform: &CaseTransform) -> (r: String)
    ensures
        r@ == case_of(s@, *transform),
        all_ascii(s@) ==> r@ == match *transform {
            CaseTransform::Upper => ascii_upper_str(s@),
            CaseTransform::Lower => ascii_lower_str(s@),
            CaseTransform::Title => ascii_title(s@),
            CaseTransform::Toggle => ascii_toggle(s@),
        },
{
    match transform {
        CaseTransform::Upper => upper_of_str(s),
        CaseTransform::Lower => lower_of_str(s),
        CaseTransform::Title => title_case_string(s),
        CaseTransform::Toggle => toggle_case_string(s),
    }
}

/// Flipping the case of an ASCII string keeps its length, keeps it ASCII,
/// and flipping twice gives the string back.
pub proof fn lemma_ascii_toggle_twice(s: Seq<char>)
    requires
        all_ascii(s),
    ensures
        ascii_toggle(s).len() == s.len(),
        all_ascii(ascii_toggle(s)),
        ascii_toggle(ascii_toggle(s)) == s,
{
    assert forall|i: int| 0 <= i < s.len() implies is_ascii_char(#[trigger] ascii_toggle(s)[i])
        && ascii_toggle_char(ascii_toggle(s)[i]) == s[i] by {
        let c = s[i];
        assert(is_ascii_char(c));
        if is_ascii_upper(c) {
            assert((((c as u32) + 32) as char) as u32 == (c as u32) + 32);
        } else if is_ascii_lower(c) {
            assert((((c as u32) - 32) as char) as u32 == (c as u32) - 32);
        }
    }
    assert(ascii_toggle(ascii_toggle(s)) =~= s);
}

/// Upper- or lower-casing an ASCII character keeps it ASCII, keeps whether
/// it is a word separator, and doing it twice is doing it once.
pub proof fn lemma_ascii_case_char(c: char)
    requires
        is_ascii_char(c),
    ensures
        is_ascii_char(ascii_to_upper(c)),
        is_ascii_char(ascii_to_lower(c)),
        is_word_separator(ascii_to_upper(c)) == is_word_separator(c),
        is_word_separator(ascii_to_lower(c)) == is_word_separator(c),
        ascii_to_upper(ascii_to_upper(c)) == ascii_to_upper(c),
        ascii_to_lower(ascii_to_lower(c)) == ascii_to_lower(c),
        ascii_to_upper(ascii_to_lower(c)) == ascii_to_upper(c),
        ascii_to_lower(ascii_to_upper(c)) == ascii_to_lower(c),
{
    if is_ascii_upper(c) {
        assert((((c as u32) + 32) as char) as u32 == (c as u32) + 32);
    } else if is_ascii_lower(c) {
        assert((((c as u32) - 32) as char) as u32 == (c as u32) - 32);
    }
}

/// Title case of an ASCII string keeps its length and its ASCII-ness, and
/// applying it again changes nothing.
pub proof fn lemma_ascii_title_twice(s: Seq<char>)
    requires
        all_ascii(s),
    ensures
        ascii_title(s).len() == s.len(),
        all_ascii(ascii_title(s)),
        ascii_title(ascii_title(s)) == ascii_title(s),
{
    let t = ascii_title(s);
    assert forall|i: int| 0 <= i < s.len() implies is_ascii_char(#[trigger] t[i])
        && is_word_separator(t[i]) == is_word_separator(s[i]) by {
        lemma_ascii_case_char(s[i]);
    }
    assert forall|i: int| 0 <= i < s.len() implies #[trigger] ascii_title(t)[i] == t[i] by {
        lemma_ascii_case_char(s[i]);
        if i > 0 {
            assert(is_word_separator(t[i - 1]) == is_word_separator(s[i - 1]));
        }
    }
    assert(ascii_title(t) =~= t);
}

/// Title case starts every word with what `char::to_uppercase` gives for its
/// first character, whatever that character is (ASCII or not).
pub proof fn lemma_title_word_start(c: char, rest: Seq<char>)
    requires
        !is_word_separator(c),
    ensures
        title_from(seq![c] + rest, true) == char_uppercase(c) + title_from(rest, false),
{
    assert((seq![c] + rest).skip(1) =~= rest);
}

/// Inside a word, title case gives what `char::to_lowercase` gives for each
/// character, whatever that character is.
pub proof fn lemma_title_inside_word(c: char, rest: Seq<char>)
    requires
        !is_word_separator(c),
    ensures
        title_from(seq![c] + rest, false) == char_lowercase(c) + title_from(rest, false),
{
    assert((seq![c] + rest).skip(1) =~= rest);
}

/// Title case keeps a separator and starts a new word after it.
pub proof fn lemma_title_separator(c: char, rest: Seq<char>, capitalize: bool)
    requires
        is_word_separator(c),
    ensures
        title_from(seq![c] + rest, capitalize) == seq![c] + title_from(rest, true),
{
    assert((seq![c] + rest).skip(1) =~= rest);
}

/// Title case of a whole string splits at any point: the part after it is
/// title-cased on its own, starting a word exactly when the part before is
/// empty or ends in a separator.
pub proof fn lemma_title_split(a: Seq<char>, b: Seq<char>, capitalize: bool)
    ensures
        title_from(a + b, capitalize) == title_from(a, capitalize) + title_from(
            b,
            if a.len() == 0 {
                capitalize
            } else {
                is_word_separator(a.last())
            },
        ),
    decreases a.len(),
{
    if a.len() == 0 {
        assert(a + b =~= b);
        assert(title_from(a, capitalize) =~= Seq::<char>::empty());
    } else {
        let c = a[0];
        assert((a + b).skip(1) =~= a.skip(1) + b);
        assert((a + b)[0] == c);
        let cap2 = if is_word_separator(c) {
            true
        } else {
            false
        };
        lemma_title_split(a.skip(1), b, cap2);
        if a.len() > 1 {
            assert(a.skip(1).last() == a.last());
        }
    }
}

} // verus!
