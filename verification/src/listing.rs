//! The file list: which directory entries are shown, and in what order.

use vstd::prelude::*;
use crate::text::chars_of;

verus! {

/// A name that starts with `.` is hidden and not listed.
pub open spec fn is_hidden(name: Seq<char>) -> bool {
    name.len() > 0 && name[0] == '.'
}

/// The entries of `names` that are not hidden, in their original order.
pub open spec fn visible_names(names: Seq<String>) -> Seq<String> {
    names.filter(|s: String| !is_hidden(s@))
}

/// Lexicographic order of character sequences by code point, which is the
/// order `String` comparison gives (UTF-8 preserves code-point order).
pub open spec fn lex_le(a: Seq<char>, b: Seq<char>) -> bool
    decreases a.len(),
{
    if a.len() == 0 {
        true
    } else if b.len() == 0 {
        false
    } else if a[0] != b[0] {
        a[0] < b[0]
    } else {
        lex_le(a.skip(1), b.skip(1))
    }
}

/// Whether the names are in ascending lexicographic order.
pub open spec fn sorted_names(s: Seq<String>) -> bool {
    forall|i: int, j: int| 0 <= i < j < s.len() ==> lex_le(#[trigger] s[i]@, #[trigger] s[j]@)
}

/// Any two sequences are ordered one way or the other.
pub proof fn lemma_lex_total(a: Seq<char>, b: Seq<char>)
    ensures
        lex_le(a, b) || lex_le(b, a),
    decreases a.len(),
{
    if a.len() > 0 && b.len() > 0 && a[0] == b[0] {
        lemma_lex_total(a.skip(1), b.skip(1));
    }
}

/// The order is transitive.
pub proof fn lemma_lex_transitive(a: Seq<char>, b: Seq<char>, c: Seq<char>)
    requires
        lex_le(a, b),
        lex_le(b, c),
    ensures
        lex_le(a, c),
    decreases a.len(),
{
    if a.len() > 0 && b.len() > 0 && c.len() > 0 && a[0] == b[0] && b[0] == c[0] {
        lemma_lex_transitive(a.skip(1), b.skip(1), c.skip(1));
    }
}

/// Whether `a` comes no later than `b` in lexicographic order.
pub fn lex_le_chars(a: &Vec<char>, b: &Vec<char>) -> (r: bool)
    ensures
        r == lex_le(a@, b@),
{
    let mut i: usize = 0;
    assert(a@.skip(0) =~= a@);
    assert(b@.skip(0) =~= b@);
    loop
        invariant
            i <= a.len(),
            i <= b.len(),
            lex_le(a@, b@) == lex_le(a@.skip(i as int), b@.skip(i as int)),
        decreases a.len() - i,
    {
        let ghost sa = a@.skip(i as int);
        let ghost sb = b@.skip(i as int);
        if i == a.len() {
            return true;
        }
        if i == b.len() {
            return false;
        }
        assert(sa[0] == a@[i as int] && sb[0] == b@[i as int]);
        if a[i] != b[i] {
            return a[i] < b[i];
        }
        assert(sa.skip(1) =~= a@.skip(i + 1));
        assert(sb.skip(1) =~= b@.skip(i + 1));
        i = i + 1;
    }
}

/// The entries of `names` that are not hidden, keeping their order.
pub fn visible_only(names: Vec<String>) -> (r: Vec<String>)
    ensures
        r@ == visible_names(names@),
{
    let mut r: Vec<String> = Vec::new();
    let mut src = names;
    let ghost all = src@;
    let ghost pred = |s: String| !is_hidden(s@);
    let mut i: usize = 0;
    let total = src.len();
    // Walk from the front by reversing first, so each element can be moved out.
    let mut rev: Vec<String> = Vec::new();
    while src.len() > 0
        invariant
            src@ + rev@.reverse() == all,
            all.len() == total,
        decreases src.len(),
    {
        let ghost before = src@;
        let x = src.pop().unwrap();
        assert(before =~= src@.push(x));
        rev.push(x);
        assert(src@ + rev@.reverse() =~= all);
    }
    assert(rev@.reverse() =~= all);
    assert(all.take(0) =~= Seq::<String>::empty());
    assert(Seq::<String>::empty().filter(pred) =~= Seq::<String>::empty()) by {
        reveal(Seq::filter);
    }
    while rev.len() > 0
        invariant
            i + rev@.len() == all.len(),
            all.len() == total,
            i <= all.len(),
            forall|k: int| 0 <= k < rev@.len() ==> #[trigger] rev@[k] == all[all.len() - 1 - k],
            r@ == all.take(i as int).filter(pred),
            pred == (|s: String| !is_hidden(s@)),
        decreases rev.len(),
    {
        let ghost before = rev@;
        let x = rev.pop().unwrap();
        assert(x == all[i as int]);
        assert(all.take(i + 1) =~= all.take(i as int).push(x));
        proof {
            all.take(i as int).lemma_filter_push(x, pred);
        }
        let xs = chars_of(x.as_str());
        if xs.len() > 0 && xs[0] == '.' {
        } else {
            r.push(x);
        }
        i = i + 1;
        assert forall|k: int| 0 <= k < rev@.len() implies #[trigger] rev@[k] == all[all.len() - 1 - k] by {
            assert(rev@[k] == before[k]);
        }
    }
    assert(all.take(all.len() as int) =~= all);
    r
}

/// The names in ascending lexicographic order (insertion sort).
pub fn sort_names(names: Vec<String>) -> (r: Vec<String>)
    ensures
        sorted_names(r@),
        r@.to_multiset() == names@.to_multiset(),
{
    broadcast use vstd::seq_lib::group_to_multiset_ensures;
    broadcast use vstd::multiset::group_multiset_axioms;

    let mut src = names;
    let mut res: Vec<String> = Vec::new();
    assert(res@.to_multiset() =~= vstd::multiset::Multiset::<String>::empty());
    assert(res@.to_multiset().add(src@.to_multiset()) =~= names@.to_multiset());
    while src.len() > 0
        invariant
            sorted_names(res@),
            res@.to_multiset().add(src@.to_multiset()) == names@.to_multiset(),
        decreases src.len(),
    {
        let ghost before = src@;
        let x = src.pop().unwrap();
        assert(before =~= src@.push(x));
        let xs = chars_of(x.as_str());
        let mut p: usize = 0;
        while p < res.len() && lex_le_chars(&chars_of(res[p].as_str()), &xs)
            invariant
                p <= res.len(),
                xs@ == x@,
                sorted_names(res@),
                forall|k: int| 0 <= k < p ==> lex_le(#[trigger] res@[k]@, x@),
            decreases res.len() - p,
        {
            p = p + 1;
        }
        proof {
            if p < res.len() {
                lemma_lex_total(res@[p as int]@, x@);
                assert(lex_le(x@, res@[p as int]@));
            }
        }
        let ghost old_res = res@;
        res.insert(p, x);
        assert(res@ =~= old_res.insert(p as int, x));
        assert forall|i: int, j: int| 0 <= i < j < res@.len() implies lex_le(
            #[trigger] res@[i]@,
            #[trigger] res@[j]@,
        ) by {
            if i == p && j > p + 1 {
                assert(lex_le(old_res[p as int]@, old_res[j - 1]@));
                lemma_lex_transitive(x@, old_res[p as int]@, old_res[j - 1]@);
            } else if i > p {
                assert(res@[i] == old_res[i - 1]);
                assert(lex_le(old_res[i - 1]@, old_res[j - 1]@));
            } else if j > p {
                assert(res@[j] == old_res[j - 1]);
            }
        }
        proof {
            vstd::seq_lib::to_multiset_insert(old_res, p as int, x);
            vstd::seq_lib::to_multiset_build(src@, x);
        }
        assert(res@.to_multiset().add(src@.to_multiset()) =~= names@.to_multiset());
    }
    assert(src@.to_multiset() =~= vstd::multiset::Multiset::<String>::empty());
    assert(res@.to_multiset() =~= names@.to_multiset());
    res
}

/// What the file panel lists of a directory's entries: the names that are
/// not hidden, sorted.
pub fn listed_files(names: Vec<String>) -> (r: Vec<String>)
    ensures
        sorted_names(r@),
        r@.to_multiset() == visible_names(names@).to_multiset(),
{
    sort_names(visible_only(names))
}

/// Two sequences that agree before position `i` and differ at `i` are
/// ordered by their characters at `i`: the smaller code point comes first.
pub proof fn lemma_lex_le_first_difference(a: Seq<char>, b: Seq<char>, i: int)
    requires
        0 <= i < a.len(),
        i < b.len(),
        a.take(i) == b.take(i),
        a[i] != b[i],
    ensures
        lex_le(a, b) == (a[i] < b[i]),
        lex_le(b, a) == (b[i] < a[i]),
    decreases i,
{
    if i > 0 {
        assert(a[0] == a.take(i)[0] && b[0] == b.take(i)[0]);
        assert(a.skip(1).take(i - 1) =~= a.take(i).skip(1));
        assert(b.skip(1).take(i - 1) =~= b.take(i).skip(1));
        lemma_lex_le_first_difference(a.skip(1), b.skip(1), i - 1);
    }
}

/// A sequence comes no later than any sequence it is a prefix of, and a
/// longer sequence never comes before its own proper prefix.
pub proof fn lemma_lex_le_prefix(a: Seq<char>, b: Seq<char>)
    requires
        a.is_prefix_of(b),
    ensures
        lex_le(a, b),
        a.len() < b.len() ==> !lex_le(b, a),
    decreases a.len(),
{
    if a.len() > 0 {
        assert(a.skip(1).is_prefix_of(b.skip(1)));
        lemma_lex_le_prefix(a.skip(1), b.skip(1));
    }
}

/// In a sorted listing, of two names that first differ at position `k`, the
/// earlier one has the smaller code point at `k`.
pub proof fn lemma_sorted_first_difference(s: Seq<String>, i: int, j: int, k: int)
    requires
        sorted_names(s),
        0 <= i < j < s.len(),
        0 <= k < s[i]@.len(),
        k < s[j]@.len(),
        s[i]@.take(k) == s[j]@.take(k),
        s[i]@[k] != s[j]@[k],
    ensures
        s[i]@[k] < s[j]@[k],
{
    assert(lex_le(s[i]@, s[j]@));
    lemma_lex_le_first_difference(s[i]@, s[j]@, k);
}

/// The listed names are exactly the names that do not start with `.`: a
/// name is kept if and only if it was given and its first character is not
/// `.`.
pub proof fn lemma_visible_names_contains(names: Seq<String>, x: String)
    ensures
        visible_names(names).contains(x) <==> (names.contains(x) && !(x@.len() > 0 && x@[0]
            == '.')),
{
    let pred = |s: String| !is_hidden(s@);
    if visible_names(names).contains(x) {
        names.lemma_filter_contains_rev(pred, x);
        let k = choose|k: int| 0 <= k < visible_names(names).len() && visible_names(names)[k] == x;
        names.lemma_filter_pred(pred, k);
    }
    if names.contains(x) && !(x@.len() > 0 && x@[0] == '.') {
        let k = choose|k: int| 0 <= k < names.len() && names[k] == x;
        names.lemma_filter_contains(pred, k);
    }
}

} // verus!
