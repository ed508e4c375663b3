//! What holds of trimming, searching, splitting and joining texts, of decimal
//! numbers and of the order of texts.

use vstd::prelude::*;

use crate::text;

verus! {

/// Whether every character of `s` is white space.
pub open spec fn all_white(s: Seq<char>) -> bool {
    forall|i: int| 0 <= i < s.len() ==> text::is_white_space(#[trigger] s[i])
}

/// Whether every character of `s` is `c`.
pub open spec fn all_of(s: Seq<char>, c: char) -> bool {
    forall|i: int| 0 <= i < s.len() ==> (#[trigger] s[i]) == c
}

spec fn all_cut(s: Seq<char>, cut: text::Cut) -> bool {
    forall|i: int| 0 <= i < s.len() ==> text::cuts(cut, #[trigger] s[i])
}

proof fn lemma_trim_start(left: Seq<char>, rest: Seq<char>, cut: text::Cut)
    requires
        all_cut(left, cut),
        rest.len() == 0 || !text::cuts(cut, rest[0]),
    ensures
        text::trim_start_by(left + rest, cut) == rest,
    decreases left.len(),
{
    let s = left + rest;
    if left.len() == 0 {
        assert(s =~= rest);
    } else {
        assert(s[0] == left[0]);
        assert(s.drop_first() =~= left.drop_first() + rest);
        lemma_trim_start(left.drop_first(), rest, cut);
    }
}

proof fn lemma_trim_end(rest: Seq<char>, right: Seq<char>, cut: text::Cut)
    requires
        all_cut(right, cut),
        rest.len() == 0 || !text::cuts(cut, rest.last()),
    ensures
        text::trim_end_by(rest + right, cut) == rest,
    decreases right.len(),
{
    let s = rest + right;
    if right.len() == 0 {
        assert(s =~= rest);
    } else {
        assert(s.last() == right.last());
        assert(right[right.len() - 1] == right.last());
        assert(s.drop_last() =~= rest + right.drop_last());
        lemma_trim_end(rest, right.drop_last(), cut);
    }
}

proof fn lemma_trim(left: Seq<char>, middle: Seq<char>, right: Seq<char>, cut: text::Cut)
    requires
        all_cut(left, cut),
        all_cut(right, cut),
        middle.len() == 0 || !text::cuts(cut, middle[0]) && !text::cuts(cut, middle.last()),
    ensures
        text::trim_by(left + middle + right, cut) == middle,
{
    if middle.len() == 0 {
        let all = left + right;
        assert(left + middle + right =~= all + middle);
        lemma_trim_start(all, middle, cut);
    } else {
        assert(left + middle + right =~= left + (middle + right));
        lemma_trim_start(left, middle + right, cut);
        lemma_trim_end(middle, right, cut);
    }
}

/// Trimming takes the white space at both ends of a text away and nothing
/// else: what stands between it comes back whole, and a text of white space
/// alone gives nothing.
pub proof fn trimming_takes_outer_white_space(
    left: Seq<char>,
    middle: Seq<char>,
    right: Seq<char>,
)
    requires
        all_white(left),
        all_white(right),
        middle.len() == 0 || !text::is_white_space(middle[0]) && !text::is_white_space(
            middle.last(),
        ),
    ensures
        text::trim(left + middle + right) == middle,
{
    lemma_trim(left, middle, right, text::Cut::Space);
}

/// Taking slashes away at both ends takes nothing else.
pub proof fn trimming_takes_outer_slashes(left: Seq<char>, middle: Seq<char>, right: Seq<char>)
    requires
        all_of(left, '/'),
        all_of(right, '/'),
        middle.len() == 0 || middle[0] != '/' && middle.last() != '/',
    ensures
        text::trim_slashes(left + middle + right) == middle,
{
    lemma_trim(left, middle, right, text::Cut::Only('/'));
}

/// Taking slashes away at the start takes nothing else.
pub proof fn trimming_takes_leading_slashes(left: Seq<char>, rest: Seq<char>)
    requires
        all_of(left, '/'),
        rest.len() == 0 || rest[0] != '/',
    ensures
        text::trim_leading_slashes(left + rest) == rest,
{
    lemma_trim_start(left, rest, text::Cut::Only('/'));
}

proof fn lemma_parts_of_trim(s: Seq<char>) -> (parts: (Seq<char>, Seq<char>))
    ensures
        all_white(parts.0),
        all_white(parts.1),
        s == parts.0 + text::trim(s) + parts.1,
    decreases s.len(),
{
    if s.len() == 0 {
        assert(text::trim(s) =~= s);
        assert(s =~= s + text::trim(s) + s);
        (s, s)
    } else if text::is_white_space(s[0]) {
        let (left, right) = lemma_parts_of_trim(s.drop_first());
        let more = seq![s[0]] + left;
        assert(text::trim(s) == text::trim(s.drop_first()));
        assert(s =~= seq![s[0]] + s.drop_first());
        assert(seq![s[0]] + (left + text::trim(s) + right) =~= more + text::trim(s) + right);
        (more, right)
    } else if text::is_white_space(s.last()) {
        let (left, right) = lemma_parts_of_trim(s.drop_last());
        let more = right.push(s.last());
        assert(text::trim_start_by(s, text::Cut::Space) == s);
        assert(text::trim_start_by(s.drop_last(), text::Cut::Space) == s.drop_last());
        assert(text::trim(s) == text::trim(s.drop_last()));
        assert(s =~= s.drop_last().push(s.last()));
        assert((left + text::trim(s) + right).push(s.last()) =~= left + text::trim(s) + more);
        (left, more)
    } else {
        let none = Seq::<char>::empty();
        assert(text::trim(s) == s);
        assert(s =~= none + text::trim(s) + none);
        (none, none)
    }
}

/// Nothing is left of a text by trimming exactly where it is white space alone.
pub proof fn blank_is_white_space_alone(s: Seq<char>)
    ensures
        text::trim(s).len() == 0 <==> all_white(s),
{
    if all_white(s) {
        let none = Seq::<char>::empty();
        trimming_takes_outer_white_space(s, none, none);
        assert(s + none + none =~= s);
    }
    if text::trim(s).len() == 0 {
        let (left, right) = lemma_parts_of_trim(s);
        assert(s =~= left + right);
        assert forall|i: int| 0 <= i < s.len() implies text::is_white_space(#[trigger] s[i]) by {
            if i < left.len() {
                assert(s[i] == left[i]);
            } else {
                assert(s[i] == right[i - left.len()]);
            }
        }
    }
}

/// A text holds a pattern exactly where it is the pattern with something before
/// and something after it.
pub proof fn held_pattern_stands_in_the_text(s: Seq<char>, pat: Seq<char>)
    ensures
        text::contains_text(s, pat) <==> exists|before: Seq<char>, after: Seq<char>|
            s == #[trigger] (before + pat + after),
        text::starts_with(s, pat) <==> exists|after: Seq<char>| s == #[trigger] (pat + after),
        text::ends_with(s, pat) <==> exists|before: Seq<char>| s == #[trigger] (before + pat),
{
    if text::contains_text(s, pat) {
        let i = choose|i: int| text::occurs_at(s, pat, i);
        assert(s =~= s.take(i) + pat + s.skip(i + pat.len()));
    }
    if exists|before: Seq<char>, after: Seq<char>| s == #[trigger] (before + pat + after) {
        let (before, after) = choose|before: Seq<char>, after: Seq<char>|
            s == #[trigger] (before + pat + after);
        assert(s.subrange(before.len() as int, (before.len() + pat.len()) as int) =~= pat);
        assert(text::occurs_at(s, pat, before.len() as int));
    }
    if text::starts_with(s, pat) {
        assert(s =~= pat + s.skip(pat.len() as int));
    }
    if exists|after: Seq<char>| s == #[trigger] (pat + after) {
        let after = choose|after: Seq<char>| s == #[trigger] (pat + after);
        assert(s.subrange(0, pat.len() as int) =~= pat);
    }
    if text::ends_with(s, pat) {
        assert(s =~= s.take(s.len() - pat.len()) + pat);
    }
    if exists|before: Seq<char>| s == #[trigger] (before + pat) {
        let before = choose|before: Seq<char>| s == #[trigger] (before + pat);
        assert(s.subrange(s.len() - pat.len(), s.len() as int) =~= pat);
    }
}

/// The parts of a text, joined again with what they were split at, are the
/// text, and none of them holds it.
pub proof fn split_parts_join_to_the_text(s: Seq<char>, sep: char)
    ensures
        text::join(text::split_on(s, sep), seq![sep]) == s,
        text::split_on(s, sep).len() >= 1,
        forall|i: int, j: int|
            0 <= i < text::split_on(s, sep).len() && 0 <= j < text::split_on(s, sep)[i].len()
                ==> (#[trigger] text::split_on(s, sep)[i][j]) != sep,
    decreases s.len(),
{
    let i = text::index_of(s, sep);
    text::lemma_index_of(s, sep);
    let parts = text::split_on(s, sep);
    if i < s.len() {
        let rest = s.skip(i + 1);
        split_parts_join_to_the_text(rest, sep);
        lemma_join_first(s.take(i), text::split_on(rest, sep), seq![sep]);
        assert(s =~= s.take(i) + seq![sep] + rest);
        assert forall|k: int, j: int| 0 <= k < parts.len() && 0 <= j < parts[k].len() implies (
        #[trigger] parts[k][j]) != sep by {
            if k > 0 {
                assert(parts[k] == text::split_on(rest, sep)[k - 1]);
                assert(text::split_on(rest, sep)[k - 1][j] != sep);
            } else {
                assert(parts[0] == s.take(i));
                assert(s.take(i)[j] == s[j]);
            }
        }
    } else {
        assert forall|k: int, j: int| 0 <= k < parts.len() && 0 <= j < parts[k].len() implies (
        #[trigger] parts[k][j]) != sep by {
            assert(parts[k] == s);
            assert(s[j] != sep);
        }
    }
}

proof fn lemma_join_first(first: Seq<char>, rest: Seq<Seq<char>>, sep: Seq<char>)
    requires
        rest.len() > 0,
    ensures
        text::join(seq![first] + rest, sep) == first + sep + text::join(rest, sep),
    decreases rest.len(),
{
    let all = seq![first] + rest;
    assert(all.last() == rest.last());
    if rest.len() == 1 {
        assert(all.drop_last() =~= seq![first]);
        assert(text::join(all, sep) == text::join(seq![first], sep) + sep + rest[0]);
    } else {
        assert(all.drop_last() =~= seq![first] + rest.drop_last());
        lemma_join_first(first, rest.drop_last(), sep);
        assert(text::join(all, sep) =~= first + sep + text::join(rest, sep));
    }
}

/// Joined texts hold each text in order with the separator between each two:
/// joining two lists is joining them and their joined texts, one text is itself
/// and none is nothing.
pub proof fn joined_texts_stand_in_order(a: Seq<Seq<char>>, b: Seq<Seq<char>>, sep: Seq<char>)
    ensures
        a.len() > 0 && b.len() > 0 ==> text::join(a + b, sep) == text::join(a, sep) + sep
            + text::join(b, sep),
        a.len() == 1 ==> text::join(a, sep) == a[0],
        a.len() == 0 ==> text::join(a, sep).len() == 0,
    decreases b.len(),
{
    if a.len() > 0 && b.len() > 0 {
        let all = a + b;
        assert(all.last() == b.last());
        if b.len() == 1 {
            assert(all.drop_last() =~= a);
        } else {
            assert(all.drop_last() =~= a + b.drop_last());
            joined_texts_stand_in_order(a, b.drop_last(), sep);
            assert(text::join(all, sep) =~= text::join(a, sep) + sep + text::join(b, sep));
        }
    }
}

/// The number that decimal digits stand for.
pub open spec fn number_of(digits: Seq<char>) -> int
    decreases digits.len(),
{
    if digits.len() == 0 {
        0
    } else {
        10 * number_of(digits.drop_last()) + (digits.last() as int - '0' as int)
    }
}

/// A decimal number is written in digits that stand for it, and its first digit
/// is no zero unless it is the number zero.
pub proof fn decimal_digits_stand_for_the_number(n: nat)
    ensures
        number_of(text::decimal(n)) == n,
        text::decimal(n).len() > 0,
        forall|i: int|
            0 <= i < text::decimal(n).len() ==> '0' <= #[trigger] text::decimal(n)[i] <= '9',
        n > 0 ==> text::decimal(n)[0] != '0',
    decreases n,
{
    let s = text::decimal(n);
    if n < 10 {
        assert(s.drop_last() =~= Seq::empty());
        reveal_with_fuel(number_of, 2);
    } else {
        decimal_digits_stand_for_the_number(n / 10);
        assert(s.drop_last() =~= text::decimal(n / 10));
        assert(n == 10 * (n / 10) + n % 10);
    }
}

/// A text comes before another exactly where it is the start of it, or where its
/// character is the lesser one at the first place at which they differ.
pub proof fn texts_are_ordered_by_the_first_difference(
    common: Seq<char>,
    a: Seq<char>,
    b: Seq<char>,
)
    ensures
        a.len() == 0 ==> text::text_before(common + a, common + b) == (b.len() > 0),
        b.len() == 0 ==> !text::text_before(common + a, common + b),
        a.len() > 0 && b.len() > 0 && a[0] != b[0] ==> text::text_before(common + a, common + b)
            == (a[0] < b[0]),
    decreases common.len(),
{
    if common.len() == 0 {
        assert(common + a =~= a);
        assert(common + b =~= b);
    } else {
        texts_are_ordered_by_the_first_difference(common.drop_first(), a, b);
        assert((common + a).drop_first() =~= common.drop_first() + a);
        assert((common + b).drop_first() =~= common.drop_first() + b);
    }
}

/// The ASCII lower case of a text has the same characters, but for capitals,
/// which are small.
pub proof fn ascii_lower_case_changes_capitals_only(s: Seq<char>)
    ensures
        text::ascii_lower_seq(s).len() == s.len(),
        forall|i: int|
            0 <= i < s.len() ==> (#[trigger] text::ascii_lower_seq(s)[i]) as int == (if 'A' <= s[i]
                && s[i] <= 'Z' {
                s[i] as int + 32
            } else {
                s[i] as int
            }),
{
}

/// A pattern is found where it first stands: no earlier place holds it.
pub proof fn pattern_is_found_where_it_first_stands(s: Seq<char>, pat: Seq<char>)
    ensures
        match text::find_text(s, pat) {
            Some(i) => {
                &&& 0 <= i <= s.len() - pat.len()
                &&& s.subrange(i, i + pat.len()) == pat
                &&& forall|j: int|
                    0 <= j < i ==> #[trigger] s.subrange(j, j + pat.len()) != pat || j + pat.len()
                        > s.len()
            },
            None => forall|j: int|
                0 <= j <= s.len() - pat.len() ==> #[trigger] s.subrange(j, j + pat.len()) != pat,
        },
{
    if text::contains_text(s, pat) {
        let k = choose|k: int| text::occurs_at(s, pat, k);
        lemma_first_place(s, pat, k);
        let i = choose|i: int| text::is_first_occurrence(s, pat, i);
        assert(text::is_first_occurrence(s, pat, i));
        assert forall|j: int| 0 <= j < i implies #[trigger] s.subrange(j, j + pat.len()) != pat || j
            + pat.len() > s.len() by {
            assert(!text::occurs_at(s, pat, j));
        }
    } else {
        assert forall|j: int| 0 <= j <= s.len() - pat.len() implies #[trigger] s.subrange(
            j,
            j + pat.len(),
        ) != pat by {
            assert(!text::occurs_at(s, pat, j));
        }
    }
}

proof fn lemma_first_place(s: Seq<char>, pat: Seq<char>, k: int)
    requires
        text::occurs_at(s, pat, k),
    ensures
        exists|i: int| text::is_first_occurrence(s, pat, i),
    decreases k,
{
    if exists|j: int| 0 <= j < k && text::occurs_at(s, pat, j) {
        let j = choose|j: int| 0 <= j < k && text::occurs_at(s, pat, j);
        lemma_first_place(s, pat, j);
    } else {
        assert(text::is_first_occurrence(s, pat, k));
    }
}

/// Of the ASCII characters the blank and the five controls from the tabulator to
/// the carriage return are white space; of the others only single characters and
/// the spaces of the general punctuation. No letter or digit of ASCII is.
pub proof fn white_space_is_no_letter(c: char)
    ensures
        (c as int) < 128 ==> (text::is_white_space(c) <==> c as int == 32 || 9 <= c as int <= 13),
        text::is_alphanumeric(c) <==> (48 <= c as int <= 57 || 65 <= c as int <= 90 || 97
            <= c as int <= 122),
        text::is_alphanumeric(c) ==> !text::is_white_space(c),
        c as int >= 128 ==> (text::is_white_space(c) <==> seq![
            0x85int,
            0xa0,
            0x1680,
            0x2028,
            0x2029,
            0x202f,
            0x205f,
            0x3000,
        ].contains(c as int) || 0x2000 <= c as int <= 0x200a),
{
    let single = seq![0x85int, 0xa0, 0x1680, 0x2028, 0x2029, 0x202f, 0x205f, 0x3000];
    assert(single[0] == 0x85 && single[1] == 0xa0 && single[2] == 0x1680 && single[3] == 0x2028
        && single[4] == 0x2029 && single[5] == 0x202f && single[6] == 0x205f && single[7]
        == 0x3000);
}

} // verus!
