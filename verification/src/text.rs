//! Text handling over sequences of characters.
//!
//! Every executable function here is stated over the characters of its
//! arguments (`s@`), so that the rest of the library can speak of text as
//! plain mathematical sequences.

use vstd::prelude::*;
use vstd::string::*;
use vstd::utf8::*;

verus! {

/// `String::push`: the given character is appended at the end of the string.
pub assume_specification[ String::push ](s: &mut String, ch: char)
    ensures
        final(s)@ == old(s)@.push(ch),
;

// ---------------------------------------------------------------------------
// Characters
// ---------------------------------------------------------------------------

/// The characters with the Unicode property `White_Space`.
pub open spec fn is_white_space(c: char) -> bool {
    ||| '\u{9}' <= c <= '\u{d}'
    ||| c == '\u{20}'
    ||| c == '\u{85}'
    ||| c == '\u{a0}'
    ||| c == '\u{1680}'
    ||| '\u{2000}' <= c <= '\u{200a}'
    ||| c == '\u{2028}'
    ||| c == '\u{2029}'
    ||| c == '\u{202f}'
    ||| c == '\u{205f}'
    ||| c == '\u{3000}'
}

/// Whether `c` has the Unicode property `White_Space`.
pub fn char_is_white_space(c: char) -> (b: bool)
    ensures
        b == is_white_space(c),
{
    ('\u{9}' <= c && c <= '\u{d}') || c == '\u{20}' || c == '\u{85}' || c == '\u{a0}' || c
        == '\u{1680}' || ('\u{2000}' <= c && c <= '\u{200a}') || c == '\u{2028}' || c == '\u{2029}'
        || c == '\u{202f}' || c == '\u{205f}' || c == '\u{3000}'
}

/// The ASCII letters and digits.
pub open spec fn is_alphanumeric(c: char) -> bool {
    'a' <= c <= 'z' || 'A' <= c <= 'Z' || '0' <= c <= '9'
}

/// Whether `c` is an ASCII letter or digit.
pub fn char_is_alphanumeric(c: char) -> (b: bool)
    ensures
        b == is_alphanumeric(c),
{
    ('a' <= c && c <= 'z') || ('A' <= c && c <= 'Z') || ('0' <= c && c <= '9')
}

/// The ASCII lower case of `c`: a capital letter becomes small, anything
/// else stays.
pub open spec fn ascii_lower(c: char) -> char {
    if 'A' <= c <= 'Z' {
        (c as u32 + 32) as char
    } else {
        c
    }
}

/// The ASCII lower case of every character of `s`.
pub open spec fn ascii_lower_seq(s: Seq<char>) -> Seq<char> {
    s.map_values(|c: char| ascii_lower(c))
}

/// The ASCII upper case of `c`: a small letter becomes capital, anything else
/// stays.
pub open spec fn ascii_upper(c: char) -> char {
    if 'a' <= c <= 'z' {
        (c as u32 - 32) as char
    } else {
        c
    }
}

/// The ASCII upper case of every character of `s`.
pub open spec fn ascii_upper_seq(s: Seq<char>) -> Seq<char> {
    s.map_values(|c: char| ascii_upper(c))
}

/// Whether two texts are the same but for ASCII letters that are small in one
/// and capital in the other.
pub open spec fn same_but_for_capitals(a: Seq<char>, b: Seq<char>) -> bool {
    ascii_lower_seq(a) == ascii_lower_seq(b)
}

/// The ASCII upper case of a text differs from the text in capitals only.
pub proof fn upper_case_is_the_same_but_for_capitals(s: Seq<char>)
    ensures
        same_but_for_capitals(ascii_upper_seq(s), s),
{
    assert(ascii_lower_seq(ascii_upper_seq(s)) =~= ascii_lower_seq(s));
}

/// The ASCII lower case of `c`.
pub fn char_ascii_lower(c: char) -> (r: char)
    ensures
        r == ascii_lower(c),
{
    if 'A' <= c && c <= 'Z' {
        let b: u8 = c as u8;
        (b + 32) as char
    } else {
        c
    }
}

/// The ASCII lower case of every character of `s`.
pub fn ascii_lowercase(s: &str) -> (r: String)
    ensures
        r@ == ascii_lower_seq(s@),
{
    let mut out = String::new();
    for c in it: s.chars()
        invariant
            out@ == ascii_lower_seq(it.seq().take(it.index())),
            it.seq() == s@,
    {
        out.push(char_ascii_lower(c));
        assert(out@ =~= ascii_lower_seq(it.seq().take(it.index() + 1)));
    }
    assert(s@.take(s@.len() as int) =~= s@);
    out
}

/// Whether no character is an ASCII capital.
pub open spec fn has_no_capitals(s: Seq<char>) -> bool {
    forall|i: int| 0 <= i < s.len() ==> !('A' <= #[trigger] s[i] <= 'Z')
}

/// What `str::to_lowercase` returns for a text that is not all ASCII.
pub uninterp spec fn unicode_lowercase(s: Seq<char>) -> Seq<char>;

/// What `char::to_lowercase` yields for a character that is not ASCII.
pub uninterp spec fn unicode_char_lowercase(c: char) -> Seq<char>;

/// The lower case of a text. It is the same whether the ASCII letters of the
/// text are small or capital.
pub open spec fn lowercase(s: Seq<char>) -> Seq<char> {
    if is_ascii_chars(s) {
        ascii_lower_seq(s)
    } else {
        unicode_lowercase(ascii_lower_seq(s))
    }
}

/// The lower case of one character, which may be several characters, none of
/// them an ASCII capital.
pub open spec fn char_lowercase(c: char) -> Seq<char> {
    if c as u32 <= 0x7f {
        seq![ascii_lower(c)]
    } else {
        ascii_lower_seq(unicode_char_lowercase(c))
    }
}

/// `str::to_lowercase`. An ASCII text has its capital letters `A` to `Z`
/// replaced by `a` to `z` and is otherwise unchanged; the result for any
/// other text follows the Unicode tables of the standard library and is
/// only named. Of that result it is claimed that it does not depend on the
/// case of the ASCII letters: each of them has its small letter as its lower
/// case, and the one character whose lower case depends on where it stands, the
/// Greek capital sigma, asks only whether letters stand beside it.
#[verifier::external_body]
pub(crate) fn to_lowercase(s: &str) -> (r: String)
    ensures
        is_ascii_chars(s@) ==> r@ == ascii_lower_seq(s@),
        !is_ascii_chars(s@) ==> r@ == unicode_lowercase(s@),
        !is_ascii_chars(s@) ==> r@ == unicode_lowercase(ascii_lower_seq(s@)),
{
    s.to_lowercase()
}

/// `char::to_lowercase`, with the characters that it yields collected in
/// order. A capital ASCII letter yields its small letter, any other ASCII
/// character itself; what other characters yield follows the Unicode tables
/// of the standard library and is only named. Of what is yielded it is claimed
/// that none of it is an ASCII capital: it is the lower case of the character,
/// or the character itself where it has none.
#[verifier::external_body]
pub(crate) fn char_to_lowercase(c: char) -> (r: Vec<char>)
    ensures
        c as u32 <= 0x7f ==> r@ == seq![ascii_lower(c)],
        c as u32 > 0x7f ==> r@ == unicode_char_lowercase(c),
        has_no_capitals(r@),
{
    c.to_lowercase().collect()
}

/// The lower case of one character.
pub fn lowercase_char(c: char) -> (r: Vec<char>)
    ensures
        r@ == char_lowercase(c),
{
    let r = char_to_lowercase(c);
    assert(ascii_lower_seq(r@) =~= r@);
    r
}

/// The lower case of a text.
pub fn lowercase_str(s: &str) -> (r: String)
    ensures
        r@ == lowercase(s@),
{
    to_lowercase(s)
}

// ---------------------------------------------------------------------------
// Conversion, equality, concatenation
// ---------------------------------------------------------------------------

/// The characters of a string, in order.
pub fn to_chars(s: &str) -> (r: Vec<char>)
    ensures
        r@ == s@,
{
    let mut out: Vec<char> = Vec::new();
    for c in it: s.chars()
        invariant
            out@ == it.seq().take(it.index()),
            it.seq() == s@,
    {
        out.push(c);
    }
    out
}

/// Whether two strings hold the same characters.
pub fn str_eq(a: &str, b: &str) -> (r: bool)
    ensures
        r == (a@ == b@),
{
    a.to_owned() == b.to_owned()
}

/// `a` followed by `b`.
pub fn concat2(a: &str, b: &str) -> (r: String)
    ensures
        r@ == a@ + b@,
{
    let mut s = a.to_owned();
    s.append(b);
    s
}

/// `a`, `b` and `c` in this order.
pub fn concat3(a: &str, b: &str, c: &str) -> (r: String)
    ensures
        r@ == a@ + b@ + c@,
{
    let mut s = a.to_owned();
    s.append(b);
    s.append(c);
    s
}

/// The characters of an optional string.
pub open spec fn opt_view(o: Option<String>) -> Option<Seq<char>> {
    match o {
        Some(s) => Some(s@),
        None => None,
    }
}

/// The characters of an optional string slice.
pub open spec fn opt_str_view(o: Option<&str>) -> Option<Seq<char>> {
    match o {
        Some(s) => Some(s@),
        None => None,
    }
}

/// A copy of an optional string.
pub fn clone_opt(o: &Option<String>) -> (r: Option<String>)
    ensures
        opt_view(r) == opt_view(*o),
{
    match o {
        Some(s) => Some(s.clone()),
        None => None,
    }
}

/// An optional string as an optional slice.
pub fn as_opt_str(o: &Option<String>) -> (r: Option<&str>)
    ensures
        opt_str_view(r) == opt_view(*o),
{
    match o {
        Some(s) => Some(s.as_str()),
        None => None,
    }
}

/// Whether two optional strings are both absent or hold the same characters.
pub fn opt_eq(a: &Option<String>, b: &Option<String>) -> (r: bool)
    ensures
        r == (opt_view(*a) == opt_view(*b)),
{
    match (a, b) {
        (Some(x), Some(y)) => *x == *y,
        (None, None) => true,
        _ => false,
    }
}

/// The characters of each string of a list.
pub open spec fn views(v: Seq<String>) -> Seq<Seq<char>> {
    v.map_values(|s: String| s@)
}

// ---------------------------------------------------------------------------
// Trimming
// ---------------------------------------------------------------------------

/// What trimming takes away at an end of a text.
#[derive(Clone, Copy)]
pub enum Cut {
    /// White space.
    Space,
    /// One particular character.
    Only(char),
}

/// Whether trimming by `cut` takes `c` away.
pub open spec fn cuts(cut: Cut, c: char) -> bool {
    match cut {
        Cut::Space => is_white_space(c),
        Cut::Only(x) => c == x,
    }
}

/// Whether trimming by `cut` takes `c` away.
pub fn cuts_char(cut: Cut, c: char) -> (b: bool)
    ensures
        b == cuts(cut, c),
{
    match cut {
        Cut::Space => char_is_white_space(c),
        Cut::Only(x) => c == x,
    }
}

/// `s` without the characters at its start that `cut` takes away.
pub open spec fn trim_start_by(s: Seq<char>, cut: Cut) -> Seq<char>
    decreases s.len(),
{
    if s.len() > 0 && cuts(cut, s[0]) {
        trim_start_by(s.drop_first(), cut)
    } else {
        s
    }
}

/// `s` without the characters at its end that `cut` takes away.
pub open spec fn trim_end_by(s: Seq<char>, cut: Cut) -> Seq<char>
    decreases s.len(),
{
    if s.len() > 0 && cuts(cut, s.last()) {
        trim_end_by(s.drop_last(), cut)
    } else {
        s
    }
}

/// `s` without the characters at both its ends that `cut` takes away.
pub open spec fn trim_by(s: Seq<char>, cut: Cut) -> Seq<char> {
    trim_end_by(trim_start_by(s, cut), cut)
}

/// `s` without white space at its ends.
pub open spec fn trim(s: Seq<char>) -> Seq<char> {
    trim_by(s, Cut::Space)
}

/// `s` without slashes at its ends.
pub open spec fn trim_slashes(s: Seq<char>) -> Seq<char> {
    trim_by(s, Cut::Only('/'))
}

/// `s` without slashes at its start.
pub open spec fn trim_leading_slashes(s: Seq<char>) -> Seq<char> {
    trim_start_by(s, Cut::Only('/'))
}

proof fn lemma_trim_start_skip(s: Seq<char>, cut: Cut, n: int)
    requires
        0 <= n <= s.len(),
        forall|i: int| 0 <= i < n ==> cuts(cut, #[trigger] s[i]),
    ensures
        trim_start_by(s, cut) == trim_start_by(s.skip(n), cut),
    decreases n,
{
    if n > 0 {
        assert(cuts(cut, s[0]));
        assert forall|i: int| 0 <= i < n - 1 implies cuts(cut, #[trigger] s.drop_first()[i]) by {
            assert(s.drop_first()[i] == s[i + 1]);
        }
        lemma_trim_start_skip(s.drop_first(), cut, n - 1);
        assert(s.drop_first().skip(n - 1) =~= s.skip(n));
    } else {
        assert(s.skip(0) =~= s);
    }
}

proof fn lemma_trim_end_take(s: Seq<char>, cut: Cut, n: int)
    requires
        0 <= n <= s.len(),
        forall|i: int| n <= i < s.len() ==> cuts(cut, #[trigger] s[i]),
    ensures
        trim_end_by(s, cut) == trim_end_by(s.take(n), cut),
    decreases s.len() - n,
{
    if n < s.len() {
        assert(cuts(cut, s[s.len() - 1]));
        lemma_trim_end_take(s.drop_last(), cut, n);
        assert(s.drop_last().take(n) =~= s.take(n));
    } else {
        assert(s.take(n) =~= s);
    }
}

/// A text whose ends are not cut is kept by trimming.
pub proof fn lemma_trim_keeps(s: Seq<char>, cut: Cut)
    requires
        s.len() > 0,
        !cuts(cut, s[0]),
        !cuts(cut, s.last()),
    ensures
        trim_by(s, cut) == s,
        trim_start_by(s, cut) == s,
{
}

/// What trimming leaves has no end that would be cut.
pub proof fn lemma_trimmed_ends(s: Seq<char>, cut: Cut)
    ensures
        trim_by(s, cut).len() > 0 ==> !cuts(cut, trim_by(s, cut)[0]) && !cuts(
            cut,
            trim_by(s, cut).last(),
        ),
{
    lemma_trimmed_start(s, cut);
    lemma_trimmed_end(trim_start_by(s, cut), cut);
}

proof fn lemma_trimmed_start(s: Seq<char>, cut: Cut)
    ensures
        trim_start_by(s, cut).len() > 0 ==> !cuts(cut, trim_start_by(s, cut)[0]),
    decreases s.len(),
{
    if s.len() > 0 && cuts(cut, s[0]) {
        lemma_trimmed_start(s.drop_first(), cut);
    }
}

proof fn lemma_trimmed_end(s: Seq<char>, cut: Cut)
    ensures
        trim_end_by(s, cut).len() > 0 ==> !cuts(cut, trim_end_by(s, cut).last()) && trim_end_by(
            s,
            cut,
        )[0] == s[0],
    decreases s.len(),
{
    if s.len() > 0 && cuts(cut, s.last()) {
        lemma_trimmed_end(s.drop_last(), cut);
    }
}

/// A text whose first character is not cut is not trimmed to nothing.
pub proof fn lemma_keeps_first(s: Seq<char>, cut: Cut)
    requires
        s.len() > 0,
        !cuts(cut, s[0]),
    ensures
        trim_by(s, cut).len() > 0,
{
    lemma_end_keeps_first(s, cut);
}

proof fn lemma_end_keeps_first(s: Seq<char>, cut: Cut)
    requires
        s.len() > 0,
        !cuts(cut, s[0]),
    ensures
        trim_end_by(s, cut).len() > 0,
    decreases s.len(),
{
    if cuts(cut, s.last()) {
        lemma_end_keeps_first(s.drop_last(), cut);
    }
}

/// Trimming a trimmed text leaves it as it is.
pub proof fn trimming_twice_is_trimming(s: Seq<char>, cut: Cut)
    ensures
        trim_by(trim_by(s, cut), cut) == trim_by(s, cut),
{
    lemma_trimmed_ends(s, cut);
    if trim_by(s, cut).len() > 0 {
        lemma_trim_keeps(trim_by(s, cut), cut);
    }
}

/// The slice of `s` that is left when `cut` is trimmed away at its start.
pub fn trim_start_cut(s: &str, cut: Cut) -> (r: &str)
    ensures
        r@ == trim_start_by(s@, cut),
{
    let chars = to_chars(s);
    let n: usize = chars.len();
    let mut from: usize = 0;
    while from < n && cuts_char(cut, chars[from])
        invariant
            n == chars@.len(),
            from <= n,
            chars@ == s@,
            forall|i: int| 0 <= i < from ==> cuts(cut, #[trigger] s@[i]),
        decreases n - from,
    {
        from = from + 1;
    }
    proof {
        lemma_trim_start_skip(s@, cut, from as int);
        assert(s@.skip(from as int) =~= s@.subrange(from as int, n as int));
    }
    s.substring_char(from, n)
}

/// The slice of `s` that is left when `cut` is trimmed away at its end.
pub fn trim_end_cut(s: &str, cut: Cut) -> (r: &str)
    ensures
        r@ == trim_end_by(s@, cut),
{
    let chars = to_chars(s);
    let mut to: usize = chars.len();
    while to > 0 && cuts_char(cut, chars[to - 1])
        invariant
            to <= chars@.len(),
            chars@ == s@,
            forall|i: int| to <= i < s@.len() ==> cuts(cut, #[trigger] s@[i]),
        decreases to,
    {
        to = to - 1;
    }
    proof {
        lemma_trim_end_take(s@, cut, to as int);
        assert(s@.take(to as int) =~= s@.subrange(0, to as int));
    }
    s.substring_char(0, to)
}

/// The slice of `s` that is left when `cut` is trimmed away at both its ends.
pub fn trim_cut(s: &str, cut: Cut) -> (r: &str)
    ensures
        r@ == trim_by(s@, cut),
{
    trim_end_cut(trim_start_cut(s, cut), cut)
}

/// `s` without white space at its ends.
pub fn trim_str(s: &str) -> (r: &str)
    ensures
        r@ == trim(s@),
{
    trim_cut(s, Cut::Space)
}

/// `s` without slashes at its ends.
pub fn trim_slashes_str(s: &str) -> (r: &str)
    ensures
        r@ == trim_slashes(s@),
{
    trim_cut(s, Cut::Only('/'))
}

/// Whether nothing is left of `s` without white space.
pub fn is_blank(s: &str) -> (b: bool)
    ensures
        b == (trim(s@).len() == 0),
{
    trim_str(s).is_empty()
}

// ---------------------------------------------------------------------------
// Searching
// ---------------------------------------------------------------------------

/// Whether `pat` stands in `s` at position `i`.
pub open spec fn occurs_at(s: Seq<char>, pat: Seq<char>, i: int) -> bool {
    0 <= i && i + pat.len() <= s.len() && s.subrange(i, i + pat.len()) == pat
}

/// Whether `pat` stands anywhere in `s`.
pub open spec fn contains_text(s: Seq<char>, pat: Seq<char>) -> bool {
    exists|i: int| occurs_at(s, pat, i)
}

/// Whether `s` begins with `pat`.
pub open spec fn starts_with(s: Seq<char>, pat: Seq<char>) -> bool {
    occurs_at(s, pat, 0)
}

/// Whether `s` ends with `pat`.
pub open spec fn ends_with(s: Seq<char>, pat: Seq<char>) -> bool {
    occurs_at(s, pat, s.len() - pat.len())
}

/// The first position at which `pat` stands in `s`.
pub open spec fn is_first_occurrence(s: Seq<char>, pat: Seq<char>, i: int) -> bool {
    occurs_at(s, pat, i) && forall|j: int| 0 <= j < i ==> !#[trigger] occurs_at(s, pat, j)
}

/// The first position at which `pat` stands in `s`, if it stands there.
pub open spec fn find_text(s: Seq<char>, pat: Seq<char>) -> Option<int> {
    if contains_text(s, pat) {
        Some(choose|i: int| is_first_occurrence(s, pat, i))
    } else {
        None
    }
}

/// The first occurrence is the position that `find_text` gives.
pub proof fn lemma_find_text(s: Seq<char>, pat: Seq<char>, i: int)
    requires
        is_first_occurrence(s, pat, i),
    ensures
        find_text(s, pat) == Some(i),
{
    let k = choose|k: int| is_first_occurrence(s, pat, k);
    assert(is_first_occurrence(s, pat, k));
    if k < i {
        assert(occurs_at(s, pat, k));
    }
    if i < k {
        assert(occurs_at(s, pat, i));
    }
}

/// Whether `pat` stands in `s` at position `i`.
pub fn chars_occur_at(s: &Vec<char>, pat: &Vec<char>, i: usize) -> (b: bool)
    requires
        i <= s@.len(),
    ensures
        b == occurs_at(s@, pat@, i as int),
{
    if pat.len() > s.len() - i {
        return false;
    }
    let n: usize = s.len();
    for k in 0..pat.len()
        invariant
            n == s@.len(),
            i + pat@.len() <= n,
            forall|j: int| 0 <= j < k ==> s@[i + j] == #[trigger] pat@[j],
    {
        if s[i + k] != pat[k] {
            assert(s@.subrange(i as int, i + pat@.len())[k as int] == s@[i + k]);
            return false;
        }
    }
    assert(s@.subrange(i as int, i + pat@.len()) =~= pat@);
    true
}

/// The first position at which `pat` stands in `s`.
pub fn find_chars(s: &Vec<char>, pat: &Vec<char>) -> (r: Option<usize>)
    ensures
        find_text(s@, pat@) == (match r {
            Some(i) => Some(i as int),
            None => None,
        }),
        r matches Some(i) ==> is_first_occurrence(s@, pat@, i as int),
{
    let n: usize = s.len();
    let mut i: usize = 0;
    loop
        invariant
            n == s@.len(),
            i <= n,
            forall|j: int| 0 <= j < i ==> !#[trigger] occurs_at(s@, pat@, j),
        decreases n - i,
    {
        if chars_occur_at(s, pat, i) {
            proof {
                lemma_find_text(s@, pat@, i as int);
            }
            return Some(i);
        }
        if i == n {
            assert forall|j: int| !occurs_at(s@, pat@, j) by {}
            return None;
        }
        i = i + 1;
    }
}

/// Whether `pat` stands anywhere in `s`.
pub fn contains_str(s: &str, pat: &str) -> (b: bool)
    ensures
        b == contains_text(s@, pat@),
{
    let r = find_chars(&to_chars(s), &to_chars(pat));
    r.is_some()
}

/// Whether `s` begins with `pat`.
pub fn starts_with_str(s: &str, pat: &str) -> (b: bool)
    ensures
        b == starts_with(s@, pat@),
{
    chars_occur_at(&to_chars(s), &to_chars(pat), 0)
}

/// Whether `s` ends with `pat`.
pub fn ends_with_str(s: &str, pat: &str) -> (b: bool)
    ensures
        b == ends_with(s@, pat@),
{
    let sc = to_chars(s);
    let pc = to_chars(pat);
    if pc.len() > sc.len() {
        return false;
    }
    chars_occur_at(&sc, &pc, sc.len() - pc.len())
}

/// The first position of `c` in `s`, or the length of `s`.
pub open spec fn index_of(s: Seq<char>, c: char) -> int
    decreases s.len(),
{
    if s.len() == 0 || s[0] == c {
        0
    } else {
        1 + index_of(s.drop_first(), c)
    }
}

/// `index_of` is the only position before which `c` does not stand and at
/// which it stands or the text ends.
pub proof fn lemma_index_of(s: Seq<char>, c: char)
    ensures
        0 <= index_of(s, c) <= s.len(),
        forall|i: int| 0 <= i < index_of(s, c) ==> #[trigger] s[i] != c,
        index_of(s, c) < s.len() ==> s[index_of(s, c)] == c,
    decreases s.len(),
{
    if s.len() > 0 && s[0] != c {
        lemma_index_of(s.drop_first(), c);
        assert forall|i: int| 0 <= i < index_of(s, c) implies #[trigger] s[i] != c by {
            if i > 0 {
                assert(s[i] == s.drop_first()[i - 1]);
            }
        }
    }
}

/// The first position of `c` in `s` from `from` on, or the length of `s`.
pub fn find_char_from(s: &Vec<char>, c: char, from: usize) -> (r: usize)
    requires
        from <= s@.len(),
    ensures
        from <= r <= s@.len(),
        r == from + index_of(s@.skip(from as int), c),
{
    let n: usize = s.len();
    let mut i: usize = from;
    while i < n && s[i] != c
        invariant
            n == s@.len(),
            from <= i <= n,
            forall|j: int| from <= j < i ==> #[trigger] s@[j] != c,
        decreases n - i,
    {
        i = i + 1;
    }
    proof {
        let tail = s@.skip(from as int);
        lemma_index_of(tail, c);
        let k = index_of(tail, c);
        if k < i - from {
            assert(tail[k] == s@[from + k]);
        }
        if i - from < k {
            assert(tail[i - from] == s@[i as int]);
        }
    }
    i
}

// ---------------------------------------------------------------------------
// Splitting and joining
// ---------------------------------------------------------------------------

/// The parts of `s` between the occurrences of `sep`.
pub open spec fn split_on(s: Seq<char>, sep: char) -> Seq<Seq<char>>
    decreases s.len(),
    via split_on_decreases
{
    let i = index_of(s, sep);
    if i >= s.len() {
        seq![s]
    } else {
        seq![s.take(i)] + split_on(s.skip(i + 1), sep)
    }
}

#[via_fn]
proof fn split_on_decreases(s: Seq<char>, sep: char) {
    lemma_index_of(s, sep);
}

/// The parts of `s` between the occurrences of `sep`.
pub fn split_str(s: &str, sep: char) -> (r: Vec<String>)
    ensures
        views(r@) == split_on(s@, sep),
        r@.len() >= 1,
{
    let chars = to_chars(s);
    let n: usize = chars.len();
    let mut out: Vec<String> = Vec::new();
    let mut from: usize = 0;
    assert(s@.skip(0) =~= s@);
    assert(views(out@) + split_on(s@, sep) =~= split_on(s@, sep));
    loop
        invariant
            n == s@.len(),
            chars@ == s@,
            from <= n,
            views(out@) + split_on(s@.skip(from as int), sep) == split_on(s@, sep),
        decreases n - from,
    {
        let i: usize = find_char_from(&chars, sep, from);
        let ghost tail = s@.skip(from as int);
        let ghost before = out@;
        out.push(s.substring_char(from, i).to_owned());
        proof {
            lemma_index_of(tail, sep);
            assert(views(out@) =~= views(before).push(s@.subrange(from as int, i as int)));
            assert(s@.subrange(from as int, i as int) =~= tail.take(i - from));
        }
        if i == n {
            proof {
                assert(tail.take(i - from) =~= tail);
                assert(split_on(tail, sep) =~= seq![tail]);
                assert(views(out@) =~= views(before) + seq![tail]);
            }
            return out;
        }
        proof {
            assert(tail.skip(i - from + 1) =~= s@.skip(i + 1));
            assert(views(before) + split_on(tail, sep) =~= views(out@) + split_on(
                s@.skip(i + 1),
                sep,
            ));
        }
        from = i + 1;
    }
}

/// The parts in order, with `sep` between each two.
pub open spec fn join(parts: Seq<Seq<char>>, sep: Seq<char>) -> Seq<char>
    decreases parts.len(),
{
    if parts.len() == 0 {
        Seq::empty()
    } else if parts.len() == 1 {
        parts[0]
    } else {
        join(parts.drop_last(), sep) + sep + parts.last()
    }
}

/// The strings in order, with `sep` between each two.
pub fn join_strs(parts: &Vec<String>, sep: &str) -> (r: String)
    ensures
        r@ == join(views(parts@), sep@),
{
    let mut out = String::new();
    for i in 0..parts.len()
        invariant
            out@ == join(views(parts@).take(i as int), sep@),
    {
        if i > 0 {
            out.append(sep);
        }
        out.append(parts[i].as_str());
        proof {
            let next = views(parts@).take(i + 1);
            assert(next.drop_last() =~= views(parts@).take(i as int));
            assert(next.last() == parts@[i as int]@);
        }
    }
    assert(views(parts@).take(parts@.len() as int) =~= views(parts@));
    out
}

// ---------------------------------------------------------------------------
// Decimal numbers
// ---------------------------------------------------------------------------

/// The decimal digit `d`.
pub open spec fn digit(d: nat) -> char {
    ('0' as nat + d) as char
}

/// The number `n` in decimal digits, without leading zeros.
pub open spec fn decimal(n: nat) -> Seq<char>
    decreases n,
{
    if n < 10 {
        seq![digit(n)]
    } else {
        decimal(n / 10).push(digit(n % 10))
    }
}

/// The number `n` in decimal digits.
pub fn decimal_string(n: u64) -> (r: String)
    ensures
        r@ == decimal(n as nat),
    decreases n,
{
    let d: u8 = (n % 10) as u8;
    let c: char = (48u8 + d) as char;
    assert(c == digit((n % 10) as nat));
    if n < 10 {
        let mut s = String::new();
        s.push(c);
        assert(s@ =~= seq![c]);
        s
    } else {
        let mut s = decimal_string(n / 10);
        s.push(c);
        s
    }
}

// ---------------------------------------------------------------------------
// Order
// ---------------------------------------------------------------------------

/// Whether `a` comes before `b` in the order of their characters' codes.
pub open spec fn text_before(a: Seq<char>, b: Seq<char>) -> bool
    decreases a.len(),
{
    if b.len() == 0 {
        false
    } else if a.len() == 0 {
        true
    } else if a[0] != b[0] {
        a[0] < b[0]
    } else {
        text_before(a.drop_first(), b.drop_first())
    }
}

/// No text comes before itself.
pub proof fn lemma_before_irreflexive(a: Seq<char>)
    ensures
        !text_before(a, a),
    decreases a.len(),
{
    if a.len() > 0 {
        lemma_before_irreflexive(a.drop_first());
    }
}

/// A text comes before whatever comes after a text that it comes before.
pub proof fn lemma_before_transitive(a: Seq<char>, b: Seq<char>, c: Seq<char>)
    ensures
        text_before(a, b) && text_before(b, c) ==> text_before(a, c),
    decreases a.len(),
{
    if a.len() > 0 && b.len() > 0 && c.len() > 0 {
        lemma_before_transitive(a.drop_first(), b.drop_first(), c.drop_first());
    }
}

/// Of two different texts one comes before the other.
pub proof fn lemma_before_total(a: Seq<char>, b: Seq<char>)
    ensures
        text_before(a, b) || text_before(b, a) || a == b,
    decreases a.len(),
{
    if a.len() > 0 && b.len() > 0 && a[0] == b[0] {
        lemma_before_total(a.drop_first(), b.drop_first());
        if a.drop_first() == b.drop_first() {
            assert(a =~= seq![a[0]] + a.drop_first());
            assert(b =~= seq![b[0]] + b.drop_first());
        }
    } else if a.len() == 0 && b.len() == 0 {
        assert(a =~= b);
    }
}

/// Whether `a` comes before `b` in the order of their characters' codes.
pub fn str_before(a: &str, b: &str) -> (r: bool)
    ensures
        r == text_before(a@, b@),
{
    let ac = to_chars(a);
    let bc = to_chars(b);
    let mut i: usize = 0;
    assert(a@.skip(0) =~= a@);
    assert(b@.skip(0) =~= b@);
    loop
        invariant
            ac@ == a@,
            bc@ == b@,
            i <= ac@.len(),
            i <= bc@.len(),
            text_before(a@, b@) == text_before(a@.skip(i as int), b@.skip(i as int)),
        decreases ac@.len() - i,
    {
        if i == bc.len() {
            return false;
        }
        if i == ac.len() {
            return true;
        }
        if ac[i] != bc[i] {
            return ac[i] < bc[i];
        }
        proof {
            assert(a@.skip(i as int).drop_first() =~= a@.skip(i + 1));
            assert(b@.skip(i as int).drop_first() =~= b@.skip(i + 1));
        }
        i = i + 1;
    }
}

} // verus!
