//! Text as sequences of characters: white space, trimming and splitting.
//!
//! The specifications speak of `Seq<char>`; the executable functions walk a
//! `Vec<char>` and hand back owned `String`s.

use vstd::prelude::*;
use vstd::std_specs::iter::IteratorSpec;

verus! {

/// `String::push` appends one character to the end of the string.
pub assume_specification[ String::push ](s: &mut String, c: char)
    ensures
        final(s)@ == old(s)@.push(c),
;

/// `str == str` holds exactly when the two texts have the same characters.
pub assume_specification[ <str as PartialEq<str>>::eq ](a: &str, b: &str) -> (r: bool)
    ensures
        r == (a@ == b@),
;

/// The characters with the Unicode property `White_Space`.
pub open spec fn is_whitespace(c: char) -> bool {
    let u = c as u32;
    ||| 0x09 <= u <= 0x0D
    ||| u == 0x20
    ||| u == 0x85
    ||| u == 0xA0
    ||| u == 0x1680
    ||| 0x2000 <= u <= 0x200A
    ||| u == 0x2028
    ||| u == 0x2029
    ||| u == 0x202F
    ||| u == 0x205F
    ||| u == 0x3000
}

/// The views of the strings of `v`, in order.
pub open spec fn texts(v: Seq<String>) -> Seq<Seq<char>> {
    Seq::new(v.len(), |i: int| v[i]@)
}

/// The index of the first character at or after `i` that is no white space,
/// or the length of `s` if there is none.
pub open spec fn skip_whitespace(s: Seq<char>, i: int) -> int
    decreases s.len() - i,
{
    if 0 <= i < s.len() && is_whitespace(s[i]) {
        skip_whitespace(s, i + 1)
    } else {
        i
    }
}

/// The index of the first white space character at or after `i`, or the
/// length of `s` if there is none.
pub open spec fn skip_word(s: Seq<char>, i: int) -> int
    decreases s.len() - i,
{
    if 0 <= i < s.len() && !is_whitespace(s[i]) {
        skip_word(s, i + 1)
    } else {
        i
    }
}

/// The index just behind the last character before `j` that is no white
/// space, or 0 if there is none.
pub open spec fn skip_whitespace_back(s: Seq<char>, j: int) -> int
    decreases j,
{
    if 0 < j <= s.len() && is_whitespace(s[j - 1]) {
        skip_whitespace_back(s, j - 1)
    } else {
        j
    }
}

/// The index of the first `sep` at or after `i`, or the length of `s` if
/// there is none.
pub open spec fn find_char(s: Seq<char>, sep: char, i: int) -> int
    decreases s.len() - i,
{
    if 0 <= i < s.len() && s[i] != sep {
        find_char(s, sep, i + 1)
    } else {
        i
    }
}

/// The maximal runs of characters of `s[i..]` that hold no white space.
pub open spec fn words_from(s: Seq<char>, i: int) -> Seq<Seq<char>>
    decreases s.len() - i, 1int,
{
    if 0 <= i < s.len() {
        if is_whitespace(s[i]) {
            words_from(s, i + 1)
        } else {
            let e = skip_word(s, i);
            if i < e <= s.len() {
                seq![s.subrange(i, e)] + words_from(s, e)
            } else {
                seq![]
            }
        }
    } else {
        seq![]
    }
}

/// The words of `s`: its maximal runs of characters that are no white space.
pub open spec fn split_whitespace(s: Seq<char>) -> Seq<Seq<char>> {
    words_from(s, 0)
}

/// The pieces of `s[i..]` between occurrences of `sep`. There is always at
/// least one piece, and a piece may be empty.
pub open spec fn pieces_from(s: Seq<char>, sep: char, i: int) -> Seq<Seq<char>>
    decreases s.len() - i,
{
    let e = find_char(s, sep, i);
    if 0 <= i <= e < s.len() {
        seq![s.subrange(i, e)] + pieces_from(s, sep, e + 1)
    } else if 0 <= i <= s.len() {
        seq![s.subrange(i, s.len() as int)]
    } else {
        seq![]
    }
}

/// The pieces of `s` between occurrences of `sep`.
pub open spec fn split(s: Seq<char>, sep: char) -> Seq<Seq<char>> {
    pieces_from(s, sep, 0)
}

/// `s` without its leading white space.
pub open spec fn trim_start(s: Seq<char>) -> Seq<char> {
    s.skip(skip_whitespace(s, 0))
}

/// `s` without its trailing white space.
pub open spec fn trim_end(s: Seq<char>) -> Seq<char> {
    s.take(skip_whitespace_back(s, s.len() as int))
}

/// `s` without its leading and trailing white space.
pub open spec fn trim(s: Seq<char>) -> Seq<char> {
    trim_end(trim_start(s))
}

/// Skipping white space forwards stops within the text, passes over white
/// space only, and stops at a character that is none.
pub proof fn lemma_skip_whitespace_bounds(s: Seq<char>, i: int)
    requires
        0 <= i <= s.len(),
    ensures
        i <= skip_whitespace(s, i) <= s.len(),
        forall|k: int| i <= k < skip_whitespace(s, i) ==> is_whitespace(s[k]),
        skip_whitespace(s, i) < s.len() ==> !is_whitespace(s[skip_whitespace(s, i)]),
    decreases s.len() - i,
{
    if i < s.len() && is_whitespace(s[i]) {
        lemma_skip_whitespace_bounds(s, i + 1);
    }
}

/// Skipping a word stops within the text, passes over no white space, and
/// stops at white space.
pub proof fn lemma_skip_word_bounds(s: Seq<char>, i: int)
    requires
        0 <= i <= s.len(),
    ensures
        i <= skip_word(s, i) <= s.len(),
        forall|k: int| i <= k < skip_word(s, i) ==> !is_whitespace(s[k]),
        skip_word(s, i) < s.len() ==> is_whitespace(s[skip_word(s, i)]),
    decreases s.len() - i,
{
    if i < s.len() && !is_whitespace(s[i]) {
        lemma_skip_word_bounds(s, i + 1);
    }
}

/// Skipping white space backwards stops within the text, passes over white
/// space only, and stops behind a character that is none.
pub proof fn lemma_skip_whitespace_back_bounds(s: Seq<char>, j: int)
    requires
        0 <= j <= s.len(),
    ensures
        0 <= skip_whitespace_back(s, j) <= j,
        forall|k: int| skip_whitespace_back(s, j) <= k < j ==> is_whitespace(s[k]),
        0 < skip_whitespace_back(s, j) ==> !is_whitespace(s[skip_whitespace_back(s, j) - 1]),
    decreases j,
{
    if 0 < j && is_whitespace(s[j - 1]) {
        lemma_skip_whitespace_back_bounds(s, j - 1);
    }
}

/// Whether `c` has the Unicode property `White_Space`.
pub fn char_is_whitespace(c: char) -> (r: bool)
    ensures
        r == is_whitespace(c),
{
    let u: u32 = c as u32;
    (0x09 <= u && u <= 0x0D) || u == 0x20 || u == 0x85 || u == 0xA0 || u == 0x1680 || (0x2000 <= u
        && u <= 0x200A) || u == 0x2028 || u == 0x2029 || u == 0x202F || u == 0x205F || u == 0x3000
}

/// The characters of `s`, in order.
pub fn chars_of(s: &str) -> (v: Vec<char>)
    ensures
        v@ == s@,
{
    let mut v: Vec<char> = Vec::new();
    for c in it: s.chars()
        invariant
            v@ == it.seq().take(it.index()),
            it.seq() == s@,
    {
        v.push(c);
    }
    v
}

/// The text made of the characters `v[from..to]`.
pub fn string_of(v: &Vec<char>, from: usize, to: usize) -> (s: String)
    requires
        from <= to <= v.len(),
    ensures
        s@ == v@.subrange(from as int, to as int),
{
    let mut s = String::new();
    let mut i: usize = from;
    while i < to
        invariant
            from <= i <= to <= v.len(),
            s@ == v@.subrange(from as int, i as int),
        decreases to - i,
    {
        s.push(v[i]);
        i = i + 1;
    }
    s
}

/// Whether two texts have the same characters.
pub fn str_eq(a: &str, b: &str) -> (r: bool)
    ensures
        r == (a@ == b@),
{
    *a == *b
}

/// The index of the first character of `v` at or after `i` that is no white
/// space.
pub fn index_after_whitespace(v: &Vec<char>, i: usize) -> (r: usize)
    requires
        i <= v.len(),
    ensures
        r == skip_whitespace(v@, i as int),
        i <= r <= v.len(),
{
    let mut k: usize = i;
    while k < v.len() && char_is_whitespace(v[k])
        invariant
            i <= k <= v.len(),
            skip_whitespace(v@, k as int) == skip_whitespace(v@, i as int),
        decreases v.len() - k,
    {
        k = k + 1;
    }
    k
}

/// The index of the first white space character of `v` at or after `i`.
pub fn index_after_word(v: &Vec<char>, i: usize) -> (r: usize)
    requires
        i <= v.len(),
    ensures
        r == skip_word(v@, i as int),
        i <= r <= v.len(),
{
    let mut k: usize = i;
    while k < v.len() && !char_is_whitespace(v[k])
        invariant
            i <= k <= v.len(),
            skip_word(v@, k as int) == skip_word(v@, i as int),
        decreases v.len() - k,
    {
        k = k + 1;
    }
    k
}

/// The index just behind the last character of `v` before `j` that is no
/// white space.
pub fn index_before_whitespace(v: &Vec<char>, j: usize) -> (r: usize)
    requires
        j <= v.len(),
    ensures
        r == skip_whitespace_back(v@, j as int),
        r <= j,
{
    let mut k: usize = j;
    while k > 0 && char_is_whitespace(v[k - 1])
        invariant
            k <= j <= v.len(),
            skip_whitespace_back(v@, k as int) == skip_whitespace_back(v@, j as int),
        decreases k,
    {
        k = k - 1;
    }
    k
}

/// The index of the first `sep` in `v` at or after `i`.
pub fn index_of_char(v: &Vec<char>, sep: char, i: usize) -> (r: usize)
    requires
        i <= v.len(),
    ensures
        r == find_char(v@, sep, i as int),
        i <= r <= v.len(),
{
    let mut k: usize = i;
    while k < v.len() && v[k] != sep
        invariant
            i <= k <= v.len(),
            find_char(v@, sep, k as int) == find_char(v@, sep, i as int),
        decreases v.len() - k,
    {
        k = k + 1;
    }
    k
}

/// The words of `s`, as `str::split_whitespace` yields them.
pub fn words(s: &str) -> (r: Vec<String>)
    ensures
        texts(r@) == split_whitespace(s@),
{
    let v = chars_of(s);
    let mut r: Vec<String> = Vec::new();
    let mut i: usize = 0;
    while i < v.len()
        invariant
            i <= v.len(),
            v@ == s@,
            texts(r@) + words_from(v@, i as int) == words_from(v@, 0),
        decreases v.len() - i,
    {
        if char_is_whitespace(v[i]) {
            i = i + 1;
        } else {
            let e = index_after_word(&v, i);
            proof {
                lemma_skip_word_bounds(v@, i as int);
            }
            let w = string_of(&v, i, e);
            let ghost before = texts(r@);
            r.push(w);
            assert(texts(r@) == before + seq![v@.subrange(i as int, e as int)]);
            i = e;
        }
    }
    assert(texts(r@) + Seq::<Seq<char>>::empty() == texts(r@));
    r
}

/// The pieces of `s` between occurrences of `sep`, as `str::split` yields
/// them for a separator of one character.
pub fn pieces(s: &str, sep: char) -> (r: Vec<String>)
    ensures
        texts(r@) == split(s@, sep),
        r@.len() >= 1,
{
    let v = chars_of(s);
    let mut r: Vec<String> = Vec::new();
    let mut i: usize = 0;
    loop
        invariant_except_break
            i <= v.len(),
            v@ == s@,
            texts(r@) + pieces_from(v@, sep, i as int) == pieces_from(v@, sep, 0),
        ensures
            v@ == s@,
            texts(r@) == pieces_from(v@, sep, 0),
            r@.len() >= 1,
        decreases v.len() - i,
    {
        let e = index_of_char(&v, sep, i);
        let w = string_of(&v, i, e);
        let ghost before = texts(r@);
        r.push(w);
        assert(texts(r@) == before + seq![v@.subrange(i as int, e as int)]);
        if e < v.len() {
            i = e + 1;
        } else {
            break ;
        }
    }
    r
}

/// `s` without its leading and trailing white space, as `str::trim` gives
/// it.
pub fn trimmed(s: &str) -> (r: String)
    ensures
        r@ == trim(s@),
{
    let v = chars_of(s);
    let a = index_after_whitespace(&v, 0);
    let ghost rest = v@.skip(a as int);
    let mut k: usize = v.len();
    while k > a && char_is_whitespace(v[k - 1])
        invariant
            a <= k <= v.len(),
            rest == v@.skip(a as int),
            skip_whitespace_back(rest, k - a) == skip_whitespace_back(rest, rest.len() as int),
        decreases k,
    {
        k = k - 1;
    }
    assert(v@.subrange(a as int, k as int) == rest.take(k - a));
    string_of(&v, a, k)
}

/// `t` is one of the entries of `table`.
pub open spec fn listed(table: Seq<&'static str>, t: Seq<char>) -> bool {
    exists|i: int| 0 <= i < table.len() && (#[trigger] table[i])@ == t
}


/// Whether `t` is one of the entries of `table`.
pub fn is_listed(table: &[&'static str], t: &str) -> (r: bool)
    ensures
        r == listed(table@, t@),
{
    let mut i: usize = 0;
    while i < table.len()
        invariant
            i <= table@.len(),
            forall|k: int| 0 <= k < i ==> (#[trigger] table@[k])@ != t@,
        decreases table@.len() - i,
    {
        if str_eq(table[i], t) {
            return true;
        }
        i = i + 1;
    }
    false
}

/// A copy of each string of `v`, in order.
pub fn clone_strings(v: &Vec<String>) -> (r: Vec<String>)
    ensures
        texts(r@) == texts(v@),
{
    let mut r: Vec<String> = Vec::new();
    let mut i: usize = 0;
    while i < v.len()
        invariant
            i <= v@.len(),
            r@.len() == i,
            forall|k: int| 0 <= k < i ==> (#[trigger] r@[k])@ == v@[k]@,
        decreases v@.len() - i,
    {
        r.push(v[i].clone());
        i = i + 1;
    }
    assert(texts(r@) =~= texts(v@));
    r
}

/// Whether `s` ends with the characters of `suffix`.
pub open spec fn ends_with(s: Seq<char>, suffix: Seq<char>) -> bool {
    s.len() >= suffix.len() && s.skip(s.len() - suffix.len()) == suffix
}

/// Whether `v` ends with the characters of `suffix`.
pub fn has_suffix(v: &Vec<char>, suffix: &Vec<char>) -> (r: bool)
    ensures
        r == ends_with(v@, suffix@),
{
    if v.len() < suffix.len() {
        return false;
    }
    let d: usize = v.len() - suffix.len();
    let mut i: usize = 0;
    while i < suffix.len()
        invariant
            i <= suffix.len(),
            d + suffix.len() == v.len(),
            forall|k: int| 0 <= k < i ==> v@[d + k] == suffix@[k],
        decreases suffix@.len() - i,
    {
        if v[d + i] != suffix[i] {
            assert(v@.skip(d as int)[i as int] != suffix@[i as int]);
            return false;
        }
        i = i + 1;
    }
    assert(v@.skip(d as int) =~= suffix@);
    true
}

} // verus!
