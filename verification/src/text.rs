//! Text primitives: whitespace, trimming and the alphabetical order of names.

use vstd::prelude::*;

verus! {

/// Whether `c` has the Unicode `White_Space` property, as `char::is_whitespace`
/// decides it.
pub uninterp spec fn is_whitespace(c: char) -> bool;

/// `char::is_whitespace`: the result is named by [`is_whitespace`]; nothing
/// more is claimed about which characters count as whitespace.
pub assume_specification[ char::is_whitespace ](c: char) -> (r: bool)
    ensures
        r == is_whitespace(c),
;

/// `String::push`: appends one character at the end.
pub assume_specification[ String::push ](s: &mut String, c: char)
    ensures
        final(s)@ == old(s)@.push(c),
;

/// `String::pop`: removes and returns the last character, or returns `None`
/// and leaves an empty string as it is.
pub assume_specification[ String::pop ](s: &mut String) -> (r: Option<char>)
    ensures
        old(s)@.len() == 0 ==> r is None && final(s)@ == old(s)@,
        old(s)@.len() > 0 ==> r == Some(old(s)@.last()) && final(s)@ == old(s)@.drop_last(),
;

/// The first index at or after `i` whose character is not whitespace, or the
/// length of `s` where there is none.
pub open spec fn skip_leading(s: Seq<char>, i: int) -> int
    decreases s.len() - i,
{
    if 0 <= i < s.len() && is_whitespace(s[i]) {
        skip_leading(s, i + 1)
    } else {
        i
    }
}

/// The end of the last non-whitespace character of `s` before `j`, looking no
/// further back than `lo`.
pub open spec fn skip_trailing(s: Seq<char>, lo: int, j: int) -> int
    decreases j - lo,
{
    if 0 <= lo < j <= s.len() && is_whitespace(s[j - 1]) {
        skip_trailing(s, lo, j - 1)
    } else {
        j
    }
}

/// `s` without its leading and trailing whitespace.
pub open spec fn trimmed(s: Seq<char>) -> Seq<char> {
    let lo = skip_leading(s, 0);
    s.subrange(lo, skip_trailing(s, lo, s.len() as int))
}

/// Whether every character of `s` is whitespace (vacuously so for the empty
/// text).
pub open spec fn is_blank(s: Seq<char>) -> bool {
    forall|i: int| 0 <= i < s.len() ==> is_whitespace(#[trigger] s[i])
}

proof fn lemma_skip_leading(s: Seq<char>, i: int)
    requires
        0 <= i <= s.len(),
    ensures
        i <= skip_leading(s, i) <= s.len(),
        forall|k: int| i <= k < skip_leading(s, i) ==> is_whitespace(#[trigger] s[k]),
        skip_leading(s, i) < s.len() ==> !is_whitespace(s[skip_leading(s, i)]),
    decreases s.len() - i,
{
    if i < s.len() && is_whitespace(s[i]) {
        lemma_skip_leading(s, i + 1);
    }
}

proof fn lemma_skip_trailing(s: Seq<char>, lo: int, j: int)
    requires
        0 <= lo <= j <= s.len(),
    ensures
        lo <= skip_trailing(s, lo, j) <= j,
        forall|k: int| skip_trailing(s, lo, j) <= k < j ==> is_whitespace(#[trigger] s[k]),
        lo < skip_trailing(s, lo, j) ==> !is_whitespace(s[skip_trailing(s, lo, j) - 1]),
    decreases j,
{
    if lo < j && is_whitespace(s[j - 1]) {
        lemma_skip_trailing(s, lo, j - 1);
    }
}

/// Trimming leaves nothing exactly when the text is blank; what it leaves
/// neither starts nor ends with whitespace, and is a contiguous part of the
/// text.
pub proof fn lemma_trimmed(s: Seq<char>)
    ensures
        trimmed(s).len() == 0 <==> is_blank(s),
        trimmed(s).len() <= s.len(),
        trimmed(s).len() > 0 ==> !is_whitespace(trimmed(s).first()) && !is_whitespace(
            trimmed(s).last(),
        ),
        is_blank(trimmed(s)) ==> trimmed(s).len() == 0,
{
    let lo = skip_leading(s, 0);
    let hi = skip_trailing(s, lo, s.len() as int);
    lemma_skip_leading(s, 0);
    lemma_skip_trailing(s, lo, s.len() as int);
    if lo == hi {
        assert forall|i: int| 0 <= i < s.len() implies is_whitespace(#[trigger] s[i]) by {
            if i < lo {
            } else {
                assert(hi <= i);
            }
        }
    } else {
        assert(!is_whitespace(s[lo]));
        assert(trimmed(s).first() == s[lo]);
        assert(trimmed(s).last() == s[hi - 1]);
    }
}

/// Returns `s` without its leading and trailing whitespace.
pub fn trim(s: &str) -> (r: String)
    ensures
        r@ == trimmed(s@),
{
    let n: usize = s.unicode_len();
    let mut lo: usize = 0;
    while lo < n && s.get_char(lo).is_whitespace()
        invariant
            lo <= n,
            n == s@.len(),
            skip_leading(s@, 0) == skip_leading(s@, lo as int),
        decreases n - lo,
    {
        lo += 1;
    }
    let mut hi: usize = n;
    while hi > lo && s.get_char(hi - 1).is_whitespace()
        invariant
            lo <= hi <= n,
            n == s@.len(),
            skip_trailing(s@, lo as int, n as int) == skip_trailing(s@, lo as int, hi as int),
        decreases hi,
    {
        hi -= 1;
    }
    s.substring_char(lo, hi).to_owned()
}

/// The first index at or after `i` that holds a line break, or the length of
/// `s` where there is none.
pub open spec fn line_end(s: Seq<char>, i: int) -> int
    decreases s.len() - i,
{
    if 0 <= i < s.len() && s[i] != '\n' {
        line_end(s, i + 1)
    } else {
        i
    }
}

/// The lines of `s` from index `i` on: the pieces between its line breaks,
/// an empty piece after a final line break included.
pub open spec fn lines_from(s: Seq<char>, i: int) -> Seq<Seq<char>>
    decreases s.len() - i,
{
    let e = line_end(s, i);
    if 0 <= i <= e < s.len() {
        seq![s.subrange(i, e)] + lines_from(s, e + 1)
    } else if 0 <= i <= s.len() {
        seq![s.subrange(i, s.len() as int)]
    } else {
        Seq::empty()
    }
}

/// The lines of `s`; a text without a line break is one line, the empty text
/// one empty line.
pub open spec fn split_lines(s: Seq<char>) -> Seq<Seq<char>> {
    lines_from(s, 0)
}

/// The texts of a list, each by its view.
pub open spec fn texts_view(texts: Seq<String>) -> Seq<Seq<char>> {
    texts.map_values(|t: String| t@)
}

/// Splits `s` at its line breaks.
pub fn lines(s: &str) -> (r: Vec<String>)
    ensures
        texts_view(r@) == split_lines(s@),
{
    let n: usize = s.unicode_len();
    let mut r: Vec<String> = Vec::new();
    let mut start: usize = 0;
    let mut i: usize = 0;
    assert(texts_view(r@) + lines_from(s@, 0) =~= split_lines(s@));
    while i < n
        invariant
            start <= i <= n,
            n == s@.len(),
            line_end(s@, start as int) == line_end(s@, i as int),
            texts_view(r@) + lines_from(s@, start as int) == split_lines(s@),
        decreases n - i,
    {
        if s.get_char(i) == '\n' {
            let ghost before = texts_view(r@);
            r.push(s.substring_char(start, i).to_owned());
            assert(texts_view(r@) =~= before + seq![s@.subrange(start as int, i as int)]);
            assert(texts_view(r@) + lines_from(s@, i + 1) =~= before + lines_from(
                s@,
                start as int,
            ));
            start = i + 1;
        }
        i += 1;
    }
    let ghost before = texts_view(r@);
    r.push(s.substring_char(start, n).to_owned());
    assert(texts_view(r@) =~= before + lines_from(s@, start as int));
    r
}

/// Whether the characters of `a` from index `i` on come strictly before those
/// of `b` from index `i` on, comparing character by character by code point,
/// a proper prefix coming first.
pub open spec fn precedes_from(a: Seq<char>, b: Seq<char>, i: int) -> bool
    decreases a.len() - i,
{
    if i < 0 || i >= b.len() {
        false
    } else if i >= a.len() {
        true
    } else if a[i] != b[i] {
        (a[i] as int) < (b[i] as int)
    } else {
        precedes_from(a, b, i + 1)
    }
}

/// Alphabetical order of names: `a` sorts strictly before `b`.
pub open spec fn precedes(a: Seq<char>, b: Seq<char>) -> bool {
    precedes_from(a, b, 0)
}

proof fn lemma_precedes_from_transitive(a: Seq<char>, b: Seq<char>, c: Seq<char>, i: int)
    requires
        precedes_from(a, b, i),
        precedes_from(b, c, i),
    ensures
        precedes_from(a, c, i),
    decreases a.len() - i,
{
    if i < a.len() && a[i] == b[i] && b[i] == c[i] {
        lemma_precedes_from_transitive(a, b, c, i + 1);
    }
}

proof fn lemma_precedes_from_asymmetric(a: Seq<char>, b: Seq<char>, i: int)
    requires
        precedes_from(a, b, i),
    ensures
        !precedes_from(b, a, i),
    decreases a.len() - i,
{
    if i < a.len() && a[i] == b[i] {
        lemma_precedes_from_asymmetric(a, b, i + 1);
    }
}

proof fn lemma_precedes_from_total(a: Seq<char>, b: Seq<char>, i: int)
    requires
        0 <= i,
        !precedes_from(a, b, i),
        !precedes_from(b, a, i),
    ensures
        a.len() <= i ==> b.len() <= i,
        i < a.len() ==> a.len() == b.len(),
        forall|k: int| i <= k < a.len() ==> a[k] == b[k],
    decreases a.len() - i,
{
    if i < a.len() && i < b.len() {
        assert(a[i] == b[i]);
        lemma_precedes_from_total(a, b, i + 1);
    }
}

/// The alphabetical order is a strict total order on names.
pub proof fn lemma_precedes_order(a: Seq<char>, b: Seq<char>, c: Seq<char>)
    ensures
        !precedes(a, a),
        precedes(a, b) ==> !precedes(b, a),
        precedes(a, b) && precedes(b, c) ==> precedes(a, c),
        precedes(a, b) || a == b || precedes(b, a),
{
    if precedes(a, a) {
        lemma_precedes_from_asymmetric(a, a, 0);
    }
    if precedes(a, b) {
        lemma_precedes_from_asymmetric(a, b, 0);
        if precedes(b, c) {
            lemma_precedes_from_transitive(a, b, c, 0);
        }
    }
    if !precedes(a, b) && !precedes(b, a) {
        lemma_precedes_from_total(a, b, 0);
        assert(a =~= b);
    }
}

/// How one name stands to another in alphabetical order.
#[derive(Clone, Copy, Debug, PartialEq, Eq)]
pub enum NameOrder {
    Before,
    Same,
    After,
}

/// Compares two names alphabetically.
pub fn compare_names(a: &str, b: &str) -> (r: NameOrder)
    ensures
        r is Before <==> precedes(a@, b@),
        r is Same <==> a@ == b@,
        r is After <==> precedes(b@, a@),
{
    let na: usize = a.unicode_len();
    let nb: usize = b.unicode_len();
    let mut i: usize = 0;
    proof {
        lemma_precedes_order(a@, b@, a@);
    }
    while i < na && i < nb
        invariant
            na == a@.len(),
            nb == b@.len(),
            i <= na,
            i <= nb,
            forall|k: int| 0 <= k < i ==> a@[k] == b@[k],
            precedes(a@, b@) == precedes_from(a@, b@, i as int),
            precedes(b@, a@) == precedes_from(b@, a@, i as int),
        decreases na - i,
    {
        let ca: char = a.get_char(i);
        let cb: char = b.get_char(i);
        if ca != cb {
            if (ca as u32) < (cb as u32) {
                return NameOrder::Before;
            } else {
                return NameOrder::After;
            }
        }
        i += 1;
    }
    if na < nb {
        NameOrder::Before
    } else if nb < na {
        NameOrder::After
    } else {
        assert(a@ =~= b@);
        NameOrder::Same
    }
}

} // verus!
