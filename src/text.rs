use vstd::prelude::*;
use vstd::std_specs::iter::IteratorSpec;

verus! {

// ---------------------------------------------------------------------------
// Character classes and string views
// ---------------------------------------------------------------------------

/// The characters that carry the Unicode `White_Space` property, which is what
/// `char::is_whitespace` and `str::trim` go by.
pub open spec fn is_ws(c: char) -> bool {
    c == '\t' || c == '\n' || c == '\u{0B}' || c == '\u{0C}' || c == '\r' || c == ' '
        || c == '\u{85}' || c == '\u{A0}' || c == '\u{1680}' || ('\u{2000}' <= c && c
        <= '\u{200A}') || c == '\u{2028}' || c == '\u{2029}' || c == '\u{202F}' || c
        == '\u{205F}' || c == '\u{3000}'
}

pub fn is_ws_char(c: char) -> (r: bool)
    ensures
        r == is_ws(c),
{
    c == '\t' || c == '\n' || c == '\u{0B}' || c == '\u{0C}' || c == '\r' || c == ' ' || c
        == '\u{85}' || c == '\u{A0}' || c == '\u{1680}' || ('\u{2000}' <= c && c <= '\u{200A}')
        || c == '\u{2028}' || c == '\u{2029}' || c == '\u{202F}' || c == '\u{205F}' || c
        == '\u{3000}'
}

/// `s` with its leading whitespace removed.
pub open spec fn trim_left(s: Seq<char>) -> Seq<char>
    decreases s.len(),
{
    if s.len() > 0 && is_ws(s[0]) {
        trim_left(s.drop_first())
    } else {
        s
    }
}

/// `s` with its trailing whitespace removed.
pub open spec fn trim_right(s: Seq<char>) -> Seq<char>
    decreases s.len(),
{
    if s.len() > 0 && is_ws(s.last()) {
        trim_right(s.drop_last())
    } else {
        s
    }
}

/// `s` with whitespace removed at both ends, as `str::trim` does.
pub open spec fn trim(s: Seq<char>) -> Seq<char> {
    trim_right(trim_left(s))
}

pub open spec fn starts_with(s: Seq<char>, p: Seq<char>) -> bool {
    p.len() <= s.len() && s.subrange(0, p.len() as int) == p
}

pub open spec fn ends_with(s: Seq<char>, p: Seq<char>) -> bool {
    p.len() <= s.len() && s.subrange(s.len() - p.len(), s.len() as int) == p
}

pub open spec fn occurs_at(s: Seq<char>, p: Seq<char>, i: int) -> bool {
    0 <= i && i + p.len() <= s.len() && s.subrange(i, i + p.len()) == p
}

pub open spec fn contains(s: Seq<char>, p: Seq<char>) -> bool {
    exists|i: int| occurs_at(s, p, i)
}

/// Number of non-overlapping occurrences of `p` in `s`, found left to right, as
/// `str::matches(..).count()` gives for a non-empty literal pattern.
pub open spec fn count_matches(s: Seq<char>, p: Seq<char>) -> nat
    decreases s.len(),
{
    if p.len() == 0 || s.len() < p.len() {
        0
    } else if s.subrange(0, p.len() as int) == p {
        1 + count_matches(s.subrange(p.len() as int, s.len() as int), p)
    } else {
        count_matches(s.drop_first(), p)
    }
}

/// Number of times `c` stands in `s` (a list split at `,` has one more part than
/// it has commas).
pub open spec fn count_char(s: Seq<char>, c: char) -> nat
    decreases s.len(),
{
    if s.len() == 0 {
        0
    } else {
        (if s[0] == c { 1nat } else { 0nat }) + count_char(s.drop_first(), c)
    }
}

// ---------------------------------------------------------------------------
// Lines
// ---------------------------------------------------------------------------

/// A line without the `\r` of a `\r\n` ending.
pub open spec fn strip_cr(l: Seq<char>) -> Seq<char> {
    if l.len() > 0 && l.last() == '\r' {
        l.drop_last()
    } else {
        l
    }
}

/// The lines of `s[start..]`, given that no `\n` stands in `s[start..i]`: lines end at
/// `\n` or `\r\n`, and a last line needs no ending (as `str::lines` splits).
pub open spec fn lines_from(s: Seq<char>, start: int, i: int) -> Seq<Seq<char>>
    decreases s.len() - i,
{
    if i >= s.len() {
        if start < s.len() {
            seq![s.subrange(start, s.len() as int)]
        } else {
            seq![]
        }
    } else if s[i] == '\n' {
        seq![strip_cr(s.subrange(start, i))] + lines_from(s, i + 1, i + 1)
    } else {
        lines_from(s, start, i + 1)
    }
}

pub open spec fn split_lines(s: Seq<char>) -> Seq<Seq<char>> {
    lines_from(s, 0, 0)
}

/// Total number of characters over all lines.
pub open spec fn total_chars(lines: Seq<Seq<char>>) -> nat
    decreases lines.len(),
{
    if lines.len() == 0 {
        0
    } else {
        lines.last().len() + total_chars(lines.drop_last())
    }
}

/// Indentation width of a line: a space counts 1, a tab 4, up to the first other
/// character.
pub open spec fn indent_of(l: Seq<char>) -> nat
    decreases l.len(),
{
    if l.len() == 0 {
        0
    } else if l[0] == ' ' {
        1 + indent_of(l.drop_first())
    } else if l[0] == '\t' {
        4 + indent_of(l.drop_first())
    } else {
        0
    }
}

// ---------------------------------------------------------------------------
// Names of what outside code computes
// ---------------------------------------------------------------------------

/// What `regex::Regex::captures` finds for the pattern `pattern` in `text`: `None`
/// where the pattern does not compile or does not match; else the text of each
/// capture group, group 0 (the whole match) first, `None` for a group that took no
/// part in the match.
pub uninterp spec fn captures_of(pattern: Seq<char>, text: Seq<char>) -> Option<
    Seq<Option<Seq<char>>>,
>;

/// What `char::is_numeric` says of `c` (the Unicode number categories).
pub uninterp spec fn numeric_char(c: char) -> bool;

/// What `char::is_uppercase` says of `c` (the Unicode `Uppercase` property).
pub uninterp spec fn uppercase_char(c: char) -> bool;

/// What `str::to_lowercase` makes of `s`.
pub uninterp spec fn lower_of(s: Seq<char>) -> Seq<char>;

/// What `std::path::Path::extension` finds in the path `p`, if anything.
pub uninterp spec fn extension_of(p: Seq<char>) -> Option<Seq<char>>;

pub open spec fn captures_view(c: Option<Vec<Option<Vec<char>>>>) -> Option<
    Seq<Option<Seq<char>>>,
> {
    match c {
        Some(v) => Some(v@.map_values(|g: Option<Vec<char>>| opt_chars(g))),
        None => None,
    }
}

pub open spec fn opt_chars(g: Option<Vec<char>>) -> Option<Seq<char>> {
    match g {
        Some(x) => Some(x@),
        None => None,
    }
}

/// The lines held in `v`, each as its characters.
pub open spec fn view_lines(v: Seq<Vec<char>>) -> Seq<Seq<char>> {
    v.map_values(|l: Vec<char>| l@)
}

/// Relies on `regex::Regex::new` and `regex::Regex::captures`: for each line, the
/// groups of the first match of `pattern` in it, each as its characters. The
/// pattern is compiled once for all lines.
#[verifier::external_body]
pub(crate) fn regex_captures_each(pattern: &str, lines: &[Vec<char>]) -> (r: Vec<
    Option<Vec<Option<Vec<char>>>>,
>)
    ensures
        r@.len() == lines@.len(),
        forall|i: int|
            0 <= i < r@.len() ==> captures_view(#[trigger] r@[i]) == captures_of(pattern@, lines@[i]@),
{
    let re = regex::Regex::new(pattern).ok();
    lines.iter().map(|l| {
        let hay: String = l.iter().collect();
        re.as_ref().and_then(|re| re.captures(&hay)).map(
            |caps| caps.iter().map(|m| m.map(|m| m.as_str().chars().collect())).collect(),
        )
    }).collect()
}

/// Relies on `char::is_numeric`: whether `c` is a number character.
#[verifier::external_body]
pub(crate) fn is_numeric_char(c: char) -> (r: bool)
    ensures
        r == numeric_char(c),
{
    c.is_numeric()
}

/// Relies on `char::is_uppercase`: whether `c` is an upper-case character.
#[verifier::external_body]
pub(crate) fn is_uppercase_char(c: char) -> (r: bool)
    ensures
        r == uppercase_char(c),
{
    c.is_uppercase()
}

/// Relies on `str::to_lowercase`: the lower-case form of `s`, as characters.
#[verifier::external_body]
pub(crate) fn lowercase_chars(s: &str) -> (r: Vec<char>)
    ensures
        r@ == lower_of(s@),
{
    s.to_lowercase().chars().collect()
}

/// Relies on `std::path::Path::extension`: the extension of the path `p`, if it has
/// one that is valid text.
#[verifier::external_body]
pub(crate) fn path_extension(p: &str) -> (r: Option<String>)
    ensures
        match r {
            Some(e) => extension_of(p@) == Some(e@),
            None => extension_of(p@) is None,
        },
{
    std::path::Path::new(p).extension().and_then(|e| e.to_str()).map(|e| e.to_string())
}

/// The characters of `s`, in order.
pub fn chars_of(s: &str) -> (r: Vec<char>)
    ensures
        r@ == s@,
{
    broadcast use vstd::string::axiom_spec_iter, vstd::string::next_postcondition;

    let mut it = s.chars();
    let mut r: Vec<char> = Vec::new();
    loop
        invariant
            it.obeys_prophetic_iter_laws(),
            it.decrease() is Some,
            r@ + it.remaining() == s@,
        ensures
            r@ == s@,
        decreases it.decrease()->0,
    {
        match it.next() {
            Some(c) => {
                r.push(c);
            },
            None => {
                assert(r@ + Seq::<char>::empty() =~= r@);
                break;
            },
        }
    }
    r
}

/// Relies on `String`'s `FromIterator<char>`: the string of the characters `cs`.
#[verifier::external_body]
pub(crate) fn string_of(cs: &[char]) -> (r: String)
    ensures
        r@ == cs@,
{
    cs.iter().collect()
}

// ---------------------------------------------------------------------------
// Verified operations on characters
// ---------------------------------------------------------------------------

/// Whether `p` stands in `s` at position `i`.
pub fn occurs_at_exec(s: &[char], p: &[char], i: usize) -> (r: bool)
    ensures
        r == occurs_at(s@, p@, i as int),
{
    if i > s.len() || p.len() > s.len() - i {
        return false;
    }
    let mut k: usize = 0;
    while k < p.len()
        invariant
            i + p.len() <= s.len(),
            k <= p.len(),
            forall|m: int| 0 <= m < k ==> s@[i + m] == p@[m],
        decreases p.len() - k,
    {
        if s[i + k] != p[k] {
            assert(s@.subrange(i as int, i + p@.len())[k as int] != p@[k as int]);
            return false;
        }
        k = k + 1;
    }
    assert(s@.subrange(i as int, i + p@.len()) =~= p@);
    true
}

pub fn starts_with_exec(s: &[char], p: &[char]) -> (r: bool)
    ensures
        r == starts_with(s@, p@),
{
    occurs_at_exec(s, p, 0)
}

pub fn ends_with_exec(s: &[char], p: &[char]) -> (r: bool)
    ensures
        r == ends_with(s@, p@),
{
    if p.len() > s.len() {
        false
    } else {
        occurs_at_exec(s, p, s.len() - p.len())
    }
}

pub fn contains_exec(s: &[char], p: &[char]) -> (r: bool)
    ensures
        r == contains(s@, p@),
{
    if p.len() > s.len() {
        return false;
    }
    let mut i: usize = 0;
    loop
        invariant
            p.len() <= s.len(),
            i <= s.len() - p.len(),
            forall|m: int| 0 <= m < i ==> !occurs_at(s@, p@, m),
        decreases s.len() - p.len() - i,
    {
        if occurs_at_exec(s, p, i) {
            return true;
        }
        if i == s.len() - p.len() {
            assert forall|m: int| !occurs_at(s@, p@, m) by {
                if 0 <= m && m < i {
                }
            }
            return false;
        }
        i = i + 1;
    }
}

/// Number of non-overlapping occurrences of `p` in `s`, left to right.
pub fn count_matches_exec(s: &[char], p: &[char]) -> (r: usize)
    ensures
        r == count_matches(s@, p@),
{
    if p.len() == 0 {
        return 0;
    }
    let mut i: usize = 0;
    let mut n: usize = 0;
    assert(s@.subrange(0, s@.len() as int) =~= s@);
    while i < s.len()
        invariant
            p.len() > 0,
            i <= s.len(),
            n <= i,
            n + count_matches(s@.subrange(i as int, s@.len() as int), p@) == count_matches(s@, p@),
        decreases s.len() - i,
    {
        let ghost rest = s@.subrange(i as int, s@.len() as int);
        if p.len() > s.len() - i {
            assert(count_matches(rest, p@) == 0);
            i = s.len();
            assert(count_matches(s@.subrange(i as int, s@.len() as int), p@) == 0);
        } else if occurs_at_exec(s, p, i) {
            assert(rest.subrange(0, p@.len() as int) =~= s@.subrange(i as int, i + p@.len()));
            assert(rest.subrange(p@.len() as int, rest.len() as int) =~= s@.subrange(
                i + p@.len(),
                s@.len() as int,
            ));
            n = n + 1;
            i = i + p.len();
        } else {
            assert(rest.subrange(0, p@.len() as int) =~= s@.subrange(i as int, i + p@.len()));
            assert(rest.drop_first() =~= s@.subrange(i + 1, s@.len() as int));
            i = i + 1;
        }
    }
    assert(s@.subrange(i as int, s@.len() as int).len() == 0);
    n
}

/// Number of times `c` stands in `s`.
pub fn count_char_exec(s: &[char], c: char) -> (r: usize)
    ensures
        r == count_char(s@, c),
        r <= s@.len(),
{
    let mut i: usize = s.len();
    let mut n: usize = 0;
    while i > 0
        invariant
            i <= s.len(),
            n <= s.len() - i,
            n == count_char(s@.subrange(i as int, s@.len() as int), c),
        decreases i,
    {
        i = i - 1;
        assert(s@.subrange(i as int, s@.len() as int).drop_first() =~= s@.subrange(
            i + 1,
            s@.len() as int,
        ));
        if s[i] == c {
            n = n + 1;
        }
    }
    assert(s@.subrange(0, s@.len() as int) =~= s@);
    n
}

/// `s` without leading and trailing whitespace.
pub fn trim_exec(s: &[char]) -> (r: Vec<char>)
    ensures
        r@ == trim(s@),
{
    let mut a: usize = 0;
    assert(s@.subrange(0, s@.len() as int) =~= s@);
    while a < s.len() && is_ws_char(s[a])
        invariant
            a <= s.len(),
            trim_left(s@.subrange(a as int, s@.len() as int)) == trim_left(s@),
        decreases s.len() - a,
    {
        assert(s@.subrange(a as int, s@.len() as int).drop_first() =~= s@.subrange(
            a + 1,
            s@.len() as int,
        ));
        a = a + 1;
    }
    let ghost left = s@.subrange(a as int, s@.len() as int);
    assert(trim_left(s@) == left);
    let mut b: usize = s.len();
    while b > a && is_ws_char(s[b - 1])
        invariant
            a <= b <= s.len(),
            left == s@.subrange(a as int, s@.len() as int),
            trim_right(s@.subrange(a as int, b as int)) == trim_right(left),
        decreases b,
    {
        assert(s@.subrange(a as int, b as int).drop_last() =~= s@.subrange(a as int, b - 1));
        b = b - 1;
    }
    assert(s@.subrange(a as int, s@.len() as int) =~= left);
    let mut r: Vec<char> = Vec::new();
    let mut k: usize = a;
    while k < b
        invariant
            a <= k <= b <= s.len(),
            r@ =~= s@.subrange(a as int, k as int),
        decreases b - k,
    {
        r.push(s[k]);
        k = k + 1;
    }
    r
}

/// Indentation width of a line, as `indent_of`.
pub fn indent_exec(l: &[char]) -> (r: u128)
    ensures
        r == indent_of(l@),
{
    let mut k: usize = l.len();
    let mut w: u128 = 0;
    // Scan from the end so that the width of each suffix is known.
    while k > 0
        invariant
            k <= l.len(),
            w == indent_of(l@.subrange(k as int, l@.len() as int)),
            w <= 4 * (l.len() - k),
        decreases k,
    {
        k = k - 1;
        assert(l@.subrange(k as int, l@.len() as int).drop_first() =~= l@.subrange(
            k + 1,
            l@.len() as int,
        ));
        if l[k] == ' ' {
            w = w + 1;
        } else if l[k] == '\t' {
            w = w + 4;
        } else {
            w = 0;
        }
    }
    assert(l@.subrange(0, l@.len() as int) =~= l@);
    w
}

/// A copy of `s[a..b]`.
pub fn slice_copy(s: &[char], a: usize, b: usize) -> (r: Vec<char>)
    requires
        a <= b <= s.len(),
    ensures
        r@ == s@.subrange(a as int, b as int),
{
    let mut r: Vec<char> = Vec::new();
    let mut k: usize = a;
    while k < b
        invariant
            a <= k <= b <= s.len(),
            r@ =~= s@.subrange(a as int, k as int),
        decreases b - k,
    {
        r.push(s[k]);
        k = k + 1;
    }
    r
}

/// Whether two character sequences are equal.
pub fn chars_eq(a: &[char], b: &[char]) -> (r: bool)
    ensures
        r == (a@ == b@),
{
    if a.len() != b.len() {
        return false;
    }
    let r = occurs_at_exec(a, b, 0);
    proof {
        if r {
            assert(a@.subrange(0, b@.len() as int) =~= a@);
        } else {
            assert(a@.subrange(0, b@.len() as int) =~= a@);
        }
    }
    r
}

/// Whether `s` is the text of the literal `lit`.
pub fn chars_are(s: &[char], lit: &str) -> (r: bool)
    ensures
        r == (s@ == lit@),
{
    let l = chars_of(lit);
    chars_eq(s, l.as_slice())
}

pub proof fn lemma_lines_from_chars(s: Seq<char>, start: int, i: int)
    requires
        0 <= start <= i <= s.len(),
    ensures
        total_chars(lines_from(s, start, i)) <= s.len() - start,
    decreases s.len() - i,
{
    if i >= s.len() {
        if start < s.len() {
            assert(seq![s.subrange(start, s.len() as int)].drop_last() =~= Seq::<Seq<char>>::empty());
        }
    } else if s[i] == '\n' {
        lemma_lines_from_chars(s, i + 1, i + 1);
        lemma_total_chars_prepend(strip_cr(s.subrange(start, i)), lines_from(s, i + 1, i + 1));
    } else {
        lemma_lines_from_chars(s, start, i + 1);
    }
}

pub proof fn lemma_total_chars_prepend(l: Seq<char>, rest: Seq<Seq<char>>)
    ensures
        total_chars(seq![l] + rest) == l.len() + total_chars(rest),
    decreases rest.len(),
{
    let whole = seq![l] + rest;
    if rest.len() == 0 {
        assert(whole.drop_last() =~= Seq::<Seq<char>>::empty());
        assert(whole.last() == l);
        assert(total_chars(whole) == whole.last().len() + total_chars(whole.drop_last()));
    } else {
        assert(whole.drop_last() =~= seq![l] + rest.drop_last());
        assert(whole.last() == rest.last());
        lemma_total_chars_prepend(l, rest.drop_last());
        assert(total_chars(whole) == whole.last().len() + total_chars(whole.drop_last()));
    }
}

/// The lines of `s`, as `str::lines` splits them.
pub fn split_lines_exec(s: &[char]) -> (r: Vec<Vec<char>>)
    ensures
        view_lines(r@) == split_lines(s@),
        total_chars(view_lines(r@)) <= s@.len(),
{
    let mut out: Vec<Vec<char>> = Vec::new();
    let mut start: usize = 0;
    let mut i: usize = 0;
    while i < s.len()
        invariant
            start <= i <= s.len(),
            view_lines(out@) + lines_from(s@, start as int, i as int) == split_lines(s@),
        decreases s.len() - i,
    {
        if s[i] == '\n' {
            let mut end: usize = i;
            if end > start && s[end - 1] == '\r' {
                end = end - 1;
            }
            let line = slice_copy(s, start, end);
            proof {
                let l = s@.subrange(start as int, i as int);
                if l.len() > 0 && l.last() == '\r' {
                    assert(l.drop_last() =~= line@);
                } else {
                    assert(l =~= line@);
                }
            }
            let ghost before = view_lines(out@);
            out.push(line);
            assert(view_lines(out@) =~= before.push(line@));
            assert(before + lines_from(s@, start as int, i as int) =~= view_lines(out@)
                + lines_from(s@, i + 1, i + 1));
            start = i + 1;
            i = i + 1;
        } else {
            i = i + 1;
        }
    }
    if start < s.len() {
        let line = slice_copy(s, start, s.len());
        let ghost before = view_lines(out@);
        out.push(line);
        assert(view_lines(out@) =~= before + lines_from(s@, start as int, i as int));
    } else {
        assert(view_lines(out@) =~= view_lines(out@) + lines_from(s@, start as int, i as int));
    }
    proof {
        lemma_lines_from_chars(s@, 0, 0);
    }
    out
}

} // verus!
