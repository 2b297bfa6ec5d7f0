use vstd::prelude::*;

verus! {

/// Whether `c` has the Unicode `White_Space` property: the controls tab to carriage return,
/// space, next line, no-break space, the Ogham space mark, the spaces from en quad to hair
/// space, the line and paragraph separators, the narrow no-break space, the medium
/// mathematical space and the ideographic space.
pub open spec fn char_is_whitespace(c: char) -> bool {
    let u = c as u32;
    ||| 0x09 <= u <= 0x0d
    ||| u == 0x20
    ||| u == 0x85
    ||| u == 0xa0
    ||| u == 0x1680
    ||| 0x2000 <= u <= 0x200a
    ||| u == 0x2028
    ||| u == 0x2029
    ||| u == 0x202f
    ||| u == 0x205f
    ||| u == 0x3000
}

/// Whether `c` is alphabetic or numeric, as `char::is_alphanumeric` reports it.
pub uninterp spec fn char_is_alphanumeric(c: char) -> bool;

/// Whether `c` is an ASCII letter or digit.
pub open spec fn is_ascii_letter_or_digit(c: char) -> bool {
    let u = c as u32;
    ||| 0x30 <= u <= 0x39
    ||| 0x41 <= u <= 0x5a
    ||| 0x61 <= u <= 0x7a
}

/// Whether `c` has the Unicode `White_Space` property, as `char::is_whitespace` answers.
pub(crate) fn is_whitespace(c: char) -> (r: bool)
    ensures
        r == char_is_whitespace(c),
{
    let u = c as u32;
    (0x09 <= u && u <= 0x0d) || u == 0x20 || u == 0x85 || u == 0xa0 || u == 0x1680 || (0x2000 <= u
        && u <= 0x200a) || u == 0x2028 || u == 0x2029 || u == 0x202f || u == 0x205f || u == 0x3000
}

/// Calls `char::is_alphanumeric`, which answers whether `c` has the Unicode `Alphabetic`
/// property or a numeric general category. The contract names the answer
/// `char_is_alphanumeric(c)`, a function of `c` alone, and states it for ASCII: the letters
/// and digits are alphanumeric, no other ASCII character is (ASCII has no other character
/// of those properties); beyond ASCII it states only that an alphanumeric character is never
/// whitespace (no character of the `White_Space` list is alphabetic or numeric).
#[verifier::external_body]
pub(crate) fn is_alphanumeric(c: char) -> (r: bool)
    ensures
        r == char_is_alphanumeric(c),
        (c as u32) < 0x80 ==> (r <==> is_ascii_letter_or_digit(c)),
        r ==> !char_is_whitespace(c),
{
    c.is_alphanumeric()
}

/// The classes of characters over which the grammar scans.
#[derive(Clone, Copy)]
pub enum CharClass {
    /// Unicode whitespace.
    Whitespace,
    /// Characters of tag and attribute names: alphanumerics, `-` and `_`. (Alphanumerics are
    /// never whitespace; the class says so, as `is_alphanumeric` states it.)
    NameChar,
    /// Anything but `<`.
    NotOpenAngle,
    /// Anything but `]`.
    NotCloseBracket,
}

pub open spec fn in_class(class: CharClass, c: char) -> bool {
    match class {
        CharClass::Whitespace => char_is_whitespace(c),
        CharClass::NameChar => (char_is_alphanumeric(c) && !char_is_whitespace(c)) || c == '-' || c == '_',
        CharClass::NotOpenAngle => c != '<',
        CharClass::NotCloseBracket => c != ']',
    }
}

pub fn class_contains(class: CharClass, c: char) -> (r: bool)
    ensures
        r == in_class(class, c),
{
    match class {
        CharClass::Whitespace => is_whitespace(c),
        CharClass::NameChar => is_alphanumeric(c) || c == '-' || c == '_',
        CharClass::NotOpenAngle => c != '<',
        CharClass::NotCloseBracket => c != ']',
    }
}

/// The first position at or after `i` whose character is not in `class` (the end of `s`
/// if there is none). Positions outside `s` are returned unchanged.
pub open spec fn skip_while(s: Seq<char>, i: int, class: CharClass) -> int
    decreases s.len() - i,
{
    if 0 <= i < s.len() && in_class(class, s[i]) {
        skip_while(s, i + 1, class)
    } else {
        i
    }
}

pub proof fn lemma_skip_while(s: Seq<char>, i: int, class: CharClass)
    requires
        0 <= i <= s.len(),
    ensures
        i <= skip_while(s, i, class) <= s.len(),
        forall|k: int| i <= k < skip_while(s, i, class) ==> in_class(class, #[trigger] s[k]),
        skip_while(s, i, class) < s.len() ==> !in_class(class, s[skip_while(s, i, class)]),
    decreases s.len() - i,
{
    if i < s.len() && in_class(class, s[i]) {
        lemma_skip_while(s, i + 1, class);
    }
}

/// Scans forward from `i` over characters of `class`.
pub fn skip_class(v: &Vec<char>, i: usize, class: CharClass) -> (r: usize)
    requires
        i <= v@.len(),
    ensures
        r == skip_while(v@, i as int, class),
        i <= r <= v@.len(),
{
    let mut j = i;
    while j < v.len() && class_contains(class, v[j])
        invariant
            i <= j <= v@.len(),
            skip_while(v@, j as int, class) == skip_while(v@, i as int, class),
        decreases v@.len() - j,
    {
        j = j + 1;
    }
    proof {
        lemma_skip_while(v@, i as int, class);
    }
    j
}

/// Whether `lit` occurs in `s` at position `i`.
pub open spec fn has_prefix_at(s: Seq<char>, i: int, lit: Seq<char>) -> bool {
    0 <= i && i + lit.len() <= s.len() && s.subrange(i, i + lit.len()) == lit
}

pub fn matches_at(v: &Vec<char>, i: usize, lit: &[char]) -> (r: bool)
    requires
        i <= v@.len(),
    ensures
        r == has_prefix_at(v@, i as int, lit@),
{
    let n = v.len();
    if lit.len() > n - i {
        return false;
    }
    let mut k: usize = 0;
    while k < lit.len()
        invariant
            n == v@.len(),
            i + lit@.len() <= v@.len(),
            k <= lit@.len(),
            forall|m: int| 0 <= m < k ==> v@[i + m] == lit@[m],
        decreases lit@.len() - k,
    {
        if v[i + k] != lit[k] {
            proof {
                assert(v@.subrange(i as int, i + lit@.len())[k as int] != lit@[k as int]);
            }
            return false;
        }
        k = k + 1;
    }
    proof {
        assert(v@.subrange(i as int, i + lit@.len()) =~= lit@);
    }
    true
}

/// The first position at or after `i` where `lit` occurs in `s`.
pub open spec fn find_from(s: Seq<char>, i: int, lit: Seq<char>) -> Option<int>
    decreases s.len() - i,
{
    if i < 0 || i + lit.len() > s.len() {
        None
    } else if has_prefix_at(s, i, lit) {
        Some(i)
    } else if i >= s.len() {
        None
    } else {
        find_from(s, i + 1, lit)
    }
}

pub proof fn lemma_find_from(s: Seq<char>, i: int, lit: Seq<char>)
    requires
        0 <= i,
    ensures
        find_from(s, i, lit) matches Some(k) ==> i <= k && k + lit.len() <= s.len() && has_prefix_at(s, k, lit),
        find_from(s, i, lit) matches Some(k) ==> forall|j: int| i <= j < k ==> !has_prefix_at(s, j, lit),
    decreases s.len() - i,
{
    if i + lit.len() <= s.len() && !has_prefix_at(s, i, lit) && i < s.len() {
        lemma_find_from(s, i + 1, lit);
    }
}

/// Searches `v` for `lit` from position `i` on.
pub fn find_at(v: &Vec<char>, i: usize, lit: &[char]) -> (r: Option<usize>)
    requires
        i <= v@.len(),
    ensures
        r matches Some(k) ==> find_from(v@, i as int, lit@) == Some(k as int),
        r is None ==> find_from(v@, i as int, lit@) is None,
{
    let mut k = i;
    while lit.len() <= v.len() - k
        invariant
            i <= k <= v@.len(),
            find_from(v@, k as int, lit@) == find_from(v@, i as int, lit@),
        decreases v@.len() - k,
    {
        if matches_at(v, k, lit) {
            return Some(k);
        }
        if k == v.len() {
            return None;
        }
        k = k + 1;
    }
    None
}

/// `x` with leading and trailing whitespace removed, given as the pair of bounds
/// `(start, end)` within `x`.
pub open spec fn trim_bounds(x: Seq<char>) -> (int, int) {
    let start = skip_while(x, 0, CharClass::Whitespace);
    (start, trimmed_end(x, start, x.len() as int))
}

/// The end of `x[start..end]` once trailing whitespace is removed.
pub open spec fn trimmed_end(x: Seq<char>, start: int, end: int) -> int
    decreases end - start,
{
    if start < end && 0 < end <= x.len() && char_is_whitespace(x[end - 1]) {
        trimmed_end(x, start, end - 1)
    } else {
        end
    }
}

/// `x` with leading and trailing whitespace removed, as `str::trim` does.
pub open spec fn trim(x: Seq<char>) -> Seq<char> {
    x.subrange(trim_bounds(x).0, trim_bounds(x).1)
}

pub proof fn lemma_trimmed_end(x: Seq<char>, start: int, end: int)
    requires
        0 <= start <= end <= x.len(),
    ensures
        start <= trimmed_end(x, start, end) <= end,
    decreases end - start,
{
    if start < end && char_is_whitespace(x[end - 1]) {
        lemma_trimmed_end(x, start, end - 1);
    }
}

pub proof fn lemma_trimmed_end_stops(x: Seq<char>, start: int, end: int)
    requires
        0 <= start <= end <= x.len(),
    ensures
        start < trimmed_end(x, start, end) ==> !char_is_whitespace(x[trimmed_end(x, start, end) - 1]),
    decreases end - start,
{
    if start < end && char_is_whitespace(x[end - 1]) {
        lemma_trimmed_end_stops(x, start, end - 1);
    }
}

pub proof fn lemma_trim_bounds(x: Seq<char>)
    ensures
        0 <= trim_bounds(x).0 <= trim_bounds(x).1 <= x.len(),
        trim_bounds(x).0 < trim_bounds(x).1 ==> !char_is_whitespace(x[trim_bounds(x).0]),
        trim_bounds(x).0 < trim_bounds(x).1 ==> !char_is_whitespace(x[trim_bounds(x).1 - 1]),
{
    lemma_skip_while(x, 0, CharClass::Whitespace);
    lemma_trimmed_end(x, skip_while(x, 0, CharClass::Whitespace), x.len() as int);
    lemma_trimmed_end_stops(x, skip_while(x, 0, CharClass::Whitespace), x.len() as int);
}

/// Whether `x` neither starts nor ends with whitespace.
pub open spec fn is_trimmed(x: Seq<char>) -> bool {
    x.len() > 0 ==> !char_is_whitespace(x[0]) && !char_is_whitespace(x[x.len() - 1])
}

/// `trim` keeps a stretch of its argument, and what it keeps neither starts nor ends with
/// whitespace.
pub proof fn lemma_trim(x: Seq<char>)
    ensures
        is_trimmed(trim(x)),
        forall|k: int| 0 <= k < trim(x).len() ==> exists|j: int| 0 <= j < x.len() && #[trigger] trim(x)[k] == x[j],
{
    lemma_trim_bounds(x);
    let (a, b) = trim_bounds(x);
    assert forall|k: int| 0 <= k < trim(x).len() implies exists|j: int| 0 <= j < x.len() && #[trigger] trim(x)[k] == x[j] by {
        assert(trim(x)[k] == x[a + k]);
    }
}

/// Trimming a stretch without whitespace keeps all of it.
pub proof fn lemma_trim_without_whitespace(x: Seq<char>)
    requires
        forall|k: int| 0 <= k < x.len() ==> !char_is_whitespace(#[trigger] x[k]),
    ensures
        trim(x) == x,
{
    lemma_skip_while(x, 0, CharClass::Whitespace);
    let start = skip_while(x, 0, CharClass::Whitespace);
    if x.len() > 0 {
        assert(!in_class(CharClass::Whitespace, x[0]));
    }
    assert(start == 0);
    if x.len() > 0 {
        assert(!char_is_whitespace(x[x.len() - 1]));
    }
    assert(trimmed_end(x, 0, x.len() as int) == x.len());
    assert(x.subrange(0, x.len() as int) =~= x);
}

/// The bounds, within `v`, of `v[a..b]` once leading and trailing whitespace is removed.
pub fn trim_range(v: &Vec<char>, a: usize, b: usize) -> (r: (usize, usize))
    requires
        a <= b <= v@.len(),
    ensures
        r.0 == a + trim_bounds(v@.subrange(a as int, b as int)).0,
        r.1 == a + trim_bounds(v@.subrange(a as int, b as int)).1,
        a <= r.0 <= r.1 <= b,
{
    let ghost x = v@.subrange(a as int, b as int);
    let mut i = a;
    while i < b && is_whitespace(v[i])
        invariant
            a <= i <= b <= v@.len(),
            x == v@.subrange(a as int, b as int),
            skip_while(x, (i - a) as int, CharClass::Whitespace) == skip_while(x, 0, CharClass::Whitespace),
        decreases b - i,
    {
        i = i + 1;
    }
    let mut j = b;
    while i < j && is_whitespace(v[j - 1])
        invariant
            a <= i <= j <= b <= v@.len(),
            x == v@.subrange(a as int, b as int),
            (i - a) as int == skip_while(x, 0, CharClass::Whitespace),
            trimmed_end(x, (i - a) as int, (j - a) as int) == trimmed_end(x, (i - a) as int, x.len() as int),
        decreases j - i,
    {
        j = j - 1;
    }
    (i, j)
}

/// The characters of `s`, in order.
pub fn chars_of(s: &str) -> (v: Vec<char>)
    ensures
        v@ == s@,
{
    let mut v: Vec<char> = Vec::new();
    for c in it: s.chars()
        invariant
            v@ == it.seq().take(it.index() as int),
    {
        v.push(c);
        proof {
            assert(v@ =~= it.seq().take(it.index() as int + 1));
        }
    }
    v
}

/// Whether two strings hold the same characters.
pub fn same_text(a: &str, b: &str) -> (r: bool)
    ensures
        r == (a@ == b@),
{
    let x = chars_of(a);
    let y = chars_of(b);
    if x.len() != y.len() {
        return false;
    }
    let mut i: usize = 0;
    while i < x.len()
        invariant
            x@ == a@,
            y@ == b@,
            x@.len() == y@.len(),
            i <= x@.len(),
            forall|k: int| 0 <= k < i ==> x@[k] == y@[k],
        decreases x@.len() - i,
    {
        if x[i] != y[i] {
            assert(x@[i as int] != y@[i as int]);
            return false;
        }
        i = i + 1;
    }
    proof {
        assert(x@ =~= y@);
    }
    true
}

} // verus!
