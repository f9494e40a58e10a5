//! Helpers on sequences and on strings, the latter stated over their
//! character sequences.

use vstd::prelude::*;
use vstd::string::StringExecFns;
use vstd::string::StrSliceExecFns;

verus! {

/// The index of the first element of `s` that satisfies `p`, or `s.len()` if
/// none does.
pub open spec fn first_index_where<A>(s: Seq<A>, p: spec_fn(A) -> bool) -> int
    decreases s.len(),
{
    if s.len() == 0 {
        0
    } else if p(s[0]) {
        0
    } else {
        1 + first_index_where(s.drop_first(), p)
    }
}

/// The index of the first occurrence of `a` in `s`, or `s.len()` if there is
/// none.
pub open spec fn first_index_of<A>(s: Seq<A>, a: A) -> int {
    first_index_where(s, |x: A| x == a)
}

/// `first_index_where` lies within `0..=s.len()`, names an element that
/// satisfies `p` when it is below `s.len()`, and nothing before it does.
pub proof fn lemma_first_index_where<A>(s: Seq<A>, p: spec_fn(A) -> bool)
    ensures
        0 <= first_index_where(s, p) <= s.len(),
        first_index_where(s, p) < s.len() ==> p(s[first_index_where(s, p)]),
        forall|j: int| 0 <= j < first_index_where(s, p) ==> !p(#[trigger] s[j]),
    decreases s.len(),
{
    if s.len() > 0 && !p(s[0]) {
        let rest = s.drop_first();
        lemma_first_index_where(rest, p);
        assert forall|j: int| 0 <= j < first_index_where(s, p) implies !p(#[trigger] s[j]) by {
            if j > 0 {
                assert(s[j] == rest[j - 1]);
            }
        }
    }
}

/// Any index that holds the first element of `s` to satisfy `p` is
/// `first_index_where(s, p)`.
pub proof fn lemma_first_index_where_unique<A>(s: Seq<A>, p: spec_fn(A) -> bool, i: int)
    requires
        0 <= i <= s.len(),
        i < s.len() ==> p(s[i]),
        forall|j: int| 0 <= j < i ==> !p(#[trigger] s[j]),
    ensures
        first_index_where(s, p) == i,
{
    lemma_first_index_where(s, p);
    let k = first_index_where(s, p);
    if k < i {
        assert(p(s[k]));
    } else if i < k {
        assert(p(s[i]));
    }
}

/// Any index that holds the first `a` of `s` is `first_index_of(s, a)`.
pub proof fn lemma_first_index_of_unique<A>(s: Seq<A>, a: A, i: int)
    requires
        0 <= i <= s.len(),
        i < s.len() ==> s[i] == a,
        forall|j: int| 0 <= j < i ==> #[trigger] s[j] != a,
    ensures
        first_index_of(s, a) == i,
{
    let p = |x: A| x == a;
    lemma_first_index_where_unique(s, p, i);
}

/// `first_index_of` is below `s.len()` exactly when `s` contains `a`.
pub proof fn lemma_first_index_of_contains<A>(s: Seq<A>, a: A)
    ensures
        0 <= first_index_of(s, a) <= s.len(),
        first_index_of(s, a) < s.len() <==> s.contains(a),
        first_index_of(s, a) < s.len() ==> s[first_index_of(s, a)] == a,
        forall|j: int| 0 <= j < first_index_of(s, a) ==> #[trigger] s[j] != a,
{
    let p = |x: A| x == a;
    lemma_first_index_where(s, p);
    let k = first_index_of(s, a);
    if k < s.len() {
        assert(p(s[k]));
    }
    if s.contains(a) {
        let i = choose|i: int| 0 <= i < s.len() && s[i] == a;
        assert(p(s[i]));
    }
    assert forall|j: int| 0 <= j < k implies #[trigger] s[j] != a by {
        assert(!p(s[j]));
    }
}

/// Whether `s` ends with `suffix`.
pub open spec fn is_suffix_of(suffix: Seq<char>, s: Seq<char>) -> bool {
    suffix.len() <= s.len() && s.subrange(s.len() - suffix.len(), s.len() as int) == suffix
}

/// The strings of `parts`, each pair of neighbours separated by `sep`.
pub open spec fn joined(parts: Seq<Seq<char>>, sep: Seq<char>) -> Seq<char>
    decreases parts.len(),
{
    if parts.len() == 0 {
        Seq::empty()
    } else if parts.len() == 1 {
        parts[0]
    } else {
        joined(parts.drop_last(), sep) + sep + parts.last()
    }
}

/// Finds the first `c` in `s`; the length of `s` in characters if there is none.
pub fn find_char(s: &str, c: char) -> (i: usize)
    ensures
        i == first_index_of(s@, c),
{
    let n: usize = s.unicode_len();
    let mut i: usize = 0;
    for ch in it: s.chars()
        invariant
            n == s@.len(),
            it.seq() == s@,
            i == it.index(),
            forall|j: int| 0 <= j < i ==> s@[j] != c,
    {
        if ch == c {
            proof {
                lemma_first_index_of_unique(s@, c, i as int);
            }
            return i;
        }
        i += 1;
    }
    proof {
        lemma_first_index_of_unique(s@, c, i as int);
    }
    i
}

/// An owned copy of the characters `from..to` of `s`.
pub fn substring(s: &str, from: usize, to: usize) -> (r: String)
    requires
        from <= to <= s@.len(),
    ensures
        r@ == s@.subrange(from as int, to as int),
{
    String::from_str(s.substring_char(from, to))
}

/// `String::push`: appends the one character `c` to `s`.
#[verifier::external_body]
pub(crate) fn push_char(s: &mut String, c: char)
    ensures
        final(s)@ == old(s)@.push(c),
{
    s.push(c)
}

/// Whether `s` ends with `suffix`.
pub fn str_ends_with(s: &str, suffix: &str) -> (r: bool)
    ensures
        r == is_suffix_of(suffix@, s@),
{
    let n: usize = s.unicode_len();
    let m: usize = suffix.unicode_len();
    if m > n {
        return false;
    }
    substring(s, n - m, n) == String::from_str(suffix)
}

/// Whether `c` is white space: one of the characters that have the
/// property `White_Space`.
pub open spec fn is_white_space(c: char) -> bool {
    let v = c as u32;
    ||| 0x09 <= v <= 0x0D
    ||| v == 0x20
    ||| v == 0x85
    ||| v == 0xA0
    ||| v == 0x1680
    ||| 0x2000 <= v <= 0x200A
    ||| v == 0x2028
    ||| v == 0x2029
    ||| v == 0x202F
    ||| v == 0x205F
    ||| v == 0x3000
}

/// The text `text` without the white space at its beginning.
pub open spec fn trim_start(text: Seq<char>) -> Seq<char>
    decreases text.len(),
{
    if text.len() > 0 && is_white_space(text[0]) {
        trim_start(text.drop_first())
    } else {
        text
    }
}

/// The text `text` without the white space at its end.
pub open spec fn trim_end(text: Seq<char>) -> Seq<char>
    decreases text.len(),
{
    if text.len() > 0 && is_white_space(text.last()) {
        trim_end(text.drop_last())
    } else {
        text
    }
}

/// The text `text` without the white space at its two ends.
pub open spec fn spec_trim(text: Seq<char>) -> Seq<char> {
    trim_end(trim_start(text))
}

/// Without the white space at its beginning, `text` is what begins at `k`,
/// where `k` is its first character that is no white space, or its end.
pub proof fn lemma_trim_start(text: Seq<char>, k: int)
    requires
        0 <= k <= text.len(),
        forall|j: int| 0 <= j < k ==> is_white_space(#[trigger] text[j]),
        k < text.len() ==> !is_white_space(text[k]),
    ensures
        trim_start(text) == text.subrange(k, text.len() as int),
    decreases k,
{
    if k == 0 {
        assert(text.subrange(0, text.len() as int) =~= text);
    } else {
        let rest = text.drop_first();
        assert(is_white_space(text[0]));
        assert forall|j: int| 0 <= j < k - 1 implies is_white_space(#[trigger] rest[j]) by {
            assert(rest[j] == text[j + 1]);
        }
        lemma_trim_start(rest, k - 1);
        assert(rest.subrange(k - 1, rest.len() as int) =~= text.subrange(k, text.len() as int));
    }
}

/// Without the white space at its end, `text` is what ends before `e`,
/// where `e` follows its last character that is no white space, or is its
/// beginning.
pub proof fn lemma_trim_end(text: Seq<char>, e: int)
    requires
        0 <= e <= text.len(),
        forall|j: int| e <= j < text.len() ==> is_white_space(#[trigger] text[j]),
        0 < e ==> !is_white_space(text[e - 1]),
    ensures
        trim_end(text) == text.subrange(0, e),
    decreases text.len() - e,
{
    if e == text.len() {
        assert(text.subrange(0, e) =~= text);
    } else {
        let rest = text.drop_last();
        assert(is_white_space(text[text.len() - 1]));
        assert forall|j: int| e <= j < rest.len() implies is_white_space(#[trigger] rest[j]) by {
            assert(rest[j] == text[j]);
        }
        lemma_trim_end(rest, e);
        assert(rest.subrange(0, e) =~= text.subrange(0, e));
    }
}

/// Whether `c` is white space.
pub fn white_space(c: char) -> (r: bool)
    ensures
        r == is_white_space(c),
{
    let v: u32 = c as u32;
    (0x09 <= v && v <= 0x0D) || v == 0x20 || v == 0x85 || v == 0xA0 || v == 0x1680 || (0x2000
        <= v && v <= 0x200A) || v == 0x2028 || v == 0x2029 || v == 0x202F || v == 0x205F || v
        == 0x3000
}

/// The text `text` without the white space at its two ends.
pub fn trim(text: &str) -> (r: &str)
    ensures
        r@ == spec_trim(text@),
{
    let n: usize = text.unicode_len();
    let mut start: usize = 0;
    let mut end: usize = 0;
    let mut i: usize = 0;
    for c in it: text.chars()
        invariant
            it.seq() == text@,
            n == text@.len(),
            i == it.index(),
            start <= i,
            forall|j: int| 0 <= j < start ==> is_white_space(#[trigger] text@[j]),
            end == 0 ==> start == i,
            end > 0 ==> start < end <= i && !is_white_space(text@[start as int])
                && !is_white_space(text@[end - 1]),
            forall|j: int| end <= j < i ==> is_white_space(#[trigger] text@[j]),
    {
        if !white_space(c) {
            end = i + 1;
        } else if end == 0 {
            start = i + 1;
        }
        i += 1;
    }
    proof {
        lemma_trim_start(text@, start as int);
        let rest = text@.subrange(start as int, n as int);
        if end == 0 {
            assert(rest =~= Seq::empty());
        } else {
            assert forall|j: int| end - start <= j < rest.len() implies is_white_space(
                #[trigger] rest[j],
            ) by {
                assert(rest[j] == text@[j + start]);
            }
            assert(rest[end - start - 1] == text@[end - 1]);
            lemma_trim_end(rest, end - start);
            assert(rest.subrange(0, end - start) =~= text@.subrange(start as int, end as int));
        }
    }
    if end == 0 {
        text.substring_char(n, n)
    } else {
        text.substring_char(start, end)
    }
}

/// The character for the digit `d`.
pub open spec fn spec_digit(d: nat) -> char
    recommends
        d < 10,
{
    ((48 + d) as u8) as char
}

/// The number `n` in decimal digits, without leading zeros.
pub open spec fn decimal(n: nat) -> Seq<char>
    decreases n,
{
    if n < 10 {
        seq![spec_digit(n)]
    } else {
        decimal(n / 10).push(spec_digit(n % 10))
    }
}

/// Appends the number `n` in decimal digits to `s`.
pub fn push_decimal(s: &mut String, n: u32)
    ensures
        final(s)@ == old(s)@ + decimal(n as nat),
    decreases n,
{
    if n >= 10 {
        push_decimal(s, n / 10);
    }
    let d: u8 = (n % 10) as u8;
    push_char(s, (48u8 + d) as char);
    assert(s@ =~= old(s)@ + decimal(n as nat));
}

/// A copy of an optional string.
pub fn clone_opt_string(a: &Option<String>) -> (r: Option<String>)
    ensures
        r.deep_view() == a.deep_view(),
{
    match a {
        Some(text) => Some(text.clone()),
        None => None,
    }
}

/// A copy of a list of strings.
pub fn clone_string_vec(a: &Vec<String>) -> (r: Vec<String>)
    ensures
        r.deep_view() == a.deep_view(),
{
    let mut r: Vec<String> = Vec::new();
    let n: usize = a.len();
    let mut i: usize = 0;
    while i < n
        invariant
            n == a.len(),
            i <= n,
            r.len() == i,
            forall|j: int| 0 <= j < i ==> r[j]@ == a[j]@,
        decreases n - i,
    {
        r.push(a[i].clone());
        i += 1;
    }
    assert(r.deep_view() =~= a.deep_view());
    r
}

/// Whether two optional strings hold the same text, or are both absent.
pub fn opt_string_eq(a: &Option<String>, b: &Option<String>) -> (r: bool)
    ensures
        r == (a.deep_view() == b.deep_view()),
{
    match a {
        Some(x) => match b {
            Some(y) => *x == *y,
            None => false,
        },
        None => b.is_none(),
    }
}

/// Whether two lists of strings hold the same texts in the same order.
pub fn string_vec_eq(a: &Vec<String>, b: &Vec<String>) -> (r: bool)
    ensures
        r == (a.deep_view() == b.deep_view()),
{
    let n: usize = a.len();
    if n != b.len() {
        assert(a.deep_view().len() != b.deep_view().len());
        return false;
    }
    let mut i: usize = 0;
    while i < n
        invariant
            n == a.len(),
            n == b.len(),
            i <= n,
            forall|j: int| 0 <= j < i ==> a[j]@ == b[j]@,
        decreases n - i,
    {
        if a[i] != b[i] {
            assert(a.deep_view()[i as int] != b.deep_view()[i as int]);
            return false;
        }
        i += 1;
    }
    assert(a.deep_view() =~= b.deep_view());
    true
}

} // verus!
