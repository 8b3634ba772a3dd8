//! Character-level string helpers over `Seq<char>` views.

use vstd::prelude::*;

verus! {

/// `needle` occurs in `hay` starting at character position `i`.
pub open spec fn occurs_at(hay: Seq<char>, needle: Seq<char>, i: int) -> bool {
    &&& 0 <= i
    &&& i + needle.len() <= hay.len()
    &&& hay.subrange(i, i + needle.len()) == needle
}

/// `needle` occurs somewhere in `hay`.
pub open spec fn contains_seq(hay: Seq<char>, needle: Seq<char>) -> bool {
    exists|i: int| occurs_at(hay, needle, i)
}

/// `i` is the leftmost position at which `needle` occurs in `hay`.
pub open spec fn is_first_occurrence(hay: Seq<char>, needle: Seq<char>, i: int) -> bool {
    &&& occurs_at(hay, needle, i)
    &&& forall|j: int| 0 <= j < i ==> !occurs_at(hay, needle, j)
}

/// The leftmost position of `needle` in `hay` (meaningful when it occurs).
pub open spec fn first_index(hay: Seq<char>, needle: Seq<char>) -> int {
    choose|i: int| is_first_occurrence(hay, needle, i)
}

/// The leftmost occurrence is unique, so `first_index` names it.
pub proof fn lemma_first_index_unique(hay: Seq<char>, needle: Seq<char>, i: int)
    requires
        is_first_occurrence(hay, needle, i),
    ensures
        first_index(hay, needle) == i,
{
    let k = first_index(hay, needle);
    assert(is_first_occurrence(hay, needle, k));
    if k < i {
        assert(!occurs_at(hay, needle, k));
    } else if i < k {
        assert(!occurs_at(hay, needle, i));
    }
}

/// Every occurrence has a leftmost one before or at it.
pub proof fn lemma_first_exists(hay: Seq<char>, needle: Seq<char>, i: int)
    requires
        occurs_at(hay, needle, i),
    ensures
        is_first_occurrence(hay, needle, first_index(hay, needle)),
        first_index(hay, needle) <= i,
    decreases i,
{
    if forall|j: int| 0 <= j < i ==> !occurs_at(hay, needle, j) {
        lemma_first_index_unique(hay, needle, i);
    } else {
        let j = choose|j: int| 0 <= j < i && occurs_at(hay, needle, j);
        lemma_first_exists(hay, needle, j);
    }
}

/// `needle` occurs in `hay` at `from` or later.
pub open spec fn contains_from(hay: Seq<char>, needle: Seq<char>, from: int) -> bool {
    exists|j: int| from <= j && #[trigger] occurs_at(hay, needle, j)
}

/// `i` is the leftmost position, at `from` or later, at which `needle`
/// occurs in `hay`.
pub open spec fn is_first_occurrence_from(hay: Seq<char>, needle: Seq<char>, from: int, i: int) -> bool {
    &&& from <= i
    &&& occurs_at(hay, needle, i)
    &&& forall|j: int| from <= j < i ==> !occurs_at(hay, needle, j)
}

/// The leftmost position of `needle` in `hay` at `from` or later
/// (meaningful when there is one).
pub open spec fn first_index_from(hay: Seq<char>, needle: Seq<char>, from: int) -> int {
    choose|i: int| is_first_occurrence_from(hay, needle, from, i)
}

/// The leftmost occurrence from a position on is unique, so
/// `first_index_from` names it.
pub proof fn lemma_first_from_unique(hay: Seq<char>, needle: Seq<char>, from: int, i: int)
    requires
        is_first_occurrence_from(hay, needle, from, i),
    ensures
        first_index_from(hay, needle, from) == i,
{
    let k = first_index_from(hay, needle, from);
    assert(is_first_occurrence_from(hay, needle, from, k));
    if k < i {
        assert(!occurs_at(hay, needle, k));
    } else if i < k {
        assert(!occurs_at(hay, needle, i));
    }
}

/// Every occurrence at `from` or later has a leftmost one from `from` on,
/// before or at it.
pub proof fn lemma_first_from_exists(hay: Seq<char>, needle: Seq<char>, from: int, i: int)
    requires
        from <= i,
        occurs_at(hay, needle, i),
    ensures
        is_first_occurrence_from(hay, needle, from, first_index_from(hay, needle, from)),
        first_index_from(hay, needle, from) <= i,
    decreases i - from,
{
    if forall|j: int| from <= j < i ==> !occurs_at(hay, needle, j) {
        lemma_first_from_unique(hay, needle, from, i);
    } else {
        let j = choose|j: int| from <= j < i && occurs_at(hay, needle, j);
        lemma_first_from_exists(hay, needle, from, j);
    }
}

/// An occurrence that lies inside the left part of a concatenation is an
/// occurrence in that part, and conversely.
pub proof fn lemma_occurs_in_left(a: Seq<char>, b: Seq<char>, needle: Seq<char>, j: int)
    requires
        0 <= j,
        j + needle.len() <= a.len(),
    ensures
        occurs_at(a + b, needle, j) <==> occurs_at(a, needle, j),
{
    assert((a + b).subrange(j, j + needle.len()) =~= a.subrange(j, j + needle.len()));
}

/// An occurrence that lies inside the right part of a concatenation is an
/// occurrence in that part, shifted by the left part's length.
pub proof fn lemma_occurs_in_right(a: Seq<char>, b: Seq<char>, needle: Seq<char>, j: int)
    requires
        a.len() <= j,
    ensures
        occurs_at(a + b, needle, j) <==> occurs_at(b, needle, j - a.len()),
{
    if j + needle.len() <= a.len() + b.len() {
        assert((a + b).subrange(j, j + needle.len()) =~= b.subrange(
            j - a.len(),
            j - a.len() + needle.len(),
        ));
    }
}

/// Names what `str::to_lowercase` returns for a string: its lowercase
/// mapping under Unicode's `Lowercase` property.
pub uninterp spec fn unicode_lowercase(s: Seq<char>) -> Seq<char>;

/// Every character of `s` is ASCII.
pub open spec fn is_ascii_text(s: Seq<char>) -> bool {
    forall|i: int| 0 <= i < s.len() ==> #[trigger] s[i] <= '\u{7f}'
}

/// The ASCII lowercase of `c`: `A` to `Z` become `a` to `z`, every other
/// character stays.
pub open spec fn ascii_lower(c: char) -> char {
    if 'A' <= c <= 'Z' {
        ((c as u32) + 32) as char
    } else {
        c
    }
}

/// The ASCII lowercase form of `s`: each letter `A` to `Z` replaced by
/// `a` to `z`.
pub open spec fn ascii_lowercase(s: Seq<char>) -> Seq<char> {
    s.map_values(|c: char| ascii_lower(c))
}

/// `str::to_lowercase` (std): the contract says that the result is the
/// named lowercase mapping of the argument and, for ASCII text, that each
/// letter `A` to `Z` becomes `a` to `z` and every other character stays;
/// the Unicode tables behind the rest are not stated here.
#[verifier::external_body]
pub(crate) fn to_lowercase(s: &str) -> (res: String)
    ensures
        res@ == unicode_lowercase(s@),
        is_ascii_text(s@) ==> res@ == s@.map_values(|c: char| ascii_lower(c)),
{
    s.to_lowercase()
}

/// The decimal digit character for `d < 10`.
pub open spec fn digit_char(d: nat) -> char {
    if d == 0 {
        '0'
    } else if d == 1 {
        '1'
    } else if d == 2 {
        '2'
    } else if d == 3 {
        '3'
    } else if d == 4 {
        '4'
    } else if d == 5 {
        '5'
    } else if d == 6 {
        '6'
    } else if d == 7 {
        '7'
    } else if d == 8 {
        '8'
    } else {
        '9'
    }
}

/// The decimal representation of `n`, without sign or leading zeros.
pub open spec fn decimal(n: nat) -> Seq<char>
    decreases n,
{
    if n < 10 {
        seq![digit_char(n)]
    } else {
        decimal(n / 10).push(digit_char(n % 10))
    }
}

fn digit_str(d: u64) -> (res: &'static str)
    requires
        d < 10,
    ensures
        res@ == seq![digit_char(d as nat)],
{
    proof {
        reveal_strlit("0");
        reveal_strlit("1");
        reveal_strlit("2");
        reveal_strlit("3");
        reveal_strlit("4");
        reveal_strlit("5");
        reveal_strlit("6");
        reveal_strlit("7");
        reveal_strlit("8");
        reveal_strlit("9");
    }
    if d == 0 {
        "0"
    } else if d == 1 {
        "1"
    } else if d == 2 {
        "2"
    } else if d == 3 {
        "3"
    } else if d == 4 {
        "4"
    } else if d == 5 {
        "5"
    } else if d == 6 {
        "6"
    } else if d == 7 {
        "7"
    } else if d == 8 {
        "8"
    } else {
        "9"
    }
}

/// `n` written in decimal, as `u64`'s `Display` writes it.
pub fn decimal_string(n: u64) -> (res: String)
    ensures
        res@ == decimal(n as nat),
    decreases n,
{
    if n < 10 {
        String::from_str(digit_str(n))
    } else {
        let mut res = decimal_string(n / 10);
        res.append(digit_str(n % 10));
        res
    }
}

/// The decimal representation of `n`, with a leading `-` when negative.
pub open spec fn signed_decimal(n: int) -> Seq<char> {
    if n < 0 {
        seq!['-'] + decimal((-n) as nat)
    } else {
        decimal(n as nat)
    }
}

/// `n` written in decimal, as `i32`'s `Display` writes it.
pub fn signed_decimal_string(n: i32) -> (res: String)
    ensures
        res@ == signed_decimal(n as int),
{
    if n < 0 {
        let magnitude: u64 = (0i64 - (n as i64)) as u64;
        let mut res = String::from_str("-");
        let digits = decimal_string(magnitude);
        res.append(digits.as_str());
        proof {
            reveal_strlit("-");
            assert(res@ =~= seq!['-'] + decimal((-n) as nat));
        }
        res
    } else {
        decimal_string(n as u64)
    }
}

/// A decimal representation is nonempty and made of digits only.
pub proof fn lemma_decimal_shape(n: nat)
    ensures
        decimal(n).len() > 0,
        forall|i: int| 0 <= i < decimal(n).len() ==> '0' <= #[trigger] decimal(n)[i] <= '9',
    decreases n,
{
    if n >= 10 {
        lemma_decimal_shape(n / 10);
    }
}

/// Distinct numbers have distinct decimal representations.
pub proof fn lemma_decimal_injective(a: nat, b: nat)
    requires
        decimal(a) == decimal(b),
    ensures
        a == b,
    decreases a,
{
    lemma_decimal_shape(a / 10);
    lemma_decimal_shape(b / 10);
    if a >= 10 && b >= 10 {
        assert(decimal(a / 10) == decimal(a).drop_last());
        assert(decimal(b / 10) == decimal(b).drop_last());
        assert(decimal(a).last() == digit_char(a % 10));
        assert(decimal(b).last() == digit_char(b % 10));
        lemma_decimal_injective(a / 10, b / 10);
    } else if a >= 10 {
        assert(decimal(a).len() >= 2);
    } else if b >= 10 {
        assert(decimal(b).len() >= 2);
    } else {
        assert(decimal(a)[0] == digit_char(a));
        assert(decimal(b)[0] == digit_char(b));
    }
}

/// The characters of `s`, as a vector.
pub fn chars_of(s: &str) -> (res: Vec<char>)
    ensures
        res@ == s@,
{
    let mut res: Vec<char> = Vec::new();
    for c in it: s.chars()
        invariant
            res@ == it.seq().take(it.index() as int),
    {
        res.push(c);
    }
    res
}


/// Whether `needle` occurs in `hay` at `i`, for a position where it fits.
fn matches_at(hay: &Vec<char>, needle: &Vec<char>, i: usize) -> (res: bool)
    requires
        i + needle@.len() <= hay@.len(),
    ensures
        res == occurs_at(hay@, needle@, i as int),
{
    let n = hay.len();
    let m = needle.len();
    let mut k: usize = 0;
    while k < m
        invariant
            n == hay@.len(),
            m == needle@.len(),
            i + m <= n,
            k <= m,
            forall|t: int| 0 <= t < k ==> hay@[i + t] == needle@[t],
        decreases m - k,
    {
        if hay[i + k] != needle[k] {
            assert(hay@.subrange(i as int, i + m)[k as int] != needle@[k as int]);
            return false;
        }
        k = k + 1;
    }
    assert(hay@.subrange(i as int, i + m) =~= needle@);
    true
}

/// Leftmost position of `needle` in `hay` at `from` or later, if any.
pub fn find_chars_from(hay: &Vec<char>, needle: &Vec<char>, from: usize) -> (res: Option<usize>)
    ensures
        match res {
            Some(i) => is_first_occurrence_from(hay@, needle@, from as int, i as int),
            None => !contains_from(hay@, needle@, from as int),
        },
{
    let n = hay.len();
    let m = needle.len();
    if m > n || from > n - m {
        assert forall|j: int| from <= j implies !#[trigger] occurs_at(hay@, needle@, j) by {}
        return None;
    }
    if m == 0 {
        assert(hay@.subrange(from as int, from as int) =~= needle@);
        return Some(from);
    }
    let mut i: usize = from;
    while i <= n - m
        invariant
            n == hay@.len(),
            m == needle@.len(),
            0 < m <= n,
            from <= i <= n - m + 1,
            forall|j: int| from <= j < i ==> !occurs_at(hay@, needle@, j),
        decreases n - m + 1 - i,
    {
        if matches_at(hay, needle, i) {
            return Some(i);
        }
        i = i + 1;
    }
    assert forall|j: int| from <= j implies !#[trigger] occurs_at(hay@, needle@, j) by {}
    None
}

} // verus!
