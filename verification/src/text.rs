//! String scanning primitives.
//!
//! Everything the extractors do with markup text reduces to a handful of
//! operations on character sequences: substring search, splitting on a
//! separator, trimming, and reading decimal numbers.  Each operation is
//! specified over `Seq<char>` and proved exact.

use vstd::prelude::*;

verus! {

use vstd::string::StrSliceExecFns;

/// A decimal digit.
pub open spec fn is_digit_char(c: char) -> bool {
    '0' <= c && c <= '9'
}

/// The numeric value of a decimal digit.
pub open spec fn digit_val(c: char) -> nat {
    (c as nat - '0' as nat) as nat
}

/// All characters of `s` are decimal digits.
pub open spec fn all_digits(s: Seq<char>) -> bool {
    forall|i: int| 0 <= i < s.len() ==> is_digit_char(s[i])
}

/// The value of a digit string read left to right.
pub open spec fn digits_value(s: Seq<char>) -> nat
    decreases s.len(),
{
    if s.len() == 0 {
        0
    } else {
        digits_value(s.drop_last()) * 10 + digit_val(s.last())
    }
}

/// `sub` occurs in `s` at position `i`.
pub open spec fn occurs_at(s: Seq<char>, sub: Seq<char>, i: int) -> bool {
    0 <= i && i + sub.len() <= s.len() && s.subrange(i, i + sub.len() as int) == sub
}

/// `sub` occurs somewhere in `s`.
pub open spec fn has_sub(s: Seq<char>, sub: Seq<char>) -> bool {
    exists|i: int| occurs_at(s, sub, i)
}

/// `i` is the first position at which `sub` occurs in `s`.
pub open spec fn first_occurrence(s: Seq<char>, sub: Seq<char>, i: int) -> bool {
    occurs_at(s, sub, i) && forall|j: int| 0 <= j < i ==> !occurs_at(s, sub, j)
}

/// `i` is the last position at which `sub` occurs in `s`.
pub open spec fn last_occurrence(s: Seq<char>, sub: Seq<char>, i: int) -> bool {
    occurs_at(s, sub, i) && forall|j: int| i < j ==> !occurs_at(s, sub, j)
}

/// `s` begins with `p`.
pub open spec fn starts_with(s: Seq<char>, p: Seq<char>) -> bool {
    occurs_at(s, p, 0)
}

/// `s` ends with `p`.
pub open spec fn ends_with(s: Seq<char>, p: Seq<char>) -> bool {
    p.len() <= s.len() && occurs_at(s, p, s.len() - p.len())
}

/// Two first occurrences of the same piece coincide.
pub proof fn lemma_first_occurrence_unique(s: Seq<char>, sub: Seq<char>, i: int, j: int)
    requires
        first_occurrence(s, sub, i),
        first_occurrence(s, sub, j),
    ensures
        i == j,
{
}

/// Two last occurrences of the same piece coincide.
pub proof fn lemma_last_occurrence_unique(s: Seq<char>, sub: Seq<char>, i: int, j: int)
    requires
        last_occurrence(s, sub, i),
        last_occurrence(s, sub, j),
    ensures
        i == j,
{
}

/// The position of the first occurrence of `sub` in `s`, meaningful when
/// one exists.
pub open spec fn the_first_occurrence(s: Seq<char>, sub: Seq<char>) -> int {
    choose|i: int| first_occurrence(s, sub, i)
}

/// A witnessed first occurrence pins `the_first_occurrence` down.
pub proof fn lemma_the_first_occurrence(s: Seq<char>, sub: Seq<char>, i: int)
    requires
        first_occurrence(s, sub, i),
    ensures
        the_first_occurrence(s, sub) == i,
{
    assert(exists|j: int| first_occurrence(s, sub, j));
    assert(first_occurrence(s, sub, the_first_occurrence(s, sub)));
    lemma_first_occurrence_unique(s, sub, the_first_occurrence(s, sub), i);
}

/// The position of the first `c` in `s`, meaningful when one exists.
pub open spec fn the_first_char(s: Seq<char>, c: char) -> int {
    choose|i: int| first_char_occ(s, c, i)
}

/// A witnessed first position pins `the_first_char` down.
pub proof fn lemma_the_first_char(s: Seq<char>, c: char, i: int)
    requires
        first_char_occ(s, c, i),
    ensures
        the_first_char(s, c) == i,
{
    assert(exists|j: int| first_char_occ(s, c, j));
    assert(first_char_occ(s, c, the_first_char(s, c)));
    lemma_first_char_occ_unique(s, c, the_first_char(s, c), i);
}

/// The position of the last `c` in `s`, meaningful when one exists.
pub open spec fn the_last_char(s: Seq<char>, c: char) -> int {
    choose|i: int| last_char_occ(s, c, i)
}

/// A witnessed last position pins `the_last_char` down.
pub proof fn lemma_the_last_char(s: Seq<char>, c: char, i: int)
    requires
        last_char_occ(s, c, i),
    ensures
        the_last_char(s, c) == i,
{
    assert(exists|j: int| last_char_occ(s, c, j));
    assert(last_char_occ(s, c, the_last_char(s, c)));
    lemma_last_char_occ_unique(s, c, the_last_char(s, c), i);
}

/// Compares two string slices character by character.
pub fn str_eq(a: &str, b: &str) -> (r: bool)
    ensures
        r == (a@ == b@),
{
    let na = a.unicode_len();
    let nb = b.unicode_len();
    if na != nb {
        return false;
    }
    let mut i: usize = 0;
    while i < na
        invariant
            na == a@.len(),
            na == b@.len(),
            0 <= i <= na,
            forall|j: int| 0 <= j < i ==> a@[j] == b@[j],
        decreases na - i,
    {
        if a.get_char(i) != b.get_char(i) {
            return false;
        }
        i = i + 1;
    }
    proof {
        assert(a@ =~= b@);
    }
    true
}

/// Decides whether `sub` occurs in `s` at position `i`.
pub fn occurs_at_exec(s: &str, sub: &str, i: usize) -> (r: bool)
    requires
        i + sub@.len() <= s@.len(),
    ensures
        r == occurs_at(s@, sub@, i as int),
{
    let total = s.unicode_len();
    let n = sub.unicode_len();
    let mut k: usize = 0;
    while k < n
        invariant
            total == s@.len(),
            n == sub@.len(),
            i + n <= s@.len(),
            0 <= k <= n,
            forall|j: int| 0 <= j < k ==> s@[i + j] == sub@[j],
        decreases n - k,
    {
        if s.get_char(i + k) != sub.get_char(k) {
            proof {
                assert(s@.subrange(i as int, i + n as int)[k as int] == s@[i + k]);
            }
            return false;
        }
        k = k + 1;
    }
    proof {
        assert(s@.subrange(i as int, i + n as int) =~= sub@);
    }
    true
}

/// `s` begins with `p`, decided by scanning.
pub fn str_starts_with(s: &str, p: &str) -> (r: bool)
    ensures
        r == starts_with(s@, p@),
{
    if p.unicode_len() > s.unicode_len() {
        return false;
    }
    occurs_at_exec(s, p, 0)
}

/// `s` ends with `p`, decided by scanning.
pub fn str_ends_with(s: &str, p: &str) -> (r: bool)
    ensures
        r == ends_with(s@, p@),
{
    let n = s.unicode_len();
    let m = p.unicode_len();
    if m > n {
        return false;
    }
    occurs_at_exec(s, p, n - m)
}

/// The first position at which `sub` occurs in `s`, if any.
pub fn find_sub(s: &str, sub: &str) -> (r: Option<usize>)
    ensures
        match r {
            Some(i) => first_occurrence(s@, sub@, i as int),
            None => !has_sub(s@, sub@),
        },
{
    let n = s.unicode_len();
    let m = sub.unicode_len();
    if m > n {
        proof {
            assert(forall|i: int| !occurs_at(s@, sub@, i));
        }
        return None;
    }
    if m == 0 {
        proof {
            assert(s@.subrange(0, 0) =~= sub@);
        }
        return Some(0);
    }
    let mut i: usize = 0;
    while i <= n - m
        invariant
            n == s@.len(),
            m == sub@.len(),
            1 <= m <= n,
            0 <= i <= n - m + 1,
            forall|j: int| 0 <= j < i ==> !occurs_at(s@, sub@, j),
        decreases n - m + 1 - i,
    {
        if occurs_at_exec(s, sub, i) {
            return Some(i);
        }
        i = i + 1;
    }
    proof {
        assert(forall|j: int| occurs_at(s@, sub@, j) ==> 0 <= j <= n - m);
    }
    None
}

/// The last position at which `sub` occurs in `s`, if any.
pub fn rfind_sub(s: &str, sub: &str) -> (r: Option<usize>)
    ensures
        match r {
            Some(i) => last_occurrence(s@, sub@, i as int),
            None => !has_sub(s@, sub@),
        },
{
    let n = s.unicode_len();
    let m = sub.unicode_len();
    if m > n {
        proof {
            assert(forall|i: int| !occurs_at(s@, sub@, i));
        }
        return None;
    }
    if m == 0 {
        proof {
            assert(s@.subrange(n as int, n as int) =~= sub@);
        }
        return Some(n);
    }
    let mut i: usize = n - m + 1;
    while i > 0
        invariant
            n == s@.len(),
            m == sub@.len(),
            1 <= m <= n,
            0 <= i <= n - m + 1,
            forall|j: int| i <= j ==> !occurs_at(s@, sub@, j),
        decreases i,
    {
        i = i - 1;
        if occurs_at_exec(s, sub, i) {
            return Some(i);
        }
    }
    None
}

/// `sub` occurs somewhere in `s`, decided by scanning.
pub fn str_contains(s: &str, sub: &str) -> (r: bool)
    ensures
        r == has_sub(s@, sub@),
{
    match find_sub(s, sub) {
        Some(_) => true,
        None => false,
    }
}

/// The substring of `s` from `from` (inclusive) to `to` (exclusive),
/// counted in characters.
pub fn substr<'a>(s: &'a str, from: usize, to: usize) -> (r: &'a str)
    requires
        from <= to <= s@.len(),
    ensures
        r@ == s@.subrange(from as int, to as int),
{
    s.substring_char(from, to)
}

/// Relies on the standard `format!` machinery: the result is the left
/// operand's characters followed by the right operand's.
#[verifier::external_body]
pub(crate) fn str_concat(a: &str, b: &str) -> (r: String)
    ensures
        r@ == a@ + b@,
{
    format!("{}{}", a, b)
}

/// `i` is the first position of character `c` in `s`.
pub open spec fn first_char_occ(s: Seq<char>, c: char, i: int) -> bool {
    0 <= i < s.len() && s[i] == c && forall|j: int| 0 <= j < i ==> s[j] != c
}

/// `i` is the last position of character `c` in `s`.
pub open spec fn last_char_occ(s: Seq<char>, c: char, i: int) -> bool {
    0 <= i < s.len() && s[i] == c && forall|j: int| i < j < s.len() ==> s[j] != c
}

/// `c` does not occur in `s`.
pub open spec fn no_char(s: Seq<char>, c: char) -> bool {
    forall|i: int| 0 <= i < s.len() ==> s[i] != c
}

/// The first position of character `c` in `s`, if any.
pub fn find_char(s: &str, c: char) -> (r: Option<usize>)
    ensures
        match r {
            Some(i) => first_char_occ(s@, c, i as int),
            None => no_char(s@, c),
        },
{
    let n = s.unicode_len();
    let mut i: usize = 0;
    while i < n
        invariant
            n == s@.len(),
            0 <= i <= n,
            forall|j: int| 0 <= j < i ==> s@[j] != c,
        decreases n - i,
    {
        if s.get_char(i) == c {
            return Some(i);
        }
        i = i + 1;
    }
    None
}

/// The last position of character `c` in `s`, if any.
pub fn rfind_char(s: &str, c: char) -> (r: Option<usize>)
    ensures
        match r {
            Some(i) => last_char_occ(s@, c, i as int),
            None => no_char(s@, c),
        },
{
    let n = s.unicode_len();
    let mut i: usize = n;
    while i > 0
        invariant
            n == s@.len(),
            0 <= i <= n,
            forall|j: int| i <= j < n ==> s@[j] != c,
        decreases i,
    {
        i = i - 1;
        if s.get_char(i) == c {
            return Some(i);
        }
    }
    None
}

/// The `n`th piece of `s` when split on `sep`, mirroring how splitting on
/// a separator character yields pieces (empty pieces included).
pub open spec fn nth_segment_spec(s: Seq<char>, sep: char, n: int) -> Option<Seq<char>>
    decreases s.len(),
{
    if exists|i: int| first_char_occ(s, sep, i) {
        let i = choose|i: int| first_char_occ(s, sep, i);
        if n == 0 {
            Some(s.subrange(0, i))
        } else {
            nth_segment_spec(s.subrange(i + 1, s.len() as int), sep, n - 1)
        }
    } else {
        if n == 0 {
            Some(s)
        } else {
            None
        }
    }
}

/// The piece of `s` after the last `sep`, or all of `s` when `sep` is
/// absent.
pub open spec fn last_segment_spec(s: Seq<char>, sep: char) -> Seq<char> {
    if exists|i: int| last_char_occ(s, sep, i) {
        let i = choose|i: int| last_char_occ(s, sep, i);
        s.subrange(i + 1, s.len() as int)
    } else {
        s
    }
}

/// Two first positions of the same character coincide.
pub proof fn lemma_first_char_occ_unique(s: Seq<char>, c: char, i: int, j: int)
    requires
        first_char_occ(s, c, i),
        first_char_occ(s, c, j),
    ensures
        i == j,
{
}

/// Two last positions of the same character coincide.
pub proof fn lemma_last_char_occ_unique(s: Seq<char>, c: char, i: int, j: int)
    requires
        last_char_occ(s, c, i),
        last_char_occ(s, c, j),
    ensures
        i == j,
{
}

/// The `n`th piece of `s` when split on `sep`.
pub fn nth_segment<'a>(s: &'a str, sep: char, n: usize) -> (r: Option<&'a str>)
    ensures
        match r {
            Some(t) => nth_segment_spec(s@, sep, n as int) == Some(t@),
            None => nth_segment_spec(s@, sep, n as int) is None,
        },
    decreases s@.len(),
{
    let len = s.unicode_len();
    match find_char(s, sep) {
        None => {
            if n == 0 {
                Some(s)
            } else {
                None
            }
        },
        Some(i) => {
            proof {
                let w = choose|w: int| first_char_occ(s@, sep, w);
                lemma_first_char_occ_unique(s@, sep, w, i as int);
            }
            if n == 0 {
                Some(substr(s, 0, i))
            } else {
                nth_segment(substr(s, i + 1, len), sep, n - 1)
            }
        },
    }
}

/// The piece of `s` after the last `sep`, or all of `s`.
pub fn last_segment<'a>(s: &'a str, sep: char) -> (r: &'a str)
    ensures
        r@ == last_segment_spec(s@, sep),
{
    let len = s.unicode_len();
    match rfind_char(s, sep) {
        None => s,
        Some(i) => {
            proof {
                let w = choose|w: int| last_char_occ(s@, sep, w);
                lemma_last_char_occ_unique(s@, sep, w, i as int);
            }
            substr(s, i + 1, len)
        },
    }
}

/// The character sequences of a sequence of strings.
pub open spec fn strs_view(v: Seq<String>) -> Seq<Seq<char>> {
    Seq::new(v.len(), |i: int| v[i]@)
}

/// Every piece of `s` split on `sep`, in order, empty pieces included.
pub open spec fn split_all(s: Seq<char>, sep: char) -> Seq<Seq<char>>
    decreases s.len(),
{
    if exists|i: int| first_char_occ(s, sep, i) {
        let i = the_first_char(s, sep);
        seq![s.subrange(0, i)] + split_all(s.subrange(i + 1, s.len() as int), sep)
    } else {
        seq![s]
    }
}

/// Splits `s` on `sep` into owned pieces.
pub fn split_all_exec(s: &str, sep: char) -> (r: Vec<String>)
    ensures
        strs_view(r@) == split_all(s@, sep),
    decreases s@.len(),
{
    let n = s.unicode_len();
    match find_char(s, sep) {
        None => {
            let mut v: Vec<String> = Vec::new();
            v.push(s.to_owned());
            proof {
                assert(strs_view(v@) =~~= split_all(s@, sep));
            }
            v
        },
        Some(i) => {
            proof {
                lemma_the_first_char(s@, sep, i as int);
            }
            let head = substr(s, 0, i).to_owned();
            let rest = split_all_exec(substr(s, i + 1, n), sep);
            let mut v: Vec<String> = Vec::new();
            v.push(head);
            let m = rest.len();
            let mut j: usize = 0;
            while j < m
                invariant
                    m == rest@.len(),
                    0 <= j <= m,
                    v@.len() == j + 1,
                    v@[0]@ == s@.subrange(0, the_first_char(s@, sep)),
                    forall|t: int| 1 <= t <= j ==> (#[trigger] v@[t])@ == rest@[t - 1]@,
                decreases m - j,
            {
                v.push(rest[j].clone());
                j = j + 1;
            }
            proof {
                assert(strs_view(v@) =~~= split_all(s@, sep));
            }
            v
        },
    }
}

/// The pieces joined with a comma ahead of each: how the client encodes
/// a tag list in a form field.
pub open spec fn comma_joined(tags: Seq<Seq<char>>) -> Seq<char>
    decreases tags.len(),
{
    if tags.len() == 0 {
        Seq::empty()
    } else {
        comma_joined(tags.drop_last()) + ","@ + tags.last()
    }
}

/// Joins the pieces with a comma ahead of each.
pub fn join_with_commas(tags: &Vec<String>) -> (r: String)
    ensures
        r@ == comma_joined(strs_view(tags@)),
{
    let mut acc = String::new();
    let n = tags.len();
    let mut i: usize = 0;
    proof {
        assert(strs_view(tags@).subrange(0, 0) =~= Seq::<Seq<char>>::empty());
    }
    while i < n
        invariant
            n == tags@.len(),
            0 <= i <= n,
            acc@ == comma_joined(strs_view(tags@).subrange(0, i as int)),
        decreases n - i,
    {
        let with_comma = str_concat(acc.as_str(), ",");
        acc = str_concat(with_comma.as_str(), tags[i].as_str());
        proof {
            let tv = strs_view(tags@);
            assert(tv.subrange(0, i + 1).drop_last() =~= tv.subrange(0, i as int));
            assert(tv.subrange(0, i + 1).last() == tv[i as int]);
        }
        i = i + 1;
    }
    proof {
        assert(strs_view(tags@).subrange(0, n as int) =~= strs_view(tags@));
    }
    acc
}

/// The character sequences of a sequence of string pairs.
pub open spec fn pairs_view(v: Seq<(String, String)>) -> Seq<(Seq<char>, Seq<char>)> {
    Seq::new(v.len(), |i: int| (v[i].0@, v[i].1@))
}

/// `s` with every occurrence of `c` removed.
pub open spec fn without_char_spec(s: Seq<char>, c: char) -> Seq<char>
    decreases s.len(),
{
    if s.len() == 0 {
        Seq::empty()
    } else {
        without_char_spec(s.drop_last(), c) + (if s.last() == c {
            Seq::empty()
        } else {
            seq![s.last()]
        })
    }
}

/// Removes every occurrence of `c` from `s`.
pub fn without_char(s: &str, c: char) -> (r: String)
    ensures
        r@ == without_char_spec(s@, c),
{
    let n = s.unicode_len();
    let mut acc = String::new();
    let mut i: usize = 0;
    proof {
        assert(s@.subrange(0, 0) =~= Seq::<char>::empty());
    }
    while i < n
        invariant
            n == s@.len(),
            0 <= i <= n,
            acc@ == without_char_spec(s@.subrange(0, i as int), c),
        decreases n - i,
    {
        if s.get_char(i) != c {
            acc = str_concat(acc.as_str(), substr(s, i, i + 1));
        }
        proof {
            assert(s@.subrange(0, i + 1).drop_last() =~= s@.subrange(0, i as int));
            assert(s@.subrange(0, i + 1).last() == s@[i as int]);
            assert(s@.subrange(i as int, i + 1) =~= seq![s@[i as int]]);
            assert(acc@ =~= without_char_spec(s@.subrange(0, i + 1), c));
        }
        i = i + 1;
    }
    proof {
        assert(s@.subrange(0, n as int) =~= s@);
    }
    acc
}

/// An ASCII whitespace character, as this crate's trimming understands it.
pub open spec fn is_space_char(c: char) -> bool {
    c == ' ' || c == '\t' || c == '\n' || c == '\r' || c == '\u{0b}' || c == '\u{0c}'
}

/// How many whitespace characters `s` begins with.
pub open spec fn trim_start_len(s: Seq<char>) -> int
    decreases s.len(),
{
    if s.len() == 0 {
        0
    } else if !is_space_char(s[0]) {
        0
    } else {
        1 + trim_start_len(s.drop_first())
    }
}

/// How many whitespace characters `s` ends with.
pub open spec fn trim_end_len(s: Seq<char>) -> int
    decreases s.len(),
{
    if s.len() == 0 {
        0
    } else if !is_space_char(s.last()) {
        0
    } else {
        1 + trim_end_len(s.drop_last())
    }
}

/// `s` with leading and trailing whitespace removed.
pub open spec fn trimmed(s: Seq<char>) -> Seq<char> {
    let a = trim_start_len(s);
    let b = trim_end_len(s);
    if a + b <= s.len() {
        s.subrange(a, s.len() - b)
    } else {
        Seq::empty()
    }
}

proof fn lemma_trim_start_at(s: Seq<char>, a: int)
    requires
        0 <= a <= s.len(),
        forall|j: int| 0 <= j < a ==> is_space_char(s[j]),
        a < s.len() ==> !is_space_char(s[a]),
    ensures
        trim_start_len(s) == a,
    decreases a,
{
    if a == 0 {
    } else {
        assert(is_space_char(s[0]));
        lemma_trim_start_at(s.drop_first(), a - 1);
    }
}

proof fn lemma_trim_end_at(s: Seq<char>, b: int)
    requires
        0 <= b <= s.len(),
        forall|j: int| s.len() - b <= j < s.len() ==> is_space_char(s[j]),
        b < s.len() ==> !is_space_char(s[s.len() - b - 1]),
    ensures
        trim_end_len(s) == b,
    decreases b,
{
    if b == 0 {
    } else {
        assert(is_space_char(s.last()));
        lemma_trim_end_at(s.drop_last(), b - 1);
    }
}

/// Whether `c` is whitespace, decided in code.
pub fn is_space(c: char) -> (r: bool)
    ensures
        r == is_space_char(c),
{
    c == ' ' || c == '\t' || c == '\n' || c == '\r' || c == '\u{0b}' || c == '\u{0c}'
}

/// `s` with leading and trailing whitespace removed.
pub fn str_trim<'a>(s: &'a str) -> (r: &'a str)
    ensures
        r@ == trimmed(s@),
{
    let n = s.unicode_len();
    let mut a: usize = 0;
    while a < n && is_space(s.get_char(a))
        invariant
            n == s@.len(),
            0 <= a <= n,
            forall|j: int| 0 <= j < a ==> is_space_char(s@[j]),
        decreases n - a,
    {
        a = a + 1;
    }
    proof {
        lemma_trim_start_at(s@, a as int);
    }
    if a == n {
        let r = substr(s, n, n);
        proof {
            lemma_trim_end_at(s@, a as int);
            assert(r@ =~= trimmed(s@));
        }
        return r;
    }
    let mut b: usize = 0;
    while b < n && is_space(s.get_char(n - 1 - b))
        invariant
            n == s@.len(),
            0 <= b <= n,
            forall|j: int| n - b <= j < n ==> is_space_char(s@[j]),
        decreases n - b,
    {
        b = b + 1;
    }
    proof {
        lemma_trim_end_at(s@, b as int);
        assert(!is_space_char(s@[a as int]));
        assert(a + b <= n);
    }
    substr(s, a, n - b)
}

/// The value of `s` as an unsigned number, when every character is a
/// digit, the string is non-empty, and the value fits.
pub open spec fn valid_u64_digits(s: Seq<char>) -> bool {
    s.len() > 0 && all_digits(s) && digits_value(s) <= u64::MAX
}

proof fn lemma_digits_value_mono(s: Seq<char>, i: int)
    requires
        0 <= i <= s.len(),
    ensures
        digits_value(s.subrange(0, i)) <= digits_value(s),
    decreases s.len() - i,
{
    if i == s.len() {
        assert(s.subrange(0, i) =~= s);
    } else {
        let t = s.subrange(0, i + 1);
        assert(t.drop_last() =~= s.subrange(0, i));
        assert(digits_value(s.subrange(0, i)) <= digits_value(t));
        lemma_digits_value_mono(s, i + 1);
    }
}

/// Reads a non-empty all-digit string as a `u64`, failing on any other
/// character and on overflow.
pub fn parse_digits_u64(s: &str) -> (r: Option<u64>)
    ensures
        r == if valid_u64_digits(s@) {
            Some(digits_value(s@) as u64)
        } else {
            None::<u64>
        },
{
    let n = s.unicode_len();
    if n == 0 {
        return None;
    }
    let mut i: usize = 0;
    let mut acc: u64 = 0;
    while i < n
        invariant
            n == s@.len(),
            0 < n,
            0 <= i <= n,
            forall|j: int| 0 <= j < i ==> is_digit_char(s@[j]),
            acc == digits_value(s@.subrange(0, i as int)),
        decreases n - i,
    {
        let c = s.get_char(i);
        if !('0' <= c && c <= '9') {
            return None;
        }
        let d: u64 = (c as u32 - '0' as u32) as u64;
        proof {
            let t = s@.subrange(0, i + 1);
            assert(t.drop_last() =~= s@.subrange(0, i as int));
            assert(digits_value(t) == acc * 10 + d);
        }
        if acc > u64::MAX / 10 || acc * 10 > u64::MAX - d {
            proof {
                lemma_digits_value_mono(s@, i + 1);
            }
            return None;
        }
        acc = acc * 10 + d;
        i = i + 1;
    }
    proof {
        assert(s@.subrange(0, n as int) =~= s@);
    }
    Some(acc)
}

/// The string after an optional leading plus sign.
pub open spec fn strip_plus(s: Seq<char>) -> Seq<char> {
    if s.len() > 0 && s[0] == '+' {
        s.drop_first()
    } else {
        s
    }
}

/// `s` parses as a `u64` the way the standard decimal parser reads it:
/// an optional `+`, then one or more digits, value in range.
pub open spec fn u64_parse_spec(s: Seq<char>) -> Option<u64> {
    if valid_u64_digits(strip_plus(s)) {
        Some(digits_value(strip_plus(s)) as u64)
    } else {
        None
    }
}

/// Reads a decimal `u64` with an optional leading plus sign.
pub fn parse_u64(s: &str) -> (r: Option<u64>)
    ensures
        r == u64_parse_spec(s@),
{
    let n = s.unicode_len();
    if n > 0 && s.get_char(0) == '+' {
        let rest = substr(s, 1, n);
        proof {
            assert(rest@ =~= strip_plus(s@));
        }
        parse_digits_u64(rest)
    } else {
        proof {
            assert(strip_plus(s@) =~= s@);
        }
        parse_digits_u64(s)
    }
}

/// `s` parses as a `u32`: as for `u64`, with the tighter bound.
pub open spec fn u32_parse_spec(s: Seq<char>) -> Option<u32> {
    let d = strip_plus(s);
    if d.len() > 0 && all_digits(d) && digits_value(d) <= u32::MAX {
        Some(digits_value(d) as u32)
    } else {
        None
    }
}

/// Reads a decimal `u32` with an optional leading plus sign.
pub fn parse_u32(s: &str) -> (r: Option<u32>)
    ensures
        r == u32_parse_spec(s@),
{
    match parse_u64(s) {
        Some(v) => {
            if v <= 0xffff_ffff {
                Some(v as u32)
            } else {
                None
            }
        },
        None => None,
    }
}

/// `s` parses as an `i32`: an optional sign, then digits, value in range.
pub open spec fn i32_parse_spec(s: Seq<char>) -> Option<i32> {
    if s.len() > 0 && s[0] == '-' {
        let d = s.drop_first();
        if d.len() > 0 && all_digits(d) && digits_value(d) <= 0x8000_0000 {
            Some((0 - digits_value(d) as int) as i32)
        } else {
            None
        }
    } else {
        let d = strip_plus(s);
        if d.len() > 0 && all_digits(d) && digits_value(d) <= 0x7fff_ffff {
            Some(digits_value(d) as i32)
        } else {
            None
        }
    }
}

/// Reads a decimal `i32` with an optional leading sign.
pub fn parse_i32(s: &str) -> (r: Option<i32>)
    ensures
        r == i32_parse_spec(s@),
{
    let n = s.unicode_len();
    if n > 0 && s.get_char(0) == '-' {
        let rest = substr(s, 1, n);
        proof {
            assert(rest@ =~= s@.drop_first());
        }
        match parse_digits_u64(rest) {
            Some(v) => {
                if v == 0x8000_0000 {
                    Some(i32::MIN)
                } else if v < 0x8000_0000 {
                    Some(-(v as i32))
                } else {
                    None
                }
            },
            None => None,
        }
    } else {
        match parse_u64(s) {
            Some(v) => {
                if v <= 0x7fff_ffff {
                    Some(v as i32)
                } else {
                    None
                }
            },
            None => None,
        }
    }
}

/// The maximal run of digits at the end of `s`.
pub open spec fn trailing_digits(s: Seq<char>) -> Seq<char>
    decreases s.len(),
{
    if s.len() > 0 && is_digit_char(s.last()) {
        trailing_digits(s.drop_last()) + seq![s.last()]
    } else {
        Seq::empty()
    }
}

proof fn lemma_trailing_digits_at(s: Seq<char>, i: int)
    requires
        0 <= i <= s.len(),
        forall|j: int| i <= j < s.len() ==> is_digit_char(s[j]),
        i > 0 ==> !is_digit_char(s[i - 1]),
    ensures
        trailing_digits(s) =~= s.subrange(i, s.len() as int),
    decreases s.len() - i,
{
    if i == s.len() {
    } else {
        lemma_trailing_digits_at(s.drop_last(), i);
        assert(s.drop_last().subrange(i, s.len() - 1) =~= s.subrange(i, s.len() - 1));
        assert(trailing_digits(s) =~= s.subrange(i, s.len() - 1) + seq![s.last()]);
    }
}

/// The trailing digit run holds digits only.
pub proof fn lemma_trailing_digits_digits(s: Seq<char>)
    ensures
        all_digits(trailing_digits(s)),
    decreases s.len(),
{
    if s.len() > 0 && is_digit_char(s.last()) {
        lemma_trailing_digits_digits(s.drop_last());
        let t = trailing_digits(s);
        let p = trailing_digits(s.drop_last());
        assert forall|i: int| 0 <= i < t.len() implies is_digit_char(t[i]) by {
            if i < p.len() {
                assert(t[i] == p[i]);
            } else {
                assert(t[i] == s.last());
            }
        }
    }
}

/// The trailing digit run is never longer than the string.
pub proof fn lemma_trailing_digits_len(s: Seq<char>)
    ensures
        trailing_digits(s).len() <= s.len(),
    decreases s.len(),
{
    if s.len() > 0 && is_digit_char(s.last()) {
        lemma_trailing_digits_len(s.drop_last());
    }
}

/// The maximal run of digits at the end of `s`, scanned backwards.
pub fn trailing_digits_exec<'a>(s: &'a str) -> (r: &'a str)
    ensures
        r@ == trailing_digits(s@),
{
    let n = s.unicode_len();
    let mut i: usize = n;
    while i > 0
        invariant
            n == s@.len(),
            0 <= i <= n,
            forall|j: int| i <= j < n ==> is_digit_char(s@[j]),
        decreases i,
    {
        let c = s.get_char(i - 1);
        if !('0' <= c && c <= '9') {
            proof {
                lemma_trailing_digits_at(s@, i as int);
            }
            return substr(s, i, n);
        }
        i = i - 1;
    }
    proof {
        lemma_trailing_digits_at(s@, 0);
    }
    substr(s, 0, n)
}

/// The character for a digit value.
pub open spec fn dec_digit_char(d: nat) -> char {
    if d == 0 {
        '0'
    } else if d == 1 {
        '1'
    } else if d == 2 {
        '2'
    } else if d == 3 {
        '3'
    } else if d == 4 {
        '4'
    } else if d == 5 {
        '5'
    } else if d == 6 {
        '6'
    } else if d == 7 {
        '7'
    } else if d == 8 {
        '8'
    } else {
        '9'
    }
}

/// The decimal rendering of `n`, most significant digit first.
pub open spec fn dec_str(n: nat) -> Seq<char>
    decreases n,
{
    if n < 10 {
        seq![dec_digit_char(n)]
    } else {
        dec_str(n / 10) + seq![dec_digit_char(n % 10)]
    }
}

fn digit_literal(d: u64) -> (r: &'static str)
    requires
        d < 10,
    ensures
        r@ == seq![dec_digit_char(d as nat)],
{
    proof {
        reveal_strlit("0");
        reveal_strlit("1");
        reveal_strlit("2");
        reveal_strlit("3");
        reveal_strlit("4");
        reveal_strlit("5");
        reveal_strlit("6");
        reveal_strlit("7");
        reveal_strlit("8");
        reveal_strlit("9");
    }
    let r = if d == 0 {
        "0"
    } else if d == 1 {
        "1"
    } else if d == 2 {
        "2"
    } else if d == 3 {
        "3"
    } else if d == 4 {
        "4"
    } else if d == 5 {
        "5"
    } else if d == 6 {
        "6"
    } else if d == 7 {
        "7"
    } else if d == 8 {
        "8"
    } else {
        "9"
    };
    proof {
        assert(r@ =~= seq![dec_digit_char(d as nat)]);
    }
    r
}

/// Renders `n` in decimal.
pub fn u64_to_dec(n: u64) -> (r: String)
    ensures
        r@ == dec_str(n as nat),
    decreases n,
{
    if n < 10 {
        digit_literal(n).to_owned()
    } else {
        let rest = u64_to_dec(n / 10);
        str_concat(rest.as_str(), digit_literal(n % 10))
    }
}

/// Renders `n` in decimal.
pub fn u32_to_dec(n: u32) -> (r: String)
    ensures
        r@ == dec_str(n as nat),
{
    u64_to_dec(n as u64)
}

} // verus!
