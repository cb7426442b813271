use vstd::prelude::*;

verus! {

/// A decimal digit.
pub open spec fn is_digit(c: char) -> bool {
    '0' <= c && c <= '9'
}

/// The first position of `c` in `s` at or after `from`.
pub open spec fn find_char_from(s: Seq<char>, c: char, from: int) -> Option<int>
    decreases s.len() - from,
{
    if from < 0 || from >= s.len() {
        None
    } else if s[from] == c {
        Some(from)
    } else {
        find_char_from(s, c, from + 1)
    }
}

/// The first position of `c` in `s`.
pub open spec fn find_char(s: Seq<char>, c: char) -> Option<int> {
    find_char_from(s, c, 0)
}

/// `s` spells `false` in any mix of letter cases.
pub open spec fn is_false_word(s: Seq<char>) -> bool {
    s.len() == 5 && (s[0] == 'f' || s[0] == 'F') && (s[1] == 'a' || s[1] == 'A') && (s[2] == 'l'
        || s[2] == 'L') && (s[3] == 's' || s[3] == 'S') && (s[4] == 'e' || s[4] == 'E')
}

/// How a provided string switches a boolean flag: on unless it is empty,
/// `0`, or `false` in any letter case.
pub open spec fn is_truthy(s: Seq<char>) -> bool {
    s.len() > 0 && s != seq!['0'] && !is_false_word(s)
}

/// Number of characters of `s`.
pub fn char_len(s: &str) -> (r: usize)
    ensures
        r == s@.len(),
{
    s.unicode_len()
}

/// The characters of `s` from `from` up to `to`, as a new string.
pub fn substring(s: &str, from: usize, to: usize) -> (r: String)
    requires
        from <= to <= s@.len(),
    ensures
        r@ == s@.subrange(from as int, to as int),
{
    String::from_str(s.substring_char(from, to))
}

/// The first position of `c` in `s`, if any.
pub fn index_of(s: &str, c: char) -> (r: Option<usize>)
    ensures
        match find_char(s@, c) {
            Some(p) => r == Some(p as usize),
            None => r is None,
        },
{
    let n = s.unicode_len();
    let mut i: usize = 0;
    while i < n
        invariant
            n == s@.len(),
            i <= n,
            find_char(s@, c) == find_char_from(s@, c, i as int),
        decreases n - i,
    {
        if s.get_char(i) == c {
            return Some(i);
        }
        i = i + 1;
    }
    None
}

pub proof fn lemma_find_some(s: Seq<char>, c: char, from: int)
    requires
        0 <= from,
        find_char_from(s, c, from) is Some,
    ensures
        from <= find_char_from(s, c, from).unwrap() < s.len(),
        s[find_char_from(s, c, from).unwrap()] == c,
    decreases s.len() - from,
{
    if from < s.len() && s[from] != c {
        lemma_find_some(s, c, from + 1);
    }
}

/// Whether `s` switches a boolean flag on (see [`is_truthy`]).
pub fn truthy(s: &str) -> (r: bool)
    ensures
        r == is_truthy(s@),
{
    let n = s.unicode_len();
    if n == 0 {
        return false;
    }
    if n == 1 && s.get_char(0) == '0' {
        assert(s@ =~= seq!['0']);
        return false;
    }
    if n == 5 {
        let c0 = s.get_char(0);
        let c1 = s.get_char(1);
        let c2 = s.get_char(2);
        let c3 = s.get_char(3);
        let c4 = s.get_char(4);
        let f = (c0 == 'f' || c0 == 'F') && (c1 == 'a' || c1 == 'A') && (c2 == 'l' || c2 == 'L')
            && (c3 == 's' || c3 == 'S') && (c4 == 'e' || c4 == 'E');
        return !f;
    }
    true
}

/// Digits and at most one point in `s[a..b]`, with at least one digit.
pub open spec fn mantissa_in(s: Seq<char>, a: int, b: int) -> bool {
    &&& forall|i: int| a <= i < b ==> is_digit(#[trigger] s[i]) || s[i] == '.'
    &&& forall|i: int, j: int| a <= i < j < b ==> !(#[trigger] s[i] == '.' && #[trigger] s[j] == '.')
    &&& exists|i: int| a <= i < b && is_digit(#[trigger] s[i])
}

/// An exponent in `s[a..b]`: `e` or `E`, an optional sign, then digits.
pub open spec fn exponent_in(s: Seq<char>, a: int, b: int) -> bool {
    let d = if s[a + 1] == '+' || s[a + 1] == '-' {
        a + 2
    } else {
        a + 1
    };
    &&& b - a >= 2
    &&& (s[a] == 'e' || s[a] == 'E')
    &&& d < b
    &&& forall|i: int| d <= i < b ==> is_digit(#[trigger] s[i])
}

/// The first position in `[i, b)` of `e` or `E` in `s`, or `b`.
pub open spec fn exp_from(s: Seq<char>, i: int, b: int) -> int
    decreases b - i,
{
    if i >= b {
        b
    } else if s[i] == 'e' || s[i] == 'E' {
        i
    } else {
        exp_from(s, i + 1, b)
    }
}

/// An unsigned decimal number in `s[a..b]`: a mantissa, then optionally an
/// exponent (`100`, `3.14`, `.5`, `5.`, `1e5`, `2.5E-3`).
pub open spec fn number_in(s: Seq<char>, a: int, b: int) -> bool {
    let p = exp_from(s, a, b);
    mantissa_in(s, a, p) && (p == b || exponent_in(s, p, b))
}

/// `s[a..b]` spells `lower` with each letter in either of its cases, as
/// given by `upper`.
pub open spec fn word_in(s: Seq<char>, a: int, b: int, lower: Seq<char>, upper: Seq<char>) -> bool {
    &&& b - a == lower.len()
    &&& lower.len() == upper.len()
    &&& forall|i: int| 0 <= i < lower.len() ==> #[trigger] s[a + i] == lower[i] || s[a + i] == upper[i]
}

/// The syntax std's float parsing documents: an optional sign, then a
/// decimal number with optional exponent, or `inf`, `infinity` or `nan` in
/// any letter case.
pub open spec fn is_number(s: Seq<char>) -> bool {
    let a: int = if s.len() > 0 && (s[0] == '+' || s[0] == '-') {
        1
    } else {
        0
    };
    let b = s.len() as int;
    number_in(s, a, b) || word_in(s, a, b, "inf"@, "INF"@) || word_in(s, a, b, "infinity"@, "INFINITY"@)
        || word_in(s, a, b, "nan"@, "NAN"@)
}

fn mantissa_at(s: &Vec<char>, a: usize, b: usize) -> (r: bool)
    requires
        a <= b <= s@.len(),
    ensures
        r == mantissa_in(s@, a as int, b as int),
{
    let mut seen_point = false;
    let mut seen_digit = false;
    let mut k = a;
    while k < b
        invariant
            a <= k <= b <= s@.len(),
            forall|i: int| a <= i < k ==> is_digit(#[trigger] s@[i]) || s@[i] == '.',
            forall|i: int, j: int| a <= i < j < k ==> !(#[trigger] s@[i] == '.' && #[trigger] s@[j] == '.'),
            seen_point == exists|i: int| a <= i < k && #[trigger] s@[i] == '.',
            seen_digit == exists|i: int| a <= i < k && is_digit(#[trigger] s@[i]),
        decreases b - k,
    {
        let c = s[k];
        if c == '.' {
            if seen_point {
                let ghost i = choose|i: int| a <= i < k && #[trigger] s@[i] == '.';
                assert(!(s@[i] == '.' && s@[k as int] == '.') == false);
                return false;
            }
            seen_point = true;
        } else if '0' <= c && c <= '9' {
            seen_digit = true;
        } else {
            assert(!(is_digit(s@[k as int]) || s@[k as int] == '.'));
            return false;
        }
        k = k + 1;
    }
    seen_digit
}

fn exponent_at(s: &Vec<char>, a: usize, b: usize) -> (r: bool)
    requires
        a < b <= s@.len(),
    ensures
        r == exponent_in(s@, a as int, b as int),
{
    if b - a < 2 || !(s[a] == 'e' || s[a] == 'E') {
        return false;
    }
    let d = if s[a + 1] == '+' || s[a + 1] == '-' {
        a + 2
    } else {
        a + 1
    };
    if d >= b {
        return false;
    }
    let mut k = d;
    while k < b
        invariant
            d <= k <= b <= s@.len(),
            a < b,
            b - a >= 2,
            s@[a as int] == 'e' || s@[a as int] == 'E',
            d == (if s@[a + 1] == '+' || s@[a + 1] == '-' { a + 2 } else { a + 1 }),
            forall|i: int| d <= i < k ==> is_digit(#[trigger] s@[i]),
        decreases b - k,
    {
        if !('0' <= s[k] && s[k] <= '9') {
            assert(!is_digit(s@[k as int]));
            return false;
        }
        k = k + 1;
    }
    true
}

fn word_at(s: &Vec<char>, a: usize, lower: &str, upper: &str) -> (r: bool)
    requires
        a <= s@.len(),
    ensures
        r == word_in(s@, a as int, s@.len() as int, lower@, upper@),
{
    let n = lower.unicode_len();
    let total = s.len();
    if n != upper.unicode_len() || total - a != n {
        return false;
    }
    let mut i: usize = 0;
    while i < n
        invariant
            n == lower@.len() == upper@.len(),
            total == s@.len(),
            s@.len() - a == n,
            i <= n,
            forall|x: int| 0 <= x < i ==> #[trigger] s@[a + x] == lower@[x] || s@[a + x] == upper@[x],
        decreases n - i,
    {
        assert(a + i < s@.len());
        let c = s[a + i];
        if !(c == lower.get_char(i) || c == upper.get_char(i)) {
            return false;
        }
        i = i + 1;
    }
    true
}

/// Whether `s` reads as a number (see [`is_number`]).
pub fn is_number_text(s: &str) -> (r: bool)
    ensures
        r == is_number(s@),
{
    let cs = crate::distance::chars_of(s);
    let b = cs.len();
    let a: usize = if b > 0 && (cs[0] == '+' || cs[0] == '-') {
        1
    } else {
        0
    };
    let mut p = a;
    while p < b && !(cs[p] == 'e' || cs[p] == 'E')
        invariant
            a <= p <= b == cs@.len(),
            exp_from(cs@, a as int, b as int) == exp_from(cs@, p as int, b as int),
        decreases b - p,
    {
        p = p + 1;
    }
    let number = mantissa_at(&cs, a, p) && (p == b || exponent_at(&cs, p, b));
    number || word_at(&cs, a, "inf", "INF") || word_at(&cs, a, "infinity", "INFINITY") || word_at(
        &cs,
        a,
        "nan",
        "NAN",
    )
}

/// Relies on `char::to_string`: a string holding exactly that character.
#[verifier::external_body]
pub(crate) fn char_to_string(c: char) -> (r: String)
    ensures
        r@ == seq![c],
{
    c.to_string()
}

/// The concatenation of three strings.
pub fn concat3(a: &str, b: &str, c: &str) -> (r: String)
    ensures
        r@ == a@ + b@ + c@,
{
    String::from_str(a).concat(b).concat(c)
}

/// A copy of `v`, string by string.
pub fn copy_strings(v: &Vec<String>) -> (r: Vec<String>)
    ensures
        r.deep_view() == v.deep_view(),
{
    let mut r: Vec<String> = Vec::new();
    let mut i: usize = 0;
    while i < v.len()
        invariant
            i <= v@.len(),
            r.deep_view() == v.deep_view().subrange(0, i as int),
        decreases v@.len() - i,
    {
        let ghost before = r.deep_view();
        r.push(v[i].clone());
        proof {
            assert(r.deep_view() =~= before.push(v.deep_view()[i as int]));
            assert(v.deep_view().subrange(0, i + 1) =~= v.deep_view().subrange(0, i as int).push(
                v.deep_view()[i as int],
            ));
        }
        i = i + 1;
    }
    proof {
        assert(v.deep_view().subrange(0, i as int) =~= v.deep_view());
    }
    r
}

} // verus!
