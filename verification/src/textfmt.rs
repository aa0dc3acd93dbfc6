//! Text helpers shared by the menu, status and flash-error formatting:
//! decimal rendering of integers and case-insensitive name comparison.
use vstd::prelude::*;
use vstd::string::*;

verus! {

/// The character for one decimal digit.
pub open spec fn spec_digit_char(d: int) -> char {
    if d == 0 {
        '0'
    } else if d == 1 {
        '1'
    } else if d == 2 {
        '2'
    } else if d == 3 {
        '3'
    } else if d == 4 {
        '4'
    } else if d == 5 {
        '5'
    } else if d == 6 {
        '6'
    } else if d == 7 {
        '7'
    } else if d == 8 {
        '8'
    } else {
        '9'
    }
}

/// Decimal digits of `n`, most significant first; empty when `n <= 0`.
pub open spec fn spec_decimal_digits(n: int) -> Seq<char>
    decreases n,
{
    if n <= 0 {
        Seq::empty()
    } else {
        spec_decimal_digits(n / 10).push(spec_digit_char(n % 10))
    }
}

/// The decimal text of a non-negative number; `0` is written "0".
pub open spec fn spec_u64_text(n: int) -> Seq<char> {
    if n == 0 {
        seq!['0']
    } else {
        spec_decimal_digits(n)
    }
}

/// The decimal text of a signed number, with a leading '-' when negative.
pub open spec fn spec_i32_text(n: int) -> Seq<char> {
    if n < 0 {
        seq!['-'] + spec_u64_text(-n)
    } else {
        spec_u64_text(n)
    }
}

/// Exactly two decimal digits, for zero-padded clock fields.
pub open spec fn spec_two_digits(n: int) -> Seq<char> {
    seq![spec_digit_char((n / 10) % 10), spec_digit_char(n % 10)]
}

fn digit_str(d: u64) -> (s: &'static str)
    requires
        d < 10,
    ensures
        s@ == seq![spec_digit_char(d as int)],
{
    proof {
        reveal_strlit("0");
        reveal_strlit("1");
        reveal_strlit("2");
        reveal_strlit("3");
        reveal_strlit("4");
        reveal_strlit("5");
        reveal_strlit("6");
        reveal_strlit("7");
        reveal_strlit("8");
        reveal_strlit("9");
    }
    let s = match d {
        0 => "0",
        1 => "1",
        2 => "2",
        3 => "3",
        4 => "4",
        5 => "5",
        6 => "6",
        7 => "7",
        8 => "8",
        _ => "9",
    };
    proof {
        assert(s@ =~= seq![spec_digit_char(d as int)]);
    }
    s
}

/// Renders a number in decimal.
pub fn fmt_u64(n: u64) -> (s: String)
    ensures
        s@ == spec_u64_text(n as int),
    decreases n,
{
    if n < 10 {
        let s = String::from_str(digit_str(n));
        proof {
            assert(spec_decimal_digits(n as int / 10) =~= Seq::empty());
            assert(spec_u64_text(n as int) =~= seq![spec_digit_char(n as int)]);
        }
        s
    } else {
        let prefix = fmt_u64(n / 10);
        let s = prefix.concat(digit_str(n % 10));
        proof {
            assert(s@ =~= spec_decimal_digits(n as int));
        }
        s
    }
}

/// Renders a signed status code in decimal.
pub fn fmt_i32(n: i32) -> (s: String)
    ensures
        s@ == spec_i32_text(n as int),
{
    if n < 0 {
        let wide: i64 = n as i64;
        let magnitude: u64 = (0i64 - wide) as u64;
        let digits = fmt_u64(magnitude);
        let s = String::from_str("-").concat(digits.as_str());
        proof {
            reveal_strlit("-");
            assert(s@ =~= spec_i32_text(n as int));
        }
        s
    } else {
        fmt_u64(n as u64)
    }
}

/// Renders a number as exactly two decimal digits (modulo 100).
pub fn fmt_two_digits(n: u64) -> (s: String)
    requires
        n < 100,
    ensures
        s@ == spec_two_digits(n as int),
{
    let hi = String::from_str(digit_str(n / 10));
    let s = hi.concat(digit_str(n % 10));
    proof {
        assert(s@ =~= spec_two_digits(n as int));
    }
    s
}

/// The views of a vector of lines, for contracts over rendered text.
pub open spec fn spec_texts(v: Seq<String>) -> Seq<Seq<char>> {
    v.map_values(|s: String| s@)
}

/// ASCII-lowercase fold of one character, as a code point.
pub open spec fn spec_fold_char(c: char) -> int {
    if 65 <= c as int && c as int <= 90 {
        c as int + 32
    } else {
        c as int
    }
}

/// Case-insensitive equality of two character sequences (ASCII fold).
pub open spec fn spec_eq_fold(a: Seq<char>, b: Seq<char>) -> bool {
    &&& a.len() == b.len()
    &&& forall|i: int| 0 <= i < a.len() ==> spec_fold_char(a[i]) == spec_fold_char(b[i])
}

/// Case-insensitive lexicographic order on character sequences (ASCII fold).
pub open spec fn spec_name_le(a: Seq<char>, b: Seq<char>) -> bool
    decreases a.len(),
{
    if a.len() == 0 {
        true
    } else if b.len() == 0 {
        false
    } else if spec_fold_char(a[0]) < spec_fold_char(b[0]) {
        true
    } else if spec_fold_char(a[0]) == spec_fold_char(b[0]) {
        spec_name_le(a.subrange(1, a.len() as int), b.subrange(1, b.len() as int))
    } else {
        false
    }
}

/// The name order is total.
pub proof fn lemma_name_le_total(a: Seq<char>, b: Seq<char>)
    ensures
        spec_name_le(a, b) || spec_name_le(b, a),
    decreases a.len(),
{
    if a.len() != 0 && b.len() != 0 && spec_fold_char(a[0]) == spec_fold_char(b[0]) {
        lemma_name_le_total(a.subrange(1, a.len() as int), b.subrange(1, b.len() as int));
    }
}

/// The name order is transitive.
pub proof fn lemma_name_le_trans(a: Seq<char>, b: Seq<char>, c: Seq<char>)
    requires
        spec_name_le(a, b),
        spec_name_le(b, c),
    ensures
        spec_name_le(a, c),
    decreases a.len(),
{
    if a.len() != 0 && b.len() != 0 && c.len() != 0 {
        if spec_fold_char(a[0]) == spec_fold_char(b[0]) && spec_fold_char(b[0]) == spec_fold_char(
            c[0],
        ) {
            lemma_name_le_trans(
                a.subrange(1, a.len() as int),
                b.subrange(1, b.len() as int),
                c.subrange(1, c.len() as int),
            );
        }
    }
}

fn fold_char(c: char) -> (r: u32)
    ensures
        r as int == spec_fold_char(c),
{
    let u = c as u32;
    if 65 <= u && u <= 90 {
        u + 32
    } else {
        u
    }
}

/// Compares two names case-insensitively (ASCII fold), lexicographically.
pub fn name_le(a: &str, b: &str) -> (r: bool)
    ensures
        r == spec_name_le(a@, b@),
{
    let a_len = a.unicode_len();
    let b_len = b.unicode_len();
    let mut i: usize = 0;
    proof {
        assert(a@.subrange(0, a_len as int) =~= a@);
        assert(b@.subrange(0, b_len as int) =~= b@);
    }
    loop
        invariant
            i <= a_len,
            i <= b_len,
            a_len == a@.len(),
            b_len == b@.len(),
            spec_name_le(a@, b@) == spec_name_le(
                a@.subrange(i as int, a_len as int),
                b@.subrange(i as int, b_len as int),
            ),
        decreases a_len - i,
    {
        if i == a_len {
            proof {
                assert(a@.subrange(i as int, a_len as int).len() == 0);
            }
            return true;
        }
        if i == b_len {
            proof {
                assert(b@.subrange(i as int, b_len as int).len() == 0);
                assert(a@.subrange(i as int, a_len as int).len() != 0);
            }
            return false;
        }
        let fa = fold_char(a.get_char(i));
        let fb = fold_char(b.get_char(i));
        proof {
            assert(a@.subrange(i as int, a_len as int)[0] == a@[i as int]);
            assert(b@.subrange(i as int, b_len as int)[0] == b@[i as int]);
        }
        if fa < fb {
            return true;
        }
        if fa > fb {
            return false;
        }
        proof {
            assert(a@.subrange(i as int, a_len as int).subrange(
                1,
                a@.subrange(i as int, a_len as int).len() as int,
            ) =~= a@.subrange(i + 1, a_len as int));
            assert(b@.subrange(i as int, b_len as int).subrange(
                1,
                b@.subrange(i as int, b_len as int).len() as int,
            ) =~= b@.subrange(i + 1, b_len as int));
        }
        i = i + 1;
    }
}

/// Tests two names for case-insensitive equality (ASCII fold).
pub fn eq_fold(a: &str, b: &str) -> (r: bool)
    ensures
        r == spec_eq_fold(a@, b@),
{
    let a_len = a.unicode_len();
    let b_len = b.unicode_len();
    if a_len != b_len {
        return false;
    }
    let mut i: usize = 0;
    while i < a_len
        invariant
            i <= a_len,
            a_len == a@.len(),
            a_len == b_len,
            b_len == b@.len(),
            forall|j: int| 0 <= j < i ==> spec_fold_char(a@[j]) == spec_fold_char(b@[j]),
        decreases a_len - i,
    {
        let fa = fold_char(a.get_char(i));
        let fb = fold_char(b.get_char(i));
        if fa != fb {
            return false;
        }
        i = i + 1;
    }
    true
}

/// The last index of `c` in `s`, or -1 when `c` does not occur.
pub open spec fn spec_last_index_of(s: Seq<char>, c: char) -> int
    decreases s.len(),
{
    if s.len() == 0 {
        -1
    } else if s[s.len() - 1] == c {
        s.len() - 1
    } else {
        spec_last_index_of(s.subrange(0, s.len() - 1), c)
    }
}

/// What the last index means: bounds, the hit itself, and no later hit.
pub proof fn lemma_last_index_of_props(s: Seq<char>, c: char)
    ensures
        -1 <= spec_last_index_of(s, c) < s.len(),
        spec_last_index_of(s, c) >= 0 ==> s[spec_last_index_of(s, c)] == c,
        forall|j: int| spec_last_index_of(s, c) < j < s.len() ==> s[j] != c,
    decreases s.len(),
{
    if s.len() != 0 && s[s.len() - 1] != c {
        let prefix = s.subrange(0, s.len() - 1);
        lemma_last_index_of_props(prefix, c);
        assert(forall|j: int| 0 <= j < prefix.len() ==> prefix[j] == s[j]);
    }
}

/// A position that is a hit with no later hit is the last index.
pub proof fn lemma_last_index_of_at(s: Seq<char>, c: char, k: int)
    requires
        0 <= k < s.len(),
        s[k] == c,
        forall|j: int| k < j < s.len() ==> s[j] != c,
    ensures
        spec_last_index_of(s, c) == k,
    decreases s.len(),
{
    if k < s.len() - 1 {
        let prefix = s.subrange(0, s.len() - 1);
        lemma_last_index_of_at(prefix, c, k);
    }
}

/// When `c` occurs nowhere, the last index is -1.
pub proof fn lemma_last_index_of_absent(s: Seq<char>, c: char)
    requires
        forall|j: int| 0 <= j < s.len() ==> s[j] != c,
    ensures
        spec_last_index_of(s, c) == -1,
    decreases s.len(),
{
    if s.len() != 0 {
        lemma_last_index_of_absent(s.subrange(0, s.len() - 1), c);
    }
}

/// Finds the last occurrence of `c` in `s`.
pub fn last_index_of(s: &str, c: char) -> (r: Option<usize>)
    ensures
        match r {
            Some(k) => k as int == spec_last_index_of(s@, c),
            None => spec_last_index_of(s@, c) == -1,
        },
{
    let len = s.unicode_len();
    let mut i: usize = len;
    loop
        invariant
            i <= len,
            len == s@.len(),
            forall|j: int| i <= j < len ==> s@[j] != c,
        decreases i,
    {
        if i == 0 {
            proof {
                lemma_last_index_of_absent(s@, c);
            }
            return None;
        }
        i = i - 1;
        if s.get_char(i) == c {
            proof {
                lemma_last_index_of_at(s@, c, i as int);
            }
            return Some(i);
        }
    }
}

} // verus!
