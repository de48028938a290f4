use vstd::prelude::*;

verus! {

// ---------------------------------------------------------------------------
// Character classes and decimal digits
// ---------------------------------------------------------------------------

/// `c` is one of the ten ASCII decimal digits.
pub open spec fn is_digit_char(c: char) -> bool {
    48 <= c as u32 && c as u32 <= 57
}

/// The digit character for a value in `0 ..= 9`.
pub open spec fn spec_digit(n: int) -> char {
    if n == 0 {
        '0'
    } else if n == 1 {
        '1'
    } else if n == 2 {
        '2'
    } else if n == 3 {
        '3'
    } else if n == 4 {
        '4'
    } else if n == 5 {
        '5'
    } else if n == 6 {
        '6'
    } else if n == 7 {
        '7'
    } else if n == 8 {
        '8'
    } else {
        '9'
    }
}

/// The numeric value of a digit character.
pub open spec fn spec_digit_val(c: char) -> int {
    c as u32 - 48
}

/// Every character of `s` is a decimal digit.
pub open spec fn all_digits(s: Seq<char>) -> bool {
    forall|i: int| 0 <= i < s.len() ==> is_digit_char(#[trigger] s[i])
}

/// The canonical decimal rendering of an unsigned value: no sign, no
/// leading zeros (except for the single digit `0` itself).
pub open spec fn spec_u64_digits(n: nat) -> Seq<char>
    decreases n,
{
    if n < 10 {
        seq![spec_digit(n as int)]
    } else {
        spec_u64_digits(n / 10).push(spec_digit((n % 10) as int))
    }
}

/// The value denoted by a sequence of digit characters (most significant
/// digit first).
pub open spec fn digits_val(s: Seq<char>) -> int
    decreases s.len(),
{
    if s.len() == 0 {
        0
    } else {
        digits_val(s.drop_last()) * 10 + spec_digit_val(s.last())
    }
}

/// The canonical decimal rendering of a signed value: a leading `-` for
/// negative values, then the digits of the magnitude.
pub open spec fn spec_i64_digits(v: int) -> Seq<char> {
    if v < 0 {
        seq!['-'] + spec_u64_digits((-v) as nat)
    } else {
        spec_u64_digits(v as nat)
    }
}

/// What parsing a decimal `u64` yields: defined exactly when the text is a
/// nonempty digit string whose value fits in a `u64`.
pub open spec fn spec_parse_u64(s: Seq<char>) -> Option<u64> {
    if s.len() >= 1 && all_digits(s) && digits_val(s) <= u64::MAX {
        Some(digits_val(s) as u64)
    } else {
        None
    }
}

/// What parsing a decimal `i64` yields: an optional leading `-`, then a
/// nonempty digit string whose value fits in an `i64`.
pub open spec fn spec_parse_i64(s: Seq<char>) -> Option<i64> {
    if s.len() >= 1 && s[0] == '-' {
        let t = s.skip(1);
        if t.len() >= 1 && all_digits(t) && digits_val(t) <= 0x8000000000000000 {
            Some((-digits_val(t)) as i64)
        } else {
            None
        }
    } else if s.len() >= 1 && all_digits(s) && digits_val(s) <= i64::MAX {
        Some(digits_val(s) as i64)
    } else {
        None
    }
}

/// The code points of the ten digit characters.
pub proof fn lemma_digit_char_vals()
    ensures
        '0' as u32 == 48,
        '1' as u32 == 49,
        '2' as u32 == 50,
        '3' as u32 == 51,
        '4' as u32 == 52,
        '5' as u32 == 53,
        '6' as u32 == 54,
        '7' as u32 == 55,
        '8' as u32 == 56,
        '9' as u32 == 57,
        '-' as u32 == 45,
        '"' as u32 == 34,
{
}

pub proof fn lemma_digits_val_nonneg(s: Seq<char>)
    requires
        all_digits(s),
    ensures
        digits_val(s) >= 0,
    decreases s.len(),
{
    if s.len() > 0 {
        assert(all_digits(s.drop_last())) by {
            assert(forall|i: int|
                0 <= i < s.drop_last().len() ==> #[trigger] s.drop_last()[i] == s[i]);
        }
        lemma_digits_val_nonneg(s.drop_last());
        assert(is_digit_char(s.last()));
    }
}

/// The value of a digit-string prefix never exceeds the value of the whole.
pub proof fn lemma_digits_val_prefix(s: Seq<char>, i: int)
    requires
        all_digits(s),
        0 <= i <= s.len(),
    ensures
        digits_val(s.take(i)) <= digits_val(s),
    decreases s.len() - i,
{
    if i == s.len() {
        assert(s.take(i) =~= s);
    } else {
        lemma_digits_val_prefix(s, i + 1);
        assert(s.take(i + 1).drop_last() =~= s.take(i));
        assert(s.take(i + 1).last() == s[i]);
        assert(all_digits(s.take(i))) by {
            assert(forall|k: int| 0 <= k < i ==> #[trigger] s.take(i)[k] == s[k]);
        }
        lemma_digits_val_nonneg(s.take(i));
        assert(is_digit_char(s[i]));
        assert(digits_val(s.take(i + 1)) == digits_val(s.take(i)) * 10 + spec_digit_val(s[i]));
        assert(digits_val(s.take(i)) * 10 >= digits_val(s.take(i))) by (nonlinear_arith)
            requires digits_val(s.take(i)) >= 0;
    }
}

/// Rendering an unsigned value and reading the digits back yields the value.
pub proof fn lemma_u64_digits_roundtrip(n: nat)
    ensures
        spec_u64_digits(n).len() >= 1,
        all_digits(spec_u64_digits(n)),
        digits_val(spec_u64_digits(n)) == n,
    decreases n,
{
    if n < 10 {
        let s = spec_u64_digits(n);
        assert(s =~= seq![spec_digit(n as int)]);
        assert(s.drop_last() =~= Seq::<char>::empty());
        assert(s.last() == spec_digit(n as int));
        lemma_digit_char_vals();
        assert(is_digit_char(spec_digit(n as int)));
        assert(spec_digit_val(spec_digit(n as int)) == n);
        assert(digits_val(s) == digits_val(s.drop_last()) * 10 + spec_digit_val(s.last()));
        assert(digits_val(Seq::<char>::empty()) == 0);
    } else {
        lemma_u64_digits_roundtrip(n / 10);
        let p = spec_u64_digits(n / 10);
        let d = spec_digit((n % 10) as int);
        let s = spec_u64_digits(n);
        assert(s == p.push(d));
        assert(s.drop_last() =~= p);
        assert(s.last() == d);
        lemma_digit_char_vals();
        assert(is_digit_char(d));
        assert(spec_digit_val(d) == n % 10);
        assert(forall|i: int| 0 <= i < s.len() ==> is_digit_char(#[trigger] s[i])) by {
            assert(forall|i: int| 0 <= i < p.len() ==> #[trigger] s[i] == p[i]);
            assert(s[p.len() as int] == d);
        }
        assert(digits_val(s) == digits_val(p) * 10 + spec_digit_val(d));
        assert(digits_val(p) * 10 + n % 10 == n) by (nonlinear_arith)
            requires digits_val(p) == n / 10, n >= 0;
    }
}

/// A digit string never starts with the minus sign.
pub proof fn lemma_digits_not_minus(s: Seq<char>)
    requires
        all_digits(s),
        s.len() >= 1,
    ensures
        s[0] != '-',
{
    lemma_digit_char_vals();
    assert(is_digit_char(s[0]));
}

/// Rendering a signed value and parsing it back yields the value.
pub proof fn lemma_i64_digits_roundtrip(v: i64)
    ensures
        spec_parse_i64(spec_i64_digits(v as int)) == Some(v),
{
    if v < 0 {
        let mag = (-(v as int)) as nat;
        lemma_u64_digits_roundtrip(mag);
        let s = spec_i64_digits(v as int);
        assert(s == seq!['-'] + spec_u64_digits(mag));
        assert(s[0] == '-');
        assert(s.skip(1) =~= spec_u64_digits(mag));
        assert(mag <= 0x8000000000000000);
        assert((-digits_val(s.skip(1))) as i64 == v);
    } else {
        let mag = v as nat;
        lemma_u64_digits_roundtrip(mag);
        let s = spec_i64_digits(v as int);
        assert(s == spec_u64_digits(mag));
        lemma_digits_not_minus(s);
        assert(digits_val(s) <= i64::MAX);
    }
}

// ---------------------------------------------------------------------------
// Executable digit rendering and parsing
// ---------------------------------------------------------------------------

/// The one-character string for a digit value.
fn digit_str(d: u64) -> (s: &'static str)
    requires
        d < 10,
    ensures
        s@ =~= seq![spec_digit(d as int)],
{
    proof {
        reveal_strlit("0");
        reveal_strlit("1");
        reveal_strlit("2");
        reveal_strlit("3");
        reveal_strlit("4");
        reveal_strlit("5");
        reveal_strlit("6");
        reveal_strlit("7");
        reveal_strlit("8");
        reveal_strlit("9");
    }
    if d == 0 {
        "0"
    } else if d == 1 {
        "1"
    } else if d == 2 {
        "2"
    } else if d == 3 {
        "3"
    } else if d == 4 {
        "4"
    } else if d == 5 {
        "5"
    } else if d == 6 {
        "6"
    } else if d == 7 {
        "7"
    } else if d == 8 {
        "8"
    } else {
        "9"
    }
}

/// Renders `n` in canonical decimal.
pub fn u64_to_string(n: u64) -> (s: String)
    ensures
        s@ == spec_u64_digits(n as nat),
    decreases n,
{
    if n < 10 {
        let s = digit_str(n).to_owned();
        proof {
            assert(s@ =~= spec_u64_digits(n as nat));
        }
        s
    } else {
        let mut s = u64_to_string(n / 10);
        s.append(digit_str(n % 10));
        proof {
            assert(s@ =~= spec_u64_digits(n as nat));
        }
        s
    }
}

/// Renders `v` in canonical decimal, with a leading `-` when negative.
pub fn i64_to_string(v: i64) -> (s: String)
    ensures
        s@ == spec_i64_digits(v as int),
{
    if v >= 0 {
        u64_to_string(v as u64)
    } else {
        // |v| computed without overflowing: -(v + 1) fits in i64 for v < 0.
        let mag: u64 = ((-(v + 1)) as u64) + 1;
        proof {
            assert(mag == -(v as int));
        }
        let mut s = "-".to_owned();
        proof {
            reveal_strlit("-");
        }
        s.append(u64_to_string(mag).as_str());
        proof {
            assert(s@ =~= spec_i64_digits(v as int));
        }
        s
    }
}

/// Parses a nonempty all-digit string as a `u64`, rejecting overflow.
pub fn parse_u64(s: &str) -> (r: Option<u64>)
    ensures
        r == spec_parse_u64(s@),
{
    let n = s.unicode_len();
    if n == 0 {
        return None;
    }
    let mut acc: u64 = 0;
    let mut i: usize = 0;
    while i < n
        invariant
            i <= n,
            n == s@.len(),
            all_digits(s@.take(i as int)),
            acc == digits_val(s@.take(i as int)),
        decreases n - i,
    {
        let c = s.get_char(i);
        let u = c as u32;
        if u < 48 || u > 57 {
            proof {
                assert(!is_digit_char(s@[i as int]));
            }
            return None;
        }
        let d = (u - 48) as u64;
        proof {
            assert(s@.take(i as int + 1).drop_last() =~= s@.take(i as int));
            assert(s@.take(i as int + 1).last() == s@[i as int]);
            assert(all_digits(s@.take(i as int + 1))) by {
                assert(forall|k: int|
                    0 <= k < i ==> #[trigger] s@.take(i as int + 1)[k] == s@.take(i as int)[k]);
                assert(s@.take(i as int + 1)[i as int] == s@[i as int]);
            }
        }
        // acc * 10 + d overflows exactly when acc > u64::MAX / 10, or
        // acc == u64::MAX / 10 and d > u64::MAX % 10.
        if acc > 1844674407370955161 || (acc == 1844674407370955161 && d > 5) {
            proof {
                assert(digits_val(s@.take(i as int + 1)) == acc * 10 + d);
                if all_digits(s@) && digits_val(s@) <= u64::MAX {
                    lemma_digits_val_prefix(s@, i as int + 1);
                    assert(digits_val(s@.take(i as int + 1)) <= u64::MAX);
                    assert(false);
                }
            }
            return None;
        }
        acc = acc * 10 + d;
        i = i + 1;
    }
    proof {
        assert(s@.take(n as int) =~= s@);
    }
    Some(acc)
}

/// Parses an optionally `-`-signed nonempty digit string as an `i64`.
pub fn parse_i64(s: &str) -> (r: Option<i64>)
    ensures
        r == spec_parse_i64(s@),
{
    let n = s.unicode_len();
    if n == 0 {
        return None;
    }
    if s.get_char(0) == '-' {
        let rest = s.substring_char(1, n);
        proof {
            assert(rest@ =~= s@.skip(1));
        }
        match parse_u64(rest) {
            Some(mag) => {
                proof {
                    lemma_digits_val_nonneg(rest@);
                    assert(mag == digits_val(s@.skip(1)));
                }
                if mag <= 9223372036854775807 {
                    Some(-(mag as i64))
                } else if mag == 9223372036854775808 {
                    Some(i64::MIN)
                } else {
                    None
                }
            },
            None => {
                proof {
                    // Either the magnitude is not a digit string, or its value
                    // exceeds u64::MAX and so certainly exceeds 2^63.
                    if s@.skip(1).len() >= 1 && all_digits(s@.skip(1))
                        && digits_val(s@.skip(1)) <= 0x8000000000000000 {
                        assert(spec_parse_u64(rest@) is Some);
                    }
                }
                None
            },
        }
    } else {
        match parse_u64(s) {
            Some(v) => {
                proof {
                    lemma_digits_val_nonneg(s@);
                    assert(v == digits_val(s@));
                }
                if v <= 9223372036854775807 {
                    Some(v as i64)
                } else {
                    None
                }
            },
            None => None,
        }
    }
}

// ---------------------------------------------------------------------------
// Substring search and string equality
// ---------------------------------------------------------------------------

/// `pat` occurs in `text` starting at position `i`.
pub open spec fn occurs_at(text: Seq<char>, pat: Seq<char>, i: int) -> bool {
    0 <= i && i + pat.len() <= text.len() && text.subrange(i, i + pat.len()) == pat
}

/// `pat` occurs somewhere in `text` as a contiguous subsequence.
pub open spec fn contains_seq(text: Seq<char>, pat: Seq<char>) -> bool {
    exists|i: int| occurs_at(text, pat, i)
}

/// Decides whether `pat` occurs in `text` as a contiguous substring
/// (character-wise; the empty pattern occurs in every text).
pub fn str_contains(text: &str, pat: &str) -> (r: bool)
    ensures
        r == contains_seq(text@, pat@),
{
    let n = text.unicode_len();
    let m = pat.unicode_len();
    if m > n {
        proof {
            assert(forall|i: int| !occurs_at(text@, pat@, i));
        }
        return false;
    }
    if m == 0 {
        proof {
            assert(text@.subrange(0, 0) =~= pat@);
            assert(occurs_at(text@, pat@, 0));
        }
        return true;
    }
    let mut i: usize = 0;
    while i <= n - m
        invariant
            1 <= m <= n,
            i <= n - m + 1,
            n == text@.len(),
            m == pat@.len(),
            forall|k: int| 0 <= k < i ==> !occurs_at(text@, pat@, k),
        decreases n - m + 1 - i,
    {
        let mut j: usize = 0;
        let mut matches_here = true;
        while matches_here && j < m
            invariant
                i + m <= n,
                n == text@.len(),
                m == pat@.len(),
                j <= m,
                matches_here ==> forall|l: int| 0 <= l < j ==> text@[i + l] == pat@[l],
                !matches_here ==> !occurs_at(text@, pat@, i as int),
            decreases m - j + (if matches_here { 1int } else { 0int }),
        {
            if text.get_char(i + j) != pat.get_char(j) {
                proof {
                    if occurs_at(text@, pat@, i as int) {
                        assert(text@.subrange(i as int, i + m as int)[j as int] == pat@[j as int]);
                    }
                }
                matches_here = false;
            } else {
                j = j + 1;
            }
        }
        if matches_here {
            proof {
                assert(text@.subrange(i as int, i + m as int) =~= pat@);
                assert(occurs_at(text@, pat@, i as int));
            }
            return true;
        }
        i = i + 1;
    }
    proof {
        assert forall|k: int| !occurs_at(text@, pat@, k) by {
            if 0 <= k < i {
            } else if k >= 0 {
                assert(k + pat@.len() > text@.len());
            }
        }
    }
    false
}

/// Decides character-wise equality of two strings.
pub fn str_eq(a: &str, b: &str) -> (r: bool)
    ensures
        r == (a@ == b@),
{
    let n = a.unicode_len();
    if n != b.unicode_len() {
        return false;
    }
    let mut i: usize = 0;
    while i < n
        invariant
            i <= n,
            n == a@.len(),
            n == b@.len(),
            forall|k: int| 0 <= k < i ==> a@[k] == b@[k],
        decreases n - i,
    {
        if a.get_char(i) != b.get_char(i) {
            return false;
        }
        i = i + 1;
    }
    proof {
        assert(a@ =~= b@);
    }
    true
}

} // verus!
