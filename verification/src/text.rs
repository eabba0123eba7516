//! Character-level string utilities used by the resolver and the
//! compatibility table: equality, prefix test, and numeric parsing.

use vstd::prelude::*;
use vstd::string::StrSliceExecFns;

verus! {

/// Exact equality of two string slices, decided character by character.
pub fn str_eq(a: &str, b: &str) -> (r: bool)
    ensures
        r == (a@ == b@),
{
    let alen = a.unicode_len();
    let blen = b.unicode_len();
    if alen != blen {
        return false;
    }
    let mut i: usize = 0;
    while i < alen
        invariant
            alen == a@.len(),
            alen == b@.len(),
            0 <= i <= alen,
            forall|j: int| 0 <= j < i ==> a@[j] == b@[j],
        decreases alen - i,
    {
        if a.get_char(i) != b.get_char(i) {
            return false;
        }
        i = i + 1;
    }
    proof {
        assert(a@ =~= b@);
    }
    true
}

/// The string begins with the given prefix.
pub open spec fn starts_with(s: Seq<char>, prefix: Seq<char>) -> bool {
    prefix.len() <= s.len() && s.take(prefix.len() as int) == prefix
}

/// Prefix test, decided character by character.
pub fn str_starts_with(s: &str, prefix: &str) -> (r: bool)
    ensures
        r == starts_with(s@, prefix@),
{
    let n = s.unicode_len();
    let m = prefix.unicode_len();
    if m > n {
        return false;
    }
    let mut i: usize = 0;
    while i < m
        invariant
            n == s@.len(),
            m == prefix@.len(),
            m <= n,
            0 <= i <= m,
            forall|j: int| 0 <= j < i ==> s@[j] == prefix@[j],
        decreases m - i,
    {
        if s.get_char(i) != prefix.get_char(i) {
            proof {
                assert(s@.take(m as int)[i as int] == s@[i as int]);
            }
            return false;
        }
        i = i + 1;
    }
    proof {
        assert(s@.take(m as int) =~= prefix@);
    }
    true
}

/// A decimal digit.
pub open spec fn is_digit(c: char) -> bool {
    '0' <= c && c <= '9'
}

/// The value of one decimal digit.
pub open spec fn digit_val(c: char) -> int {
    c as int - '0' as int
}

/// Every character of the string is a decimal digit.
pub open spec fn all_digits(s: Seq<char>) -> bool {
    forall|i: int| 0 <= i < s.len() ==> is_digit(#[trigger] s[i])
}

/// The numeric value of a digit string, most significant digit first.
pub open spec fn digits_val(s: Seq<char>) -> int
    decreases s.len(),
{
    if s.len() == 0 {
        0
    } else {
        digits_val(s.drop_last()) * 10 + digit_val(s.last())
    }
}

/// Ten to the given power.
pub open spec fn pow10(n: nat) -> int
    decreases n,
{
    if n == 0 {
        1
    } else {
        10 * pow10((n - 1) as nat)
    }
}

/// What `parse_u64` returns: the numeric value of a non-empty digit string.
/// At most nineteen digits are accepted, so the value always fits in a
/// machine word; anything else, the empty string and any non-digit included,
/// parses to nothing.
pub open spec fn parse_u64_spec(s: Seq<char>) -> Option<u64> {
    if 1 <= s.len() <= 19 && all_digits(s) {
        Some(digits_val(s) as u64)
    } else {
        None
    }
}

proof fn lemma_digits_val_bounds(s: Seq<char>)
    requires
        all_digits(s),
    ensures
        0 <= digits_val(s) < pow10(s.len()),
    decreases s.len(),
{
    if s.len() > 0 {
        assert(all_digits(s.drop_last())) by {
            assert(forall|i: int| 0 <= i < s.len() - 1 ==> s.drop_last()[i] == s[i]);
        }
        lemma_digits_val_bounds(s.drop_last());
        assert(is_digit(s.last()));
        assert(0 <= digit_val(s.last()) <= 9);
    }
}

proof fn lemma_pow10_pos(n: nat)
    ensures
        pow10(n) > 0,
    decreases n,
{
    if n > 0 {
        lemma_pow10_pos((n - 1) as nat);
    }
}

proof fn lemma_pow10_increases(a: nat, b: nat)
    requires
        a <= b,
    ensures
        0 < pow10(a) <= pow10(b),
    decreases b,
{
    lemma_pow10_pos(a);
    if a < b {
        lemma_pow10_increases(a, (b - 1) as nat);
    }
}

/// Parse a non-empty decimal digit string of at most nineteen digits into its
/// numeric value; anything else parses to nothing.
pub fn parse_u64(s: &str) -> (r: Option<u64>)
    ensures
        r == parse_u64_spec(s@),
{
    let n = s.unicode_len();
    if n == 0 || n > 19 {
        return None;
    }
    let mut val: u64 = 0;
    let mut i: usize = 0;
    proof {
        assert(s@.take(0) =~= Seq::<char>::empty());
    }
    while i < n
        invariant
            1 <= n <= 19,
            n == s@.len(),
            0 <= i <= n,
            all_digits(s@.take(i as int)),
            val == digits_val(s@.take(i as int)),
        decreases n - i,
    {
        let c = s.get_char(i);
        if c < '0' || c > '9' {
            proof {
                assert(!is_digit(s@[i as int]));
                assert(!all_digits(s@));
            }
            return None;
        }
        let d = (c as u32 - '0' as u32) as u64;
        proof {
            lemma_digits_val_bounds(s@.take(i as int));
            lemma_pow10_increases(i as nat, 18);
            reveal_with_fuel(pow10, 20);
            assert(pow10(18) == 1000000000000000000);
            assert(val * 10 + d < pow10((i + 1) as nat));
            assert(s@.take(i + 1).drop_last() =~= s@.take(i as int));
            assert(s@.take(i + 1).last() == s@[i as int]);
        }
        val = val * 10 + d;
        i = i + 1;
    }
    proof {
        assert(s@.take(n as int) =~= s@);
    }
    Some(val)
}

/// The string splits at position `i` into a dot between two digit strings
/// that both parse: the shape of a two-part version number.
pub open spec fn version_split_at(s: Seq<char>, i: int) -> bool {
    &&& 0 <= i < s.len()
    &&& s[i] == '.'
    &&& parse_u64_spec(s.take(i)) is Some
    &&& parse_u64_spec(s.skip(i + 1)) is Some
}

/// A version string read as a (major, minor) pair: either a bare number (the
/// minor part is zero), or two numbers joined by a single dot. Anything else,
/// a second dot or a non-numeric part included, is no version number.
pub open spec fn version_num(s: Seq<char>) -> Option<(u64, u64)> {
    if parse_u64_spec(s) is Some {
        Some((parse_u64_spec(s)->Some_0, 0u64))
    } else if exists|i: int| version_split_at(s, i) {
        let i = choose|i: int| version_split_at(s, i);
        Some((parse_u64_spec(s.take(i))->Some_0, parse_u64_spec(s.skip(i + 1))->Some_0))
    } else {
        None
    }
}

/// A split position is unique: neither part around the dot may hold a dot.
proof fn lemma_version_split_unique(s: Seq<char>, i: int, j: int)
    requires
        version_split_at(s, i),
        version_split_at(s, j),
    ensures
        i == j,
{
    if i < j {
        assert(s.take(j)[i] == '.');
        assert(!is_digit('.'));
        assert(!all_digits(s.take(j)));
    }
    if j < i {
        assert(s.take(i)[j] == '.');
        assert(!is_digit('.'));
        assert(!all_digits(s.take(i)));
    }
}

fn find_dot(s: &str) -> (r: Option<usize>)
    ensures
        match r {
            Some(i) => 0 <= i < s@.len() && s@[i as int] == '.' && (forall|j: int|
                0 <= j < i ==> s@[j] != '.'),
            None => forall|j: int| 0 <= j < s@.len() ==> s@[j] != '.',
        },
{
    let n = s.unicode_len();
    let mut i: usize = 0;
    while i < n
        invariant
            n == s@.len(),
            0 <= i <= n,
            forall|j: int| 0 <= j < i ==> s@[j] != '.',
        decreases n - i,
    {
        if s.get_char(i) == '.' {
            return Some(i);
        }
        i = i + 1;
    }
    None
}

/// Read a version string as a (major, minor) pair: a bare number, or two
/// numbers joined by a single dot.
pub fn parse_version(s: &str) -> (r: Option<(u64, u64)>)
    ensures
        r == version_num(s@),
{
    match find_dot(s) {
        None => {
            proof {
                assert forall|i: int| !version_split_at(s@, i) by {
                    if 0 <= i < s@.len() {
                        assert(s@[i] != '.');
                    }
                }
            }
            match parse_u64(s) {
                Some(v) => Some((v, 0)),
                None => None,
            }
        },
        Some(i) => {
            proof {
                assert(!is_digit(s@[i as int]));
                assert(!all_digits(s@));
                assert(parse_u64_spec(s@) is None);
            }
            let n = s.unicode_len();
            let head = s.substring_char(0, i);
            let tail = s.substring_char(i + 1, n);
            proof {
                assert(head@ == s@.take(i as int));
                assert(tail@ == s@.skip(i as int + 1));
            }
            let head_num = parse_u64(head);
            let tail_num = parse_u64(tail);
            match (head_num, tail_num) {
                (Some(a), Some(b)) => {
                    proof {
                        assert(version_split_at(s@, i as int));
                        let w = choose|w: int| version_split_at(s@, w);
                        lemma_version_split_unique(s@, w, i as int);
                    }
                    Some((a, b))
                },
                _ => {
                    proof {
                        assert forall|j: int| !version_split_at(s@, j) by {
                            if 0 <= j < s@.len() && s@[j] == '.' {
                                if j < i {
                                    assert(s@[j] != '.');
                                } else if j == i {
                                    assert(parse_u64_spec(s@.take(j)) is None
                                        || parse_u64_spec(s@.skip(j + 1)) is None);
                                } else {
                                    assert(s@.take(j)[i as int] == '.');
                                    assert(!all_digits(s@.take(j)));
                                    assert(parse_u64_spec(s@.take(j)) is None);
                                }
                            }
                        }
                    }
                    None
                },
            }
        },
    }
}

} // verus!
