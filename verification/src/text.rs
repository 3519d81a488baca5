//! Byte-string helpers with the meaning that `str::eq_ignore_ascii_case` and
//! `u64::from_str` give them in std.

use vstd::prelude::*;

verus! {

/// ASCII lower-case of a byte; bytes other than `A..=Z` are unchanged.
pub open spec fn ascii_lower(b: u8) -> u8 {
    if 65 <= b <= 90 { (b + 32) as u8 } else { b }
}

/// Two byte strings are equal up to ASCII case.
pub open spec fn spec_eq_ignore_ascii_case(a: Seq<u8>, b: Seq<u8>) -> bool {
    &&& a.len() == b.len()
    &&& forall|i: int| 0 <= i < a.len() ==> #[trigger] ascii_lower(a[i]) == ascii_lower(b[i])
}

/// Compares two byte strings, ignoring ASCII case.
pub fn eq_ignore_ascii_case(a: &[u8], b: &[u8]) -> (r: bool)
    ensures
        r == spec_eq_ignore_ascii_case(a@, b@),
{
    if a.len() != b.len() {
        return false;
    }
    let mut i: usize = 0;
    while i < a.len()
        invariant
            a.len() == b.len(),
            i <= a.len(),
            forall|j: int| 0 <= j < i ==> #[trigger] ascii_lower(a@[j]) == ascii_lower(b@[j]),
        decreases a.len() - i,
    {
        let x = a[i];
        let y = b[i];
        let lx: u8 = if 65 <= x && x <= 90 { x + 32 } else { x };
        let ly: u8 = if 65 <= y && y <= 90 { y + 32 } else { y };
        if lx != ly {
            assert(ascii_lower(a@[i as int]) != ascii_lower(b@[i as int]));
            return false;
        }
        i = i + 1;
    }
    true
}

/// Equality up to ASCII case is transitive.
pub proof fn lemma_eq_ignore_ascii_case_trans(a: Seq<u8>, b: Seq<u8>, c: Seq<u8>)
    requires
        spec_eq_ignore_ascii_case(a, b),
        spec_eq_ignore_ascii_case(b, c),
    ensures
        spec_eq_ignore_ascii_case(a, c),
{
    assert forall|i: int| 0 <= i < a.len() implies #[trigger] ascii_lower(a[i]) == ascii_lower(c[i]) by {
        assert(ascii_lower(a[i]) == ascii_lower(b[i]));
        assert(ascii_lower(b[i]) == ascii_lower(c[i]));
    }
}

/// Equality up to ASCII case is symmetric.
pub proof fn lemma_eq_ignore_ascii_case_sym(a: Seq<u8>, b: Seq<u8>)
    requires
        spec_eq_ignore_ascii_case(a, b),
    ensures
        spec_eq_ignore_ascii_case(b, a),
{
    assert forall|i: int| 0 <= i < b.len() implies #[trigger] ascii_lower(b[i]) == ascii_lower(a[i]) by {
        assert(ascii_lower(a[i]) == ascii_lower(b[i]));
    }
}

/// `b` is an ASCII decimal digit.
pub open spec fn is_digit(b: u8) -> bool {
    48 <= b <= 57
}

/// Every byte of `d` is an ASCII decimal digit.
pub open spec fn all_digits(d: Seq<u8>) -> bool {
    forall|i: int| 0 <= i < d.len() ==> is_digit(#[trigger] d[i])
}

/// The number that a string of decimal digits denotes.
pub open spec fn digits_value(d: Seq<u8>) -> nat
    decreases d.len(),
{
    if d.len() == 0 {
        0
    } else {
        digits_value(d.drop_last()) * 10 + (d.last() - 48) as nat
    }
}

/// The digits that follow an optional leading `+`.
pub open spec fn unsigned_digits(b: Seq<u8>) -> Seq<u8> {
    if b.len() > 0 && b[0] == 43 { b.drop_first() } else { b }
}

/// What `u64::from_str` yields: an optional `+` followed by one or more
/// decimal digits whose value fits in a `u64`; anything else is an error.
pub open spec fn spec_parse_u64(b: Seq<u8>) -> Option<u64> {
    let d = unsigned_digits(b);
    if d.len() > 0 && all_digits(d) && digits_value(d) <= u64::MAX {
        Some(digits_value(d) as u64)
    } else {
        None
    }
}

/// What `NonZeroU64::from_str` yields: a parsed `u64` other than zero.
pub open spec fn spec_parse_nonzero(b: Seq<u8>) -> Option<u64> {
    match spec_parse_u64(b) {
        Some(v) => if v > 0 { Some(v) } else { None },
        None => None,
    }
}

/// The value of a digit string never falls when more digits follow.
pub proof fn lemma_digits_value_prefix(d: Seq<u8>, j: int, k: int)
    requires
        0 <= j <= k <= d.len(),
        all_digits(d),
    ensures
        digits_value(d.take(j)) <= digits_value(d.take(k)),
    decreases k - j,
{
    if j < k {
        lemma_digits_value_prefix(d, j, k - 1);
        assert(d.take(k).drop_last() =~= d.take(k - 1));
        assert(is_digit(d[k - 1]));
    }
}

/// Parses a decimal `u64` as `u64::from_str` does.
pub fn parse_u64(b: &[u8]) -> (r: Option<u64>)
    ensures
        r == spec_parse_u64(b@),
{
    let start: usize = if b.len() > 0 && b[0] == 43 { 1 } else { 0 };
    let ghost d = unsigned_digits(b@);
    assert(d =~= b@.skip(start as int));
    if start == b.len() {
        return None;
    }
    let mut acc: u64 = 0;
    let mut i: usize = start;
    while i < b.len()
        invariant
            start <= i <= b.len(),
            start < b.len(),
            d == unsigned_digits(b@),
            d =~= b@.skip(start as int),
            all_digits(d.take(i - start)),
            acc as nat == digits_value(d.take(i - start)),
        decreases b.len() - i,
    {
        let c = b[i];
        let ghost k = (i - start) as int;
        if c < 48 || c > 57 {
            assert(!is_digit(d[k]));
            return None;
        }
        let digit: u64 = (c - 48) as u64;
        assert(d.take(k + 1).drop_last() =~= d.take(k));
        assert(d.take(k + 1).last() == c);
        if acc > (u64::MAX - digit) / 10 {
            proof {
                assert(acc * 10 + digit > u64::MAX) by (nonlinear_arith)
                    requires
                        acc > (u64::MAX - digit) / 10,
                        digit <= 9,
                ;
                if all_digits(d) {
                    lemma_digits_value_prefix(d, k + 1, d.len() as int);
                    assert(d.take(d.len() as int) =~= d);
                }
            }
            return None;
        }
        assert(acc * 10 + digit <= u64::MAX) by (nonlinear_arith)
            requires
                acc <= (u64::MAX - digit) / 10,
                digit <= 9,
        ;
        acc = acc * 10 + digit;
        i = i + 1;
    }
    assert(d.take(i - start) =~= d);
    Some(acc)
}

} // verus!
