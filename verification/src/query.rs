//! The size a client asks for in the query string, `bytes=<n>`.
//!
//! The query is split into pairs at every `&`. Three readings of the pairs
//! are used by the different front ends:
//! - the servers take the first pair whose key is `bytes` in any ASCII case
//!   and whose value (all after the first `=`) parses as a non-zero `u64`;
//! - the tespeed worker does the same, but a value ends at the next `=`, and
//!   a pair without `=` has no value;
//! - the cf-speedtest worker keeps, as a map does, the last pair whose key is
//!   exactly `bytes`, and parses its value only.

use vstd::prelude::*;
use vstd::string::StringSliceAdditionalSpecFns;
use crate::search::{find_byte, first_index, free_of, lemma_first_index, lemma_first_index_free,
    lemma_first_index_join};
use crate::text::{eq_ignore_ascii_case, parse_u64, spec_eq_ignore_ascii_case, spec_parse_nonzero};

verus! {

/// The key that names the requested size.
pub open spec fn bytes_key() -> Seq<u8> {
    seq![98u8, 121u8, 116u8, 101u8, 115u8]
}

/// The pair separator `&`.
pub open spec fn amp() -> u8 {
    38
}

/// The key/value separator `=`.
pub open spec fn eq_sign() -> u8 {
    61
}

/// A pair split at its first `=`; without `=` the value is empty.
pub open spec fn split_pair(p: Seq<u8>) -> (Seq<u8>, Seq<u8>) {
    match first_index(p, eq_sign()) {
        Some(i) => (p.take(i as int), p.skip(i as int + 1)),
        None => (p, Seq::empty()),
    }
}

/// The size a single pair asks for, as the servers read it.
pub open spec fn spec_pair_size(p: Seq<u8>) -> Option<u64> {
    let (k, v) = split_pair(p);
    if spec_eq_ignore_ascii_case(k, bytes_key()) {
        spec_parse_nonzero(v)
    } else {
        None
    }
}

/// The key of a pair and its value: the text between the first `=` and the
/// next `=` or the end; `None` when the pair holds no `=`.
pub open spec fn split_pair_strict(p: Seq<u8>) -> (Seq<u8>, Option<Seq<u8>>) {
    match first_index(p, eq_sign()) {
        Some(i) => {
            let rest = p.skip(i as int + 1);
            let v = match first_index(rest, eq_sign()) {
                Some(j) => rest.take(j as int),
                None => rest,
            };
            (p.take(i as int), Some(v))
        },
        None => (p, None),
    }
}

/// The size a single pair asks for, as the tespeed worker reads it.
pub open spec fn spec_strict_pair_size(p: Seq<u8>) -> Option<u64> {
    let (k, v) = split_pair_strict(p);
    if spec_eq_ignore_ascii_case(k, bytes_key()) {
        match v {
            Some(v) => spec_parse_nonzero(v),
            None => None,
        }
    } else {
        None
    }
}

/// The first pair of `q`, and what follows its `&` if there is one.
pub open spec fn first_pair(q: Seq<u8>) -> (Seq<u8>, Option<Seq<u8>>) {
    match first_index(q, amp()) {
        Some(i) => (q.take(i as int), Some(q.skip(i as int + 1))),
        None => (q, None),
    }
}

/// The rest of the query after the first pair is shorter than the query.
pub proof fn lemma_first_pair_shorter(q: Seq<u8>)
    ensures
        first_pair(q).1 matches Some(r) ==> r.len() < q.len(),
{
    lemma_first_index(q, amp());
}

/// The size asked for in the query, as the servers read it: the first pair
/// that names a valid size.
pub open spec fn spec_query_size(q: Seq<u8>) -> Option<u64>
    decreases q.len(),
{
    let (p, rest) = first_pair(q);
    match spec_pair_size(p) {
        Some(v) => Some(v),
        None => match rest {
            Some(r) => {
                proof {
                    lemma_first_pair_shorter(q);
                }
                spec_query_size(r)
            },
            None => None,
        },
    }
}

/// The size asked for in the query, as the tespeed worker reads it.
pub open spec fn spec_strict_query_size(q: Seq<u8>) -> Option<u64>
    decreases q.len(),
{
    let (p, rest) = first_pair(q);
    match spec_strict_pair_size(p) {
        Some(v) => Some(v),
        None => match rest {
            Some(r) => {
                proof {
                    lemma_first_pair_shorter(q);
                }
                spec_strict_query_size(r)
            },
            None => None,
        },
    }
}

/// The value of the last pair whose key is exactly `bytes`: `None` when no
/// such pair exists, `Some(None)` when that pair holds no `=`.
pub open spec fn spec_last_bytes_entry(q: Seq<u8>) -> Option<Option<Seq<u8>>>
    decreases q.len(),
{
    let (p, rest) = first_pair(q);
    let here = {
        let (k, v) = split_pair_strict(p);
        if k == bytes_key() { Some(v) } else { None }
    };
    match rest {
        Some(r) => {
            proof {
                lemma_first_pair_shorter(q);
            }
            match spec_last_bytes_entry(r) {
                Some(later) => Some(later),
                None => here,
            }
        },
        None => here,
    }
}

/// The size asked for in the query, as the cf-speedtest worker reads it.
pub open spec fn spec_keyed_query_size(q: Seq<u8>) -> Option<u64> {
    match spec_last_bytes_entry(q) {
        Some(Some(v)) => spec_parse_nonzero(v),
        _ => None,
    }
}

/// Splits `s` at its first `c`: the part before, and the part after if `c` occurs.
fn split_at_byte(s: &[u8], c: u8) -> (r: (&[u8], Option<&[u8]>))
    ensures
        match first_index(s@, c) {
            Some(i) => {
                &&& r.0@ == s@.take(i as int)
                &&& r.1 matches Some(rest) && rest@ == s@.skip(i as int + 1)
            },
            None => r.0@ == s@ && r.1 is None,
        },
{
    proof {
        lemma_first_index(s@, c);
    }
    match find_byte(c, s) {
        Some(i) => {
            assert(i < s.len());
            let before = &s[0..i];
            let after = &s[i + 1..s.len()];
            assert(before@ =~= s@.take(i as int));
            assert(after@ =~= s@.skip(i as int + 1));
            (before, Some(after))
        },
        None => (s, None),
    }
}

/// Parses a non-zero `u64` as `NonZeroU64::from_str` does.
pub fn parse_nonzero(b: &[u8]) -> (r: Option<u64>)
    ensures
        r == spec_parse_nonzero(b@),
{
    match parse_u64(b) {
        Some(v) => if v > 0 { Some(v) } else { None },
        None => None,
    }
}

/// Whether `k` is the key `bytes`, in any ASCII case.
fn is_bytes_key(k: &[u8]) -> (r: bool)
    ensures
        r == spec_eq_ignore_ascii_case(k@, bytes_key()),
{
    let key: [u8; 5] = [98u8, 121u8, 116u8, 101u8, 115u8];
    assert(key@ =~= bytes_key());
    eq_ignore_ascii_case(k, &key)
}

/// Whether `k` is exactly the key `bytes`.
fn is_exact_bytes_key(k: &[u8]) -> (r: bool)
    ensures
        r == (k@ == bytes_key()),
{
    if k.len() != 5 {
        return false;
    }
    let r = k[0] == 98 && k[1] == 121 && k[2] == 116 && k[3] == 101 && k[4] == 115;
    if r {
        assert(k@ =~= bytes_key());
    }
    r
}

/// The size one pair asks for, as the servers read it.
pub fn pair_size(p: &[u8]) -> (r: Option<u64>)
    ensures
        r == spec_pair_size(p@),
{
    let (k, v) = split_at_byte(p, 61);
    match v {
        Some(v) => if is_bytes_key(k) {
            parse_nonzero(v)
        } else {
            None
        },
        // An empty value never parses.
        None => None,
    }
}

/// The size one pair asks for, as the tespeed worker reads it.
pub fn strict_pair_size(p: &[u8]) -> (r: Option<u64>)
    ensures
        r == spec_strict_pair_size(p@),
{
    let (k, v) = split_at_byte(p, 61);
    match v {
        Some(rest) => {
            let (v, _) = split_at_byte(rest, 61);
            if is_bytes_key(k) {
                parse_nonzero(v)
            } else {
                None
            }
        },
        None => None,
    }
}

/// The size asked for in the query string, as the servers read it: the first
/// pair whose key is `bytes` (in any ASCII case) and whose value is a
/// non-zero `u64`.
pub fn query_size(query: &str) -> (r: Option<u64>)
    ensures
        r == spec_query_size(query.spec_bytes()),
{
    let mut rest: &[u8] = query.as_bytes();
    loop
        invariant
            spec_query_size(rest@) == spec_query_size(query.spec_bytes()),
        decreases rest.len(),
    {
        let (p, next) = split_at_byte(rest, 38);
        if let Some(v) = pair_size(p) {
            return Some(v);
        }
        match next {
            Some(n) => {
                proof {
                    lemma_first_pair_shorter(rest@);
                }
                rest = n;
            },
            None => {
                return None;
            },
        }
    }
}

/// The size asked for in the query string, as the tespeed worker reads it:
/// the first pair whose key is `bytes` (in any ASCII case) and whose value,
/// up to the next `=`, is a non-zero `u64`.
pub fn strict_query_size(query: &str) -> (r: Option<u64>)
    ensures
        r == spec_strict_query_size(query.spec_bytes()),
{
    let mut rest: &[u8] = query.as_bytes();
    loop
        invariant
            spec_strict_query_size(rest@) == spec_strict_query_size(query.spec_bytes()),
        decreases rest.len(),
    {
        let (p, next) = split_at_byte(rest, 38);
        if let Some(v) = strict_pair_size(p) {
            return Some(v);
        }
        match next {
            Some(n) => {
                proof {
                    lemma_first_pair_shorter(rest@);
                }
                rest = n;
            },
            None => {
                return None;
            },
        }
    }
}

/// The view of an entry found while scanning the pairs.
pub open spec fn entry_view(e: Option<Option<&[u8]>>) -> Option<Option<Seq<u8>>> {
    match e {
        Some(Some(v)) => Some(Some(v@)),
        Some(None) => Some(None),
        None => None,
    }
}

/// The size asked for in the query string, as the cf-speedtest worker reads
/// it: the value of the last pair whose key is exactly `bytes`, if that value
/// is a non-zero `u64`.
pub fn keyed_query_size(query: &str) -> (r: Option<u64>)
    ensures
        r == spec_keyed_query_size(query.spec_bytes()),
{
    let mut rest: &[u8] = query.as_bytes();
    let mut found: Option<Option<&[u8]>> = None;
    loop
        invariant
            spec_last_bytes_entry(query.spec_bytes()) == match spec_last_bytes_entry(rest@) {
                Some(later) => Some(later),
                None => entry_view(found),
            },
        ensures
            spec_last_bytes_entry(query.spec_bytes()) == entry_view(found),
        decreases rest.len(),
    {
        let (p, next) = split_at_byte(rest, 38);
        let (k, v) = split_at_byte(p, 61);
        let v = match v {
            Some(after) => {
                let (v, _) = split_at_byte(after, 61);
                Some(v)
            },
            None => None,
        };
        if is_exact_bytes_key(k) {
            found = Some(v);
        }
        match next {
            Some(n) => {
                proof {
                    lemma_first_pair_shorter(rest@);
                }
                rest = n;
            },
            None => {
                break ;
            },
        }
    }
    match found {
        Some(Some(v)) => parse_nonzero(v),
        _ => None,
    }
}

/// Every size the servers read from a query is positive.
pub proof fn lemma_query_size_positive(q: Seq<u8>)
    ensures
        spec_query_size(q) matches Some(v) ==> v > 0,
    decreases q.len(),
{
    let (p, rest) = first_pair(q);
    if let Some(r) = rest {
        lemma_first_pair_shorter(q);
        lemma_query_size_positive(r);
    }
}

/// Every size the tespeed worker reads from a query is positive.
pub proof fn lemma_strict_query_size_positive(q: Seq<u8>)
    ensures
        spec_strict_query_size(q) matches Some(v) ==> v > 0,
    decreases q.len(),
{
    let (p, rest) = first_pair(q);
    if let Some(r) = rest {
        lemma_first_pair_shorter(q);
        lemma_strict_query_size_positive(r);
    }
}


/// The pair `k=v`.
pub open spec fn pair_text(k: Seq<u8>, v: Seq<u8>) -> Seq<u8> {
    k + seq![61u8] + v
}

/// `a&b`: two parts of a query joined at a pair separator.
pub open spec fn joined(a: Seq<u8>, b: Seq<u8>) -> Seq<u8> {
    a + seq![38u8] + b
}

/// A query without `&` is one pair, and a query `p&q` whose first part `p`
/// holds no `&` splits into `p` and `q`.
proof fn lemma_first_pair_of(p: Seq<u8>, q: Seq<u8>)
    requires
        free_of(p, amp()),
    ensures
        first_pair(p) == (p, None::<Seq<u8>>),
        first_pair(joined(p, q)) == (p, Some(q)),
{
    lemma_first_index_free(p, amp());
    lemma_first_index_join(p, amp(), q);
}

/// The pair `k=v`, with no `&` in it and no `=` in `k`, splits into `k` and
/// `v` (servers), and into `k` and `Some(v)` when `v` holds no `=` either
/// (workers).
proof fn lemma_split_pair_of(k: Seq<u8>, v: Seq<u8>)
    requires
        free_of(k, amp()),
        free_of(k, eq_sign()),
        free_of(v, amp()),
    ensures
        free_of(pair_text(k, v), amp()),
        split_pair(pair_text(k, v)) == (k, v),
        free_of(v, eq_sign()) ==> split_pair_strict(pair_text(k, v)) == (k, Some(v)),
{
    let p = pair_text(k, v);
    assert forall|j: int| 0 <= j < p.len() implies p[j] != amp() by {
        if j < k.len() {
            assert(p[j] == k[j]);
        } else if j > k.len() {
            assert(p[j] == v[j - k.len() - 1]);
        }
    }
    lemma_first_index_join(k, eq_sign(), v);
    if free_of(v, eq_sign()) {
        lemma_first_index_free(v, eq_sign());
    }
}

/// The servers read pairs in order and the first that names a size wins: a
/// query `k=v&q` gives the size `v` names when `k` is `bytes` in any ASCII
/// case and `v` is a non-zero `u64`, and otherwise the size `q` gives; a
/// query that is the single pair `k=v` gives that size or none.
pub proof fn lemma_query_size_cons(k: Seq<u8>, v: Seq<u8>, q: Seq<u8>)
    requires
        free_of(k, amp()),
        free_of(k, eq_sign()),
        free_of(v, amp()),
    ensures
        spec_query_size(joined(pair_text(k, v), q)) == if spec_eq_ignore_ascii_case(k, bytes_key())
            && spec_parse_nonzero(v) is Some {
            spec_parse_nonzero(v)
        } else {
            spec_query_size(q)
        },
        spec_query_size(pair_text(k, v)) == if spec_eq_ignore_ascii_case(k, bytes_key()) {
            spec_parse_nonzero(v)
        } else {
            None
        },
{
    lemma_split_pair_of(k, v);
    lemma_first_pair_of(pair_text(k, v), q);
}

/// The tespeed worker reads pairs in order and the first that names a size
/// wins: a query `k=v&q` gives the size `v` names when `k` is `bytes` in any
/// ASCII case and `v` is a non-zero `u64`, and otherwise the size `q` gives,
/// so a leading pair with another key changes nothing; a query that is the
/// single pair `k=v` gives that size or none.
pub proof fn lemma_strict_query_size_cons(k: Seq<u8>, v: Seq<u8>, q: Seq<u8>)
    requires
        free_of(k, amp()),
        free_of(k, eq_sign()),
        free_of(v, amp()),
        free_of(v, eq_sign()),
    ensures
        spec_strict_query_size(joined(pair_text(k, v), q)) == if spec_eq_ignore_ascii_case(
            k,
            bytes_key(),
        ) && spec_parse_nonzero(v) is Some {
            spec_parse_nonzero(v)
        } else {
            spec_strict_query_size(q)
        },
        spec_strict_query_size(pair_text(k, v)) == if spec_eq_ignore_ascii_case(k, bytes_key()) {
            spec_parse_nonzero(v)
        } else {
            None
        },
{
    lemma_split_pair_of(k, v);
    lemma_first_pair_of(pair_text(k, v), q);
}

/// Appending a pair `p` (no `&` in it) to `q`: the last `bytes` entry is
/// that of `p` if it has one, else that of `q`.
proof fn lemma_last_bytes_entry_snoc(q: Seq<u8>, p: Seq<u8>)
    requires
        free_of(p, amp()),
    ensures
        spec_last_bytes_entry(joined(q, p)) == match spec_last_bytes_entry(p) {
            Some(e) => Some(e),
            None => spec_last_bytes_entry(q),
        },
    decreases q.len(),
{
    lemma_first_pair_of(p, Seq::empty());
    lemma_first_index(q, amp());
    match first_index(q, amp()) {
        None => {
            lemma_first_pair_of(q, p);
        },
        Some(i) => {
            let a = q.take(i as int);
            let r = q.skip(i as int + 1);
            assert(free_of(a, amp()));
            assert(q =~= joined(a, r));
            assert(joined(q, p) =~= joined(a, joined(r, p)));
            lemma_first_pair_of(a, r);
            lemma_first_pair_of(a, joined(r, p));
            lemma_last_bytes_entry_snoc(r, p);
        },
    }
}

/// The cf-speedtest worker keeps, as a map does, the last pair keyed exactly
/// `bytes`: appending `&k=v` to a query gives the size `v` names when `k` is
/// exactly `bytes`, and leaves the size unchanged for any other key; a query
/// that is the single pair `k=v` gives that size or none.
pub proof fn lemma_keyed_query_size_snoc(q: Seq<u8>, k: Seq<u8>, v: Seq<u8>)
    requires
        free_of(k, amp()),
        free_of(k, eq_sign()),
        free_of(v, amp()),
        free_of(v, eq_sign()),
    ensures
        spec_keyed_query_size(joined(q, pair_text(k, v))) == if k == bytes_key() {
            spec_parse_nonzero(v)
        } else {
            spec_keyed_query_size(q)
        },
        spec_keyed_query_size(pair_text(k, v)) == if k == bytes_key() {
            spec_parse_nonzero(v)
        } else {
            None
        },
{
    lemma_split_pair_of(k, v);
    lemma_first_pair_of(pair_text(k, v), Seq::empty());
    lemma_last_bytes_entry_snoc(q, pair_text(k, v));
}

} // verus!
