//! The size a client asks for in the request path, such as `/100MB.test`.

use vstd::prelude::*;
use vstd::utf8::encode_utf8;
use vstd::string::StrSliceExecFns;
use crate::text::{eq_ignore_ascii_case, lemma_eq_ignore_ascii_case_sym,
    lemma_eq_ignore_ascii_case_trans, parse_u64, spec_eq_ignore_ascii_case, spec_parse_u64};

verus! {

/// The characters of `s`, in order.
fn chars_of(s: &str) -> (r: Vec<char>)
    ensures
        r@ == s@,
{
    let mut v: Vec<char> = Vec::new();
    for c in it: s.chars()
        invariant
            v@ == it.history(),
    {
        v.push(c);
    }
    proof {
        broadcast use vstd::string::axiom_spec_iter;
    }
    assert(v@ =~= s@);
    v
}


/// What `char::is_numeric` returns for `c`: whether the character belongs to
/// one of Unicode's number categories (Nd, Nl, No).
pub uninterp spec fn char_is_numeric(c: char) -> bool;

/// `char::is_numeric`. Trusted to return the same answer for the same
/// character, and, among ASCII characters, to accept exactly `'0'..='9'`
/// (the only ASCII characters in Unicode's number categories). Which
/// non-ASCII characters count as numeric follows the Unicode tables and is
/// not written out here.
#[verifier::external_body]
fn is_numeric(c: char) -> (r: bool)
    ensures
        r == char_is_numeric(c),
        (c as u32) < 128 ==> (r <==> ('0' <= c && c <= '9')),
{
    c.is_numeric()
}

/// `s` with every leading copy of a non-empty `pat` removed, as
/// `str::trim_start_matches` does.
pub open spec fn trim_start_pat(s: Seq<char>, pat: Seq<char>) -> Seq<char>
    decreases s.len(),
{
    if pat.len() > 0 && pat.len() <= s.len() && s.take(pat.len() as int) == pat {
        trim_start_pat(s.skip(pat.len() as int), pat)
    } else {
        s
    }
}

/// `s` with every trailing copy of a non-empty `pat` removed, as
/// `str::trim_end_matches` does.
pub open spec fn trim_end_pat(s: Seq<char>, pat: Seq<char>) -> Seq<char>
    decreases s.len(),
{
    if pat.len() > 0 && pat.len() <= s.len() && s.skip(s.len() - pat.len()) == pat {
        trim_end_pat(s.take(s.len() - pat.len()), pat)
    } else {
        s
    }
}

/// The route prefix of the worker deployments, `/speedtest`.
pub open spec fn worker_route_prefix() -> Seq<char> {
    seq!['/', 's', 'p', 'e', 'e', 'd', 't', 'e', 's', 't']
}

/// The part of a path that names a size: the route prefix (if any) and
/// leading slashes removed, then every trailing `.test`.
pub open spec fn size_text(p: Seq<char>, prefix: Seq<char>) -> Seq<char> {
    trim_end_pat(
        trim_start_pat(trim_start_pat(p, prefix), seq!['/']),
        seq!['.', 't', 'e', 's', 't'],
    )
}

/// Whether `char::is_numeric` accepts `c`: among ASCII characters exactly
/// `'0'..='9'`, beyond ASCII the Unicode number categories (`char_is_numeric`).
pub open spec fn numeric_char(c: char) -> bool {
    if (c as u32) < 128 {
        '0' <= c && c <= '9'
    } else {
        char_is_numeric(c)
    }
}

/// Position of the last numeric character of `s`.
pub open spec fn last_numeric(s: Seq<char>) -> Option<nat>
    decreases s.len(),
{
    if s.len() == 0 {
        None
    } else if numeric_char(s.last()) {
        Some((s.len() - 1) as nat)
    } else {
        last_numeric(s.drop_last())
    }
}

/// The multiplier a unit suffix stands for, in any ASCII case: none or `B`
/// is 1, `KB`, `MB`, `GB` are powers of 1000, `KiB`, `MiB`, `GiB` powers of
/// 1024; any other suffix is refused.
pub open spec fn unit_factor(u: Seq<u8>) -> Option<u64> {
    if u.len() == 0 || spec_eq_ignore_ascii_case(u, seq![66u8]) {
        Some(1u64)
    } else if spec_eq_ignore_ascii_case(u, seq![75u8, 66u8]) {
        Some(1000u64)
    } else if spec_eq_ignore_ascii_case(u, seq![75u8, 105u8, 66u8]) {
        Some(1024u64)
    } else if spec_eq_ignore_ascii_case(u, seq![77u8, 66u8]) {
        Some(1_000_000u64)
    } else if spec_eq_ignore_ascii_case(u, seq![77u8, 105u8, 66u8]) {
        Some(1_048_576u64)
    } else if spec_eq_ignore_ascii_case(u, seq![71u8, 66u8]) {
        Some(1_000_000_000u64)
    } else if spec_eq_ignore_ascii_case(u, seq![71u8, 105u8, 66u8]) {
        Some(1_073_741_824u64)
    } else {
        None
    }
}

/// Units are read without regard to ASCII case: two suffixes that differ
/// only in case stand for the same factor.
pub proof fn lemma_unit_factor_ignores_case(u1: Seq<u8>, u2: Seq<u8>)
    requires
        spec_eq_ignore_ascii_case(u1, u2),
    ensures
        unit_factor(u1) == unit_factor(u2),
{
    lemma_eq_ignore_ascii_case_sym(u1, u2);
    let units = seq![seq![66u8], seq![75u8, 66u8], seq![75u8, 105u8, 66u8], seq![77u8, 66u8],
        seq![77u8, 105u8, 66u8], seq![71u8, 66u8], seq![71u8, 105u8, 66u8]];
    assert forall|i: int| 0 <= i < units.len() implies spec_eq_ignore_ascii_case(u1, #[trigger] units[i])
        == spec_eq_ignore_ascii_case(u2, units[i]) by {
        if spec_eq_ignore_ascii_case(u1, units[i]) {
            lemma_eq_ignore_ascii_case_trans(u2, u1, units[i]);
        }
        if spec_eq_ignore_ascii_case(u2, units[i]) {
            lemma_eq_ignore_ascii_case_trans(u1, u2, units[i]);
        }
    }
    assert(units[0] == seq![66u8]);
    assert(units[1] == seq![75u8, 66u8]);
    assert(units[2] == seq![75u8, 105u8, 66u8]);
    assert(units[3] == seq![77u8, 66u8]);
    assert(units[4] == seq![77u8, 105u8, 66u8]);
    assert(units[5] == seq![71u8, 66u8]);
    assert(units[6] == seq![71u8, 105u8, 66u8]);
}

/// The base and the unit factor of size text `t` whose number ends at
/// character `k`: `t[..=k]` parsed as a `u64` and the factor of the unit
/// `t[k+1..]`; `None` when either is refused.
pub open spec fn spec_split_parts(t: Seq<char>, k: nat) -> Option<(u64, u64)> {
    match spec_parse_u64(encode_utf8(t.take(k as int + 1))) {
        None => None,
        Some(base) => match unit_factor(encode_utf8(t.skip(k as int + 1))) {
            None => None,
            Some(unit) => Some((base, unit)),
        },
    }
}

/// Base times unit overflows a `u64`: the multiplication panics.
pub open spec fn split_overflows(t: Seq<char>, k: nat) -> bool {
    match spec_split_parts(t, k) {
        Some((base, unit)) => base * unit > u64::MAX,
        None => false,
    }
}

/// Reading the size out of the path panics: either the last numeric
/// character takes more than one byte, so the byte slice after it would not
/// fall on a character boundary, or base times unit overflows a `u64`.
pub open spec fn path_size_panics(p: Seq<char>, prefix: Seq<char>) -> bool {
    let t = size_text(p, prefix);
    match last_numeric(t) {
        Some(k) => t[k as int] as u32 >= 128 || split_overflows(t, k),
        None => false,
    }
}

/// The size a path asks for: the text up to and including its last numeric
/// character parsed as a `u64`, times the factor of the unit that follows;
/// `None` when either part is refused or the product is zero.
pub open spec fn spec_path_size(p: Seq<char>, prefix: Seq<char>) -> Option<u64> {
    spec_path_size_of(size_text(p, prefix))
}

/// The size that trimmed size text `t` names; see `spec_path_size`.
pub open spec fn spec_path_size_of(t: Seq<char>) -> Option<u64> {
    match last_numeric(t) {
        None => None,
        Some(k) => spec_size_from_split(t, k),
    }
}

/// The size that size text `t` names when its number ends at character `k`:
/// base times unit (see `spec_split_parts`); `None` when either part is
/// refused or the product is zero.
pub open spec fn spec_size_from_split(t: Seq<char>, k: nat) -> Option<u64> {
    match spec_split_parts(t, k) {
        None => None,
        Some((base, unit)) => if base * unit != 0 {
            Some((base * unit) as u64)
        } else {
            None
        },
    }
}

/// Whether `cs[lo..hi]` starts with `pat`.
fn starts_with_at(cs: &Vec<char>, lo: usize, hi: usize, pat: &[char]) -> (r: bool)
    requires
        lo <= hi <= cs.len(),
    ensures
        r == (pat@.len() <= hi - lo && cs@.subrange(lo as int, hi as int).take(pat@.len() as int) == pat@),
{
    if pat.len() > hi - lo {
        return false;
    }
    let mut i: usize = 0;
    while i < pat.len()
        invariant
            pat@.len() <= hi - lo,
            lo <= hi <= cs.len(),
            i <= pat.len(),
            forall|j: int| 0 <= j < i ==> cs@[lo + j] == pat@[j],
        decreases pat.len() - i,
    {
        if cs[lo + i] != pat[i] {
            assert(cs@.subrange(lo as int, hi as int).take(pat@.len() as int)[i as int] != pat@[i as int]);
            return false;
        }
        i = i + 1;
    }
    assert(cs@.subrange(lo as int, hi as int).take(pat@.len() as int) =~= pat@);
    true
}

/// Whether `cs[lo..hi]` ends with `pat`.
fn ends_with_at(cs: &Vec<char>, lo: usize, hi: usize, pat: &[char]) -> (r: bool)
    requires
        lo <= hi <= cs.len(),
    ensures
        r == (pat@.len() <= hi - lo && cs@.subrange(lo as int, hi as int).skip(
            (hi - lo) - pat@.len(),
        ) == pat@),
{
    if pat.len() > hi - lo {
        return false;
    }
    let start = hi - pat.len();
    let mut i: usize = 0;
    while i < pat.len()
        invariant
            pat@.len() <= hi - lo,
            start == hi - pat@.len(),
            lo <= hi <= cs.len(),
            i <= pat.len(),
            forall|j: int| 0 <= j < i ==> cs@[start + j] == pat@[j],
        decreases pat.len() - i,
    {
        if cs[start + i] != pat[i] {
            assert(cs@.subrange(lo as int, hi as int).skip((hi - lo) - pat@.len())[i as int]
                != pat@[i as int]);
            return false;
        }
        i = i + 1;
    }
    assert(cs@.subrange(lo as int, hi as int).skip((hi - lo) - pat@.len()) =~= pat@);
    true
}

/// The start of `cs[lo..hi]` once every leading `pat` is removed.
fn trim_start(cs: &Vec<char>, lo: usize, hi: usize, pat: &[char]) -> (new_lo: usize)
    requires
        lo <= hi <= cs.len(),
    ensures
        lo <= new_lo <= hi,
        cs@.subrange(new_lo as int, hi as int) == trim_start_pat(
            cs@.subrange(lo as int, hi as int),
            pat@,
        ),
{
    if pat.len() == 0 {
        return lo;
    }
    let mut l = lo;
    while starts_with_at(cs, l, hi, pat)
        invariant
            lo <= l <= hi <= cs.len(),
            pat@.len() > 0,
            trim_start_pat(cs@.subrange(lo as int, hi as int), pat@) == trim_start_pat(
                cs@.subrange(l as int, hi as int),
                pat@,
            ),
        decreases hi - l,
    {
        assert(cs@.subrange(l as int, hi as int).skip(pat@.len() as int) =~= cs@.subrange(
            l + pat@.len(),
            hi as int,
        ));
        l = l + pat.len();
    }
    l
}

/// The end of `cs[lo..hi]` once every trailing `pat` is removed.
fn trim_end(cs: &Vec<char>, lo: usize, hi: usize, pat: &[char]) -> (new_hi: usize)
    requires
        lo <= hi <= cs.len(),
    ensures
        lo <= new_hi <= hi,
        cs@.subrange(lo as int, new_hi as int) == trim_end_pat(
            cs@.subrange(lo as int, hi as int),
            pat@,
        ),
{
    if pat.len() == 0 {
        return hi;
    }
    let mut h = hi;
    while ends_with_at(cs, lo, h, pat)
        invariant
            lo <= h <= hi <= cs.len(),
            pat@.len() > 0,
            trim_end_pat(cs@.subrange(lo as int, hi as int), pat@) == trim_end_pat(
                cs@.subrange(lo as int, h as int),
                pat@,
            ),
        decreases h - lo,
    {
        assert(cs@.subrange(lo as int, h as int).take((h - lo) - pat@.len()) =~= cs@.subrange(
            lo as int,
            h - pat@.len(),
        ));
        h = h - pat.len();
    }
    h
}

/// Position of the last numeric character of `cs[lo..hi]`.
fn find_last_numeric(cs: &Vec<char>, lo: usize, hi: usize) -> (r: Option<usize>)
    requires
        lo <= hi <= cs.len(),
    ensures
        match r {
            Some(k) => lo <= k < hi && last_numeric(cs@.subrange(lo as int, hi as int)) == Some(
                (k - lo) as nat,
            ),
            None => last_numeric(cs@.subrange(lo as int, hi as int)) is None,
        },
{
    let mut j = hi;
    while j > lo
        invariant
            lo <= j <= hi <= cs.len(),
            last_numeric(cs@.subrange(lo as int, hi as int)) == last_numeric(
                cs@.subrange(lo as int, j as int),
            ),
        decreases j - lo,
    {
        let ghost sub = cs@.subrange(lo as int, j as int);
        assert(sub.last() == cs@[j - 1]);
        if is_numeric(cs[j - 1]) {
            return Some(j - 1);
        }
        assert(sub.drop_last() =~= cs@.subrange(lo as int, j - 1));
        j = j - 1;
    }
    None
}

/// The trimmed size text of a path, as character positions `lo..hi`, and the
/// position of its last numeric character.
fn locate_number(cs: &Vec<char>, prefix: &[char]) -> (r: (usize, usize, Option<usize>))
    ensures
        r.0 <= r.1 <= cs.len(),
        cs@.subrange(r.0 as int, r.1 as int) == size_text(cs@, prefix@),
        match r.2 {
            Some(k) => r.0 <= k < r.1 && last_numeric(size_text(cs@, prefix@)) == Some(
                (k - r.0) as nat,
            ),
            None => last_numeric(size_text(cs@, prefix@)) is None,
        },
{
    let slash: [char; 1] = ['/'];
    let suffix: [char; 5] = ['.', 't', 'e', 's', 't'];
    assert(slash@ =~= seq!['/']);
    assert(suffix@ =~= seq!['.', 't', 'e', 's', 't']);
    assert(cs@.subrange(0, cs.len() as int) =~= cs@);
    let lo = trim_start(cs, 0, cs.len(), prefix);
    let lo = trim_start(cs, lo, cs.len(), &slash);
    let hi = trim_end(cs, lo, cs.len(), &suffix);
    let k = find_last_numeric(cs, lo, hi);
    (lo, hi, k)
}

/// The unit factor of a suffix.
fn unit_factor_of(u: &[u8]) -> (r: Option<u64>)
    ensures
        r == unit_factor(u@),
{
    let b: [u8; 1] = [66u8];
    let kb: [u8; 2] = [75u8, 66u8];
    let kib: [u8; 3] = [75u8, 105u8, 66u8];
    let mb: [u8; 2] = [77u8, 66u8];
    let mib: [u8; 3] = [77u8, 105u8, 66u8];
    let gb: [u8; 2] = [71u8, 66u8];
    let gib: [u8; 3] = [71u8, 105u8, 66u8];
    assert(b@ =~= seq![66u8]);
    assert(kb@ =~= seq![75u8, 66u8]);
    assert(kib@ =~= seq![75u8, 105u8, 66u8]);
    assert(mb@ =~= seq![77u8, 66u8]);
    assert(mib@ =~= seq![77u8, 105u8, 66u8]);
    assert(gb@ =~= seq![71u8, 66u8]);
    assert(gib@ =~= seq![71u8, 105u8, 66u8]);
    if u.len() == 0 || eq_ignore_ascii_case(u, &b) {
        Some(1)
    } else if eq_ignore_ascii_case(u, &kb) {
        Some(1000)
    } else if eq_ignore_ascii_case(u, &kib) {
        Some(1024)
    } else if eq_ignore_ascii_case(u, &mb) {
        Some(1000 * 1000)
    } else if eq_ignore_ascii_case(u, &mib) {
        Some(1024 * 1024)
    } else if eq_ignore_ascii_case(u, &gb) {
        Some(1000 * 1000 * 1000)
    } else if eq_ignore_ascii_case(u, &gib) {
        Some(1024 * 1024 * 1024)
    } else {
        None
    }
}

/// The base and the unit factor of size text whose number ends at `k`.
fn split_parts(text: &str, k: usize) -> (r: Option<(u64, u64)>)
    requires
        k < text@.len(),
    ensures
        r == spec_split_parts(text@, k as nat),
{
    let len = text.unicode_len();
    let base = text.substring_char(0, k + 1);
    let unit = text.substring_char(k + 1, len);
    assert(base@ =~= text@.take(k + 1));
    assert(unit@ =~= text@.skip(k + 1));
    match parse_u64(base.as_bytes()) {
        None => None,
        Some(b) => match unit_factor_of(unit.as_bytes()) {
            None => None,
            Some(u) => Some((b, u)),
        },
    }
}

/// The size that size text names when its number ends at character `k`,
/// such as `100MB` split after `0`.
pub fn size_from_split(text: &str, k: usize) -> (r: Option<u64>)
    requires
        k < text@.len(),
        !split_overflows(text@, k as nat),
    ensures
        r == spec_size_from_split(text@, k as nat),
{
    match split_parts(text, k) {
        None => None,
        Some((b, u)) => {
            let n = b * u;
            if n != 0 {
                Some(n)
            } else {
                None
            }
        },
    }
}

/// Whether base times unit overflows for size text whose number ends at `k`.
pub fn split_overflows_at(text: &str, k: usize) -> (r: bool)
    requires
        k < text@.len(),
    ensures
        r == split_overflows(text@, k as nat),
{
    match split_parts(text, k) {
        None => false,
        Some((b, u)) => b.checked_mul(u).is_none(),
    }
}

/// The size a path asks for, after removing `prefix`; see `spec_path_size`.
fn path_size_with(path: &str, prefix: &[char]) -> (r: Option<u64>)
    requires
        !path_size_panics(path@, prefix@),
    ensures
        r == spec_path_size(path@, prefix@),
{
    let cs = chars_of(path);
    let (lo, hi, k) = locate_number(&cs, prefix);
    match k {
        None => None,
        Some(k) => {
            let text = path.substring_char(lo, hi);
            size_from_split(text, k - lo)
        },
    }
}

/// Whether reading the size out of `path`, after removing `prefix`, panics.
fn panics_with(path: &str, prefix: &[char]) -> (r: bool)
    ensures
        r == path_size_panics(path@, prefix@),
{
    let cs = chars_of(path);
    let (lo, hi, k) = locate_number(&cs, prefix);
    match k {
        None => false,
        Some(k) => {
            let ghost t = cs@.subrange(lo as int, hi as int);
            assert(t[k - lo] == cs@[k as int]);
            if (cs[k] as u32) >= 128 {
                true
            } else {
                let text = path.substring_char(lo, hi);
                split_overflows_at(text, k - lo)
            }
        },
    }
}

/// The size that a server request path such as `/100MB.test` asks for.
pub fn path_size(path: &str) -> (r: Option<u64>)
    requires
        !path_size_panics(path@, Seq::empty()),
    ensures
        r == spec_path_size(path@, Seq::empty()),
{
    let none: [char; 0] = [];
    assert(none@ =~= Seq::<char>::empty());
    path_size_with(path, &none)
}

/// Whether `path_size` panics on a server path.
pub fn path_panics(path: &str) -> (r: bool)
    ensures
        r == path_size_panics(path@, Seq::empty()),
{
    let none: [char; 0] = [];
    assert(none@ =~= Seq::<char>::empty());
    panics_with(path, &none)
}

/// The size that a worker request path such as `/speedtest/100MB.test` asks for.
pub fn worker_path_size(path: &str) -> (r: Option<u64>)
    requires
        !path_size_panics(path@, worker_route_prefix()),
    ensures
        r == spec_path_size(path@, worker_route_prefix()),
{
    let prefix: [char; 10] = ['/', 's', 'p', 'e', 'e', 'd', 't', 'e', 's', 't'];
    assert(prefix@ =~= worker_route_prefix());
    path_size_with(path, &prefix)
}

/// Whether `worker_path_size` panics on a worker path.
pub fn worker_path_panics(path: &str) -> (r: bool)
    ensures
        r == path_size_panics(path@, worker_route_prefix()),
{
    let prefix: [char; 10] = ['/', 's', 'p', 'e', 'e', 'd', 't', 'e', 's', 't'];
    assert(prefix@ =~= worker_route_prefix());
    panics_with(path, &prefix)
}

} // verus!
