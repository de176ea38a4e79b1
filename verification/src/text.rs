//! Byte-level text utilities: substring search, non-overlapping left-to-right
//! replacement, and decimal formatting of integers. The renderer builds on
//! these; all contracts are stated over `Seq<u8>`.

use vstd::prelude::*;

verus! {

/// `pat` occurs in `s` at position `i`.
pub open spec fn matches_at(s: Seq<u8>, pat: Seq<u8>, i: int) -> bool {
    0 <= i && i + pat.len() <= s.len() && s.subrange(i, i + pat.len()) == pat
}

/// `pat` occurs somewhere in `s`.
pub open spec fn contains_pat(s: Seq<u8>, pat: Seq<u8>) -> bool {
    exists|i: int| matches_at(s, pat, i)
}

/// Position of the leftmost occurrence of `pat` in `s`, if any.
/// The empty pattern is treated as absent.
pub open spec fn spec_find(s: Seq<u8>, pat: Seq<u8>) -> Option<int>
    decreases s.len(),
{
    if pat.len() == 0 || s.len() < pat.len() {
        None
    } else if s.subrange(0, pat.len() as int) == pat {
        Some(0)
    } else {
        match spec_find(s.subrange(1, s.len() as int), pat) {
            None => None,
            Some(i) => Some(i + 1),
        }
    }
}

/// Every occurrence of `pat` in `s` replaced by `to`, scanning left to right
/// without rescanning replacement text, as `str::replace` does.
/// The empty pattern leaves `s` unchanged.
pub open spec fn spec_replace(s: Seq<u8>, pat: Seq<u8>, to: Seq<u8>) -> Seq<u8>
    decreases s.len(),
{
    if pat.len() == 0 || s.len() < pat.len() {
        s
    } else if s.subrange(0, pat.len() as int) == pat {
        to + spec_replace(s.subrange(pat.len() as int, s.len() as int), pat, to)
    } else {
        seq![s[0]] + spec_replace(s.subrange(1, s.len() as int), pat, to)
    }
}

/// A match inside the tail `s[from..]` is a match in `s`, and conversely.
proof fn lemma_matches_at_shift(s: Seq<u8>, pat: Seq<u8>, from: int, i: int)
    requires
        0 <= from <= s.len(),
        0 <= i,
    ensures
        matches_at(s.subrange(from, s.len() as int), pat, i) == matches_at(s, pat, from + i),
{
    let tail = s.subrange(from, s.len() as int);
    if i + pat.len() <= tail.len() {
        assert(tail.subrange(i, i + pat.len()) =~= s.subrange(from + i, from + i + pat.len()));
    }
}

/// `spec_find` returns exactly the leftmost match position.
pub proof fn lemma_find_characterization(s: Seq<u8>, pat: Seq<u8>)
    requires
        pat.len() >= 1,
    ensures
        match spec_find(s, pat) {
            Some(i) => matches_at(s, pat, i) && (forall|j: int| 0 <= j < i ==> !matches_at(s, pat, j)),
            None => !contains_pat(s, pat),
        },
    decreases s.len(),
{
    if s.len() < pat.len() {
        assert(forall|i: int| matches_at(s, pat, i) ==> i + pat.len() <= s.len());
    } else if s.subrange(0, pat.len() as int) == pat {
        assert(matches_at(s, pat, 0));
    } else {
        let tail = s.subrange(1, s.len() as int);
        lemma_find_characterization(tail, pat);
        assert(forall|i: int| 0 <= i ==> matches_at(tail, pat, i) == matches_at(s, pat, 1 + i)) by {
            assert forall|i: int| 0 <= i implies matches_at(tail, pat, i) == matches_at(s, pat, 1 + i) by {
                lemma_matches_at_shift(s, pat, 1, i);
            }
        }
        match spec_find(tail, pat) {
            None => {
                assert forall|j: int| !matches_at(s, pat, j) by {
                    if 0 <= j {
                        if j == 0 {
                            assert(!matches_at(s, pat, 0));
                        } else {
                            assert(!matches_at(tail, pat, j - 1));
                        }
                    }
                }
            },
            Some(i) => {
                assert(matches_at(s, pat, i + 1));
                assert forall|j: int| 0 <= j < i + 1 implies !matches_at(s, pat, j) by {
                    if j == 0 {
                        assert(!matches_at(s, pat, 0));
                    } else {
                        assert(!matches_at(tail, pat, j - 1));
                    }
                }
            },
        }
    }
}

/// Replacing a pattern that does not occur leaves the text unchanged.
pub proof fn lemma_replace_absent(s: Seq<u8>, pat: Seq<u8>, to: Seq<u8>)
    requires
        !contains_pat(s, pat),
    ensures
        spec_replace(s, pat, to) == s,
    decreases s.len(),
{
    if pat.len() == 0 || s.len() < pat.len() {
    } else if s.subrange(0, pat.len() as int) == pat {
        assert(matches_at(s, pat, 0));
    } else {
        let tail = s.subrange(1, s.len() as int);
        assert forall|i: int| !matches_at(tail, pat, i) by {
            if 0 <= i {
                lemma_matches_at_shift(s, pat, 1, i);
            }
        }
        lemma_replace_absent(tail, pat, to);
        assert(seq![s[0]] + tail =~= s);
    }
}

/// Do the `pat.len()` bytes of `s` starting at `i` equal `pat`?
pub fn is_match_at(s: &[u8], pat: &[u8], i: usize) -> (b: bool)
    requires
        i + pat@.len() <= s@.len(),
    ensures
        b == matches_at(s@, pat@, i as int),
{
    let slen: usize = s.len();
    let mut k: usize = 0;
    while k < pat.len()
        invariant
            0 <= k <= pat@.len(),
            i + pat@.len() <= s@.len(),
            s@.len() == slen,
            forall|j: int| 0 <= j < k ==> s@[i + j] == pat@[j],
        decreases pat@.len() - k,
    {
        if s[i + k] != pat[k] {
            proof {
                assert(s@.subrange(i as int, i + pat@.len())[k as int] != pat@[k as int]);
            }
            return false;
        }
        k += 1;
    }
    proof {
        assert(s@.subrange(i as int, i + pat@.len()) =~= pat@);
    }
    true
}

/// Position of the leftmost occurrence of `pat` in `s`, if any.
pub fn find_pat(s: &[u8], pat: &[u8]) -> (r: Option<usize>)
    requires
        pat@.len() >= 1,
    ensures
        spec_find(s@, pat@) == match r {
            Some(i) => Some(i as int),
            None => None::<int>,
        },
        match r {
            Some(i) => matches_at(s@, pat@, i as int) && (forall|j: int|
                0 <= j < i ==> !matches_at(s@, pat@, j)),
            None => !contains_pat(s@, pat@),
        },
{
    proof {
        lemma_find_characterization(s@, pat@);
    }
    if s.len() < pat.len() {
        return None;
    }
    let last: usize = s.len() - pat.len();
    let mut i: usize = 0;
    while i <= last
        invariant
            pat@.len() >= 1,
            pat@.len() <= s@.len(),
            s@.len() <= usize::MAX,
            last == s@.len() - pat@.len(),
            0 <= i <= last + 1,
            forall|j: int| 0 <= j < i ==> !matches_at(s@, pat@, j),
        decreases last + 1 - i,
    {
        if is_match_at(s, pat, i) {
            proof {
                lemma_find_characterization(s@, pat@);
                match spec_find(s@, pat@) {
                    Some(w) => {
                        assert(!(w < i) && !(w > i));
                    },
                    None => {
                        assert(matches_at(s@, pat@, i as int));
                    },
                }
            }
            return Some(i);
        }
        i += 1;
    }
    proof {
        assert forall|j: int| !matches_at(s@, pat@, j) by {
            if 0 <= j && j + pat@.len() <= s@.len() {
                assert(j < i);
            }
        }
    }
    None
}

/// Does `pat` occur anywhere in `s`?
pub fn contains_bytes(s: &[u8], pat: &[u8]) -> (b: bool)
    requires
        pat@.len() >= 1,
    ensures
        b == contains_pat(s@, pat@),
{
    proof {
        lemma_find_characterization(s@, pat@);
    }
    if s.len() < pat.len() {
        proof {
            assert(forall|i: int| matches_at(s@, pat@, i) ==> i + pat@.len() <= s@.len());
        }
        return false;
    }
    match find_pat(s, pat) {
        Some(_) => true,
        None => false,
    }
}

/// Every occurrence of `pat` in `s` replaced by `to`, leftmost first,
/// without rescanning replacement text.
pub fn replace_bytes(s: &[u8], pat: &[u8], to: &[u8]) -> (r: Vec<u8>)
    requires
        pat@.len() >= 1,
    ensures
        r@ == spec_replace(s@, pat@, to@),
{
    let mut out: Vec<u8> = Vec::new();
    let mut i: usize = 0;
    proof {
        assert(s@.subrange(0, s@.len() as int) =~= s@);
        assert(out@ + spec_replace(s@, pat@, to@) =~= spec_replace(s@, pat@, to@));
    }
    while i < s.len()
        invariant
            pat@.len() >= 1,
            0 <= i <= s@.len(),
            spec_replace(s@, pat@, to@) == out@ + spec_replace(
                s@.subrange(i as int, s@.len() as int),
                pat@,
                to@,
            ),
        decreases s@.len() - i,
    {
        let ghost pre = out@;
        let ghost tail = s@.subrange(i as int, s@.len() as int);
        if s.len() - i >= pat.len() && is_match_at(s, pat, i) {
            out.extend_from_slice(to);
            proof {
                assert(tail.subrange(0, pat@.len() as int) =~= s@.subrange(
                    i as int,
                    i + pat@.len(),
                ));
                assert(tail.subrange(pat@.len() as int, tail.len() as int) =~= s@.subrange(
                    i + pat@.len(),
                    s@.len() as int,
                ));
                assert(spec_replace(tail, pat@, to@) == to@ + spec_replace(
                    s@.subrange(i + pat@.len(), s@.len() as int),
                    pat@,
                    to@,
                ));
                assert(pre + spec_replace(tail, pat@, to@) == (pre + to@) + spec_replace(
                    s@.subrange(i + pat@.len(), s@.len() as int),
                    pat@,
                    to@,
                )) by {
                    assert(pre + (to@ + spec_replace(
                        s@.subrange(i + pat@.len(), s@.len() as int),
                        pat@,
                        to@,
                    )) =~= (pre + to@) + spec_replace(
                        s@.subrange(i + pat@.len(), s@.len() as int),
                        pat@,
                        to@,
                    ));
                }
            }
            i += pat.len();
        } else {
            out.push(s[i]);
            proof {
                if tail.len() >= pat@.len() {
                    assert(tail.subrange(0, pat@.len() as int) =~= s@.subrange(
                        i as int,
                        i + pat@.len(),
                    ));
                    assert(tail.subrange(0, pat@.len() as int) != pat@);
                }
                assert(tail.subrange(1, tail.len() as int) =~= s@.subrange(
                    i + 1,
                    s@.len() as int,
                ));
                assert(tail[0] == s@[i as int]);
                assert(spec_replace(tail, pat@, to@) == seq![s@[i as int]] + spec_replace(
                    s@.subrange(i + 1, s@.len() as int),
                    pat@,
                    to@,
                ));
                assert(pre + spec_replace(tail, pat@, to@) == (pre + seq![s@[i as int]])
                    + spec_replace(s@.subrange(i + 1, s@.len() as int), pat@, to@)) by {
                    assert(pre + (seq![s@[i as int]] + spec_replace(
                        s@.subrange(i + 1, s@.len() as int),
                        pat@,
                        to@,
                    )) =~= (pre + seq![s@[i as int]]) + spec_replace(
                        s@.subrange(i + 1, s@.len() as int),
                        pat@,
                        to@,
                    ));
                }
            }
            i += 1;
        }
    }
    proof {
        assert(s@.subrange(i as int, s@.len() as int).len() == 0);
        assert(out@ + spec_replace(s@.subrange(i as int, s@.len() as int), pat@, to@) =~= out@);
    }
    out
}

/// Decimal digits of a non-negative number, most significant first.
pub open spec fn spec_digits(n: nat) -> Seq<u8>
    decreases n,
{
    if n < 10 {
        seq![(48 + n) as u8]
    } else {
        spec_digits(n / 10) + seq![(48 + n % 10) as u8]
    }
}

/// Decimal rendering of an integer: digits, with a leading `-` if negative.
pub open spec fn spec_decimal(n: int) -> Seq<u8> {
    if n >= 0 {
        spec_digits(n as nat)
    } else {
        seq![45u8] + spec_digits((-n) as nat)
    }
}

/// Decimal digits of `n`, most significant first.
pub fn format_u64(n: u64) -> (r: Vec<u8>)
    ensures
        r@ == spec_digits(n as nat),
    decreases n,
{
    if n < 10 {
        let mut r: Vec<u8> = Vec::new();
        r.push(48 + n as u8);
        proof {
            assert(r@ =~= spec_digits(n as nat));
        }
        r
    } else {
        let mut r = format_u64(n / 10);
        r.push(48 + (n % 10) as u8);
        proof {
            assert(r@ =~= spec_digits((n / 10) as nat) + seq![(48 + n % 10) as u8]);
        }
        r
    }
}

/// Decimal rendering of a signed integer.
pub fn format_i64(n: i64) -> (r: Vec<u8>)
    ensures
        r@ == spec_decimal(n as int),
{
    if n >= 0 {
        format_u64(n as u64)
    } else {
        let magnitude: u64 = ((-(n + 1)) as u64) + 1;
        proof {
            assert(magnitude == -(n as int));
        }
        let mut r: Vec<u8> = Vec::new();
        r.push(45);
        let digits = format_u64(magnitude);
        r.extend_from_slice(digits.as_slice());
        proof {
            assert(r@ =~= seq![45u8] + spec_digits((-(n as int)) as nat));
        }
        r
    }
}

} // verus!
