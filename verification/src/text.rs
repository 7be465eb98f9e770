//! Verified substring search and substitution on character sequences.
//!
//! These are the primitives behind the rename transformations: a literal
//! replace touches only the leftmost occurrence of a pattern, while a literal
//! remove deletes every occurrence found in a single left-to-right scan.

use vstd::prelude::*;

verus! {

/// The pattern `pat` occurs in `s` starting at index `i`.
pub open spec fn matches_at(s: Seq<char>, pat: Seq<char>, i: int) -> bool {
    0 <= i && i + pat.len() <= s.len() && s.subrange(i, i + pat.len() as int) =~= pat
}

/// The index of the first occurrence of `pat` in `s` at or after `i`.
pub open spec fn first_match_from(s: Seq<char>, pat: Seq<char>, i: int) -> Option<int>
    decreases s.len() - i,
{
    if i + pat.len() > s.len() {
        None
    } else if matches_at(s, pat, i) {
        Some(i)
    } else {
        first_match_from(s, pat, i + 1)
    }
}

/// The index of the leftmost occurrence of `pat` in `s`, if any.
pub open spec fn first_match(s: Seq<char>, pat: Seq<char>) -> Option<int> {
    first_match_from(s, pat, 0)
}

/// `s` with the leftmost occurrence of `pat` replaced by `rep`; `s` itself
/// when `pat` does not occur.  An empty pattern matches at index 0, so
/// replacing it prepends `rep`.
pub open spec fn replace_first_spec(s: Seq<char>, pat: Seq<char>, rep: Seq<char>) -> Seq<char> {
    match first_match(s, pat) {
        Some(i) => s.take(i) + rep + s.skip(i + pat.len() as int),
        None => s,
    }
}

/// `s` with every occurrence of `pat` found in one left-to-right scan
/// deleted.  Occurrences do not overlap: the scan resumes just past each
/// deleted occurrence.  An empty pattern removes nothing.
pub open spec fn remove_all_spec(s: Seq<char>, pat: Seq<char>) -> Seq<char>
    decreases s.len(),
    via remove_all_spec_decreases
{
    if pat.len() == 0 {
        s
    } else {
        match first_match(s, pat) {
            Some(i) => s.take(i) + remove_all_spec(s.skip(i + pat.len() as int), pat),
            None => s,
        }
    }
}

#[via_fn]
proof fn remove_all_spec_decreases(s: Seq<char>, pat: Seq<char>) {
    lemma_first_match(s, pat);
}

/// A match found by `first_match_from` is a real occurrence, is the leftmost
/// one at or after the start index, and a `None` answer means there is none.
pub proof fn lemma_first_match_from(s: Seq<char>, pat: Seq<char>, i: int)
    ensures
        match first_match_from(s, pat, i) {
            Some(j) => i <= j && matches_at(s, pat, j) && (forall|k: int|
                i <= k < j ==> !matches_at(s, pat, k)),
            None => forall|k: int| i <= k ==> !matches_at(s, pat, k),
        },
    decreases s.len() - i,
{
    if i + pat.len() > s.len() {
        assert(forall|k: int| i <= k ==> !matches_at(s, pat, k));
    } else if matches_at(s, pat, i) {
    } else {
        lemma_first_match_from(s, pat, i + 1);
    }
}

/// The leftmost occurrence reported by `first_match` really is leftmost.
pub proof fn lemma_first_match(s: Seq<char>, pat: Seq<char>)
    ensures
        match first_match(s, pat) {
            Some(j) => 0 <= j && matches_at(s, pat, j) && (forall|k: int|
                0 <= k < j ==> !matches_at(s, pat, k)),
            None => forall|k: int| !matches_at(s, pat, k),
        },
{
    lemma_first_match_from(s, pat, 0);
    if first_match(s, pat) is None {
        assert forall|k: int| !matches_at(s, pat, k) by {
            if matches_at(s, pat, k) {
                assert(0 <= k);
            }
        }
    }
}

/// A literal replace changes at most one occurrence, the leftmost: when
/// `pat` does not occur nothing changes, and otherwise only the leftmost
/// occurrence is swapped for `rep`, with everything before and after it
/// kept.
pub proof fn lemma_replace_first_leftmost(s: Seq<char>, pat: Seq<char>, rep: Seq<char>)
    ensures
        first_match(s, pat) is None ==> replace_first_spec(s, pat, rep) == s,
        first_match(s, pat) matches Some(i) ==> matches_at(s, pat, i) && (forall|k: int|
            0 <= k < i ==> !matches_at(s, pat, k)) && replace_first_spec(s, pat, rep) == s.take(i)
            + rep + s.skip(i + pat.len() as int),
{
    lemma_first_match(s, pat);
}

/// Whether `pat` occurs anywhere in `s`.
pub open spec fn has_match(s: Seq<char>, pat: Seq<char>) -> bool {
    first_match(s, pat) is Some
}

/// How many occurrences of `pat` one left-to-right scan of `s` finds,
/// non-overlapping.
pub open spec fn remove_count(s: Seq<char>, pat: Seq<char>) -> int
    decreases s.len(),
    via remove_count_decreases
{
    if pat.len() == 0 {
        0
    } else {
        match first_match(s, pat) {
            Some(i) => 1 + remove_count(s.skip(i + pat.len() as int), pat),
            None => 0,
        }
    }
}

#[via_fn]
proof fn remove_count_decreases(s: Seq<char>, pat: Seq<char>) {
    lemma_first_match(s, pat);
}

/// A removal deletes every occurrence the scan finds, not just the first:
/// the result is shorter than `s` by the pattern's length once per found
/// occurrence, and at least one occurrence is deleted whenever the pattern
/// occurs at all.
pub proof fn lemma_remove_all_count(s: Seq<char>, pat: Seq<char>)
    requires
        pat.len() > 0,
    ensures
        remove_count(s, pat) >= 0,
        remove_all_spec(s, pat).len() == s.len() - pat.len() * remove_count(s, pat),
        remove_count(s, pat) == 0 <==> !has_match(s, pat),
    decreases s.len(),
{
    lemma_first_match(s, pat);
    match first_match(s, pat) {
        Some(i) => {
            let rest = s.skip(i + pat.len() as int);
            lemma_remove_all_count(rest, pat);
            let c = remove_count(rest, pat);
            assert(pat.len() * (1 + c) == pat.len() + pat.len() * c) by (nonlinear_arith);
        },
        None => {},
    }
}

/// Removal is global where replacement is not: whenever the scan finds at
/// least two occurrences, removing them all leaves strictly less text than
/// replacing only the first with nothing.
pub proof fn lemma_remove_all_beats_replace_first(s: Seq<char>, pat: Seq<char>)
    requires
        pat.len() > 0,
        remove_count(s, pat) >= 2,
    ensures
        remove_all_spec(s, pat).len() < replace_first_spec(s, pat, Seq::empty()).len(),
{
    lemma_remove_all_count(s, pat);
    lemma_first_match(s, pat);
    let c = remove_count(s, pat);
    assert(pat.len() * c >= 2 * pat.len()) by (nonlinear_arith)
        requires
            c >= 2,
            pat.len() > 0,
    ;
    assert(first_match(s, pat) is Some);
    let i = first_match(s, pat)->Some_0;
    assert(replace_first_spec(s, pat, Seq::empty()).len() == s.len() - pat.len());
}

/// Removing a pattern of a single character leaves no occurrence of it: an
/// occurrence of length one cannot straddle the seam of a deletion.
pub proof fn lemma_remove_all_single_char(s: Seq<char>, pat: Seq<char>)
    requires
        pat.len() == 1,
    ensures
        forall|k: int| !matches_at(remove_all_spec(s, pat), pat, k),
    decreases s.len(),
{
    lemma_first_match(s, pat);
    let r = remove_all_spec(s, pat);
    match first_match(s, pat) {
        Some(i) => {
            let rest = s.skip(i + pat.len() as int);
            lemma_remove_all_single_char(rest, pat);
            let rr = remove_all_spec(rest, pat);
            assert(r == s.take(i) + rr);
            assert forall|k: int| !matches_at(r, pat, k) by {
                if matches_at(r, pat, k) {
                    assert(r.subrange(k, k + 1)[0] == r[k]);
                    assert(r[k] == pat[0]);
                    if k < i {
                        assert(s[k] == r[k]);
                        assert(s.subrange(k, k + 1) =~= pat);
                        assert(matches_at(s, pat, k));
                    } else {
                        assert(r[k] == rr[k - i]);
                        assert(rr.subrange(k - i, k - i + 1) =~= pat);
                        assert(matches_at(rr, pat, k - i));
                    }
                }
            }
        },
        None => {},
    }
}

fn match_at(s: &str, pat: &str, i: usize, slen: usize, plen: usize) -> (b: bool)
    requires
        slen == s@.len(),
        plen == pat@.len(),
        i + plen <= slen,
    ensures
        b == matches_at(s@, pat@, i as int),
{
    let mut j: usize = 0;
    while j < plen
        invariant
            slen == s@.len(),
            plen == pat@.len(),
            i + plen <= slen,
            j <= plen,
            forall|k: int| 0 <= k < j ==> s@[i + k] == pat@[k],
        decreases plen - j,
    {
        if s.get_char(i + j) != pat.get_char(j) {
            assert(s@.subrange(i as int, i + plen) != pat@) by {
                assert(s@.subrange(i as int, i + plen)[j as int] == s@[i + j]);
            }
            return false;
        }
        j += 1;
    }
    assert(s@.subrange(i as int, i + plen) =~= pat@);
    true
}

fn find_first(s: &str, pat: &str, slen: usize, plen: usize) -> (r: Option<usize>)
    requires
        slen == s@.len(),
        plen == pat@.len(),
    ensures
        match r {
            Some(i) => first_match(s@, pat@) == Some(i as int),
            None => first_match(s@, pat@) is None,
        },
{
    if plen > slen {
        return None;
    }
    let mut i: usize = 0;
    loop
        invariant
            slen == s@.len(),
            plen == pat@.len(),
            plen <= slen,
            i <= slen - plen,
            first_match(s@, pat@) == first_match_from(s@, pat@, i as int),
        decreases slen - i,
    {
        if match_at(s, pat, i, slen, plen) {
            return Some(i);
        }
        if i == slen - plen {
            proof {
                assert(first_match_from(s@, pat@, i + 1) is None);
            }
            return None;
        }
        i += 1;
    }
}

/// `s` with the leftmost occurrence of `pat` replaced by `rep`, or unchanged
/// when `pat` does not occur in `s`.
pub fn replace_first(s: &str, pat: &str, rep: &str) -> (r: String)
    ensures
        r@ == replace_first_spec(s@, pat@, rep@),
{
    let slen: usize = s.unicode_len();
    let plen: usize = pat.unicode_len();
    match find_first(s, pat, slen, plen) {
        Some(i) => {
            proof {
                lemma_first_match(s@, pat@);
            }
            let head = s.substring_char(0, i);
            let tail = s.substring_char(i + plen, slen);
            let mut out = String::from_str(head);
            out.append(rep);
            out.append(tail);
            proof {
                assert(s@.take(i as int) =~= s@.subrange(0, i as int));
                assert(s@.skip(i + plen) =~= s@.subrange(i + plen, slen as int));
            }
            out
        },
        None => String::from_str(s),
    }
}

/// `s` with every occurrence of `pat` found in one left-to-right scan
/// deleted.
pub fn remove_all(s: &str, pat: &str) -> (r: String)
    ensures
        r@ == remove_all_spec(s@, pat@),
{
    let slen: usize = s.unicode_len();
    let plen: usize = pat.unicode_len();
    if plen == 0 {
        return String::from_str(s);
    }
    let mut out = String::new();
    let mut pos: usize = 0;
    proof {
        assert(s@.skip(0) =~= s@);
        assert(Seq::<char>::empty() + remove_all_spec(s@, pat@) =~= remove_all_spec(s@, pat@));
    }
    loop
        invariant
            slen == s@.len(),
            plen == pat@.len(),
            0 < plen,
            pos <= slen,
            remove_all_spec(s@, pat@) == out@ + remove_all_spec(s@.skip(pos as int), pat@),
        decreases slen - pos,
    {
        let suf = s.substring_char(pos, slen);
        proof {
            assert(suf@ =~= s@.skip(pos as int));
        }
        match find_first(suf, pat, slen - pos, plen) {
            Some(i) => {
                proof {
                    lemma_first_match(suf@, pat@);
                }
                let head = suf.substring_char(0, i);
                out.append(head);
                proof {
                    assert(suf@.take(i as int) =~= suf@.subrange(0, i as int));
                    assert(suf@.skip(i + plen) =~= s@.skip(pos + i + plen));
                }
                pos = pos + i + plen;
            },
            None => {
                out.append(suf);
                proof {
                    assert(out@ + Seq::<char>::empty() =~= out@);
                    assert(s@.skip(slen as int) =~= Seq::<char>::empty());
                    assert(remove_all_spec(s@.skip(slen as int), pat@) =~= Seq::<char>::empty());
                }
                return out;
            },
        }
    }
}

} // verus!
