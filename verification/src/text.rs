//! Character-sequence utilities for the expander: literal search, occurrence
//! counting, first-occurrence replacement, and decimal rendering of indices.

use vstd::prelude::*;

verus! {

/// The literal `pat` occurs in `w` starting at position `i`.
pub open spec fn occurs_at(w: Seq<char>, pat: Seq<char>, i: int) -> bool {
    0 <= i && i + pat.len() <= w.len() && w.subrange(i, i + pat.len()) == pat
}

/// Position of the first occurrence of `pat` in `w` at or after `from`.
pub open spec fn occ_from(w: Seq<char>, pat: Seq<char>, from: int) -> Option<int>
    decreases w.len() - from + 1,
{
    if from < 0 || from + pat.len() > w.len() {
        None
    } else if occurs_at(w, pat, from) {
        Some(from)
    } else {
        occ_from(w, pat, from + 1)
    }
}

pub proof fn lemma_occ_from_some(w: Seq<char>, pat: Seq<char>, from: int)
    requires
        occ_from(w, pat, from) is Some,
    ensures
        from <= occ_from(w, pat, from)->Some_0,
        occurs_at(w, pat, occ_from(w, pat, from)->Some_0),
    decreases w.len() - from + 1,
{
    if !(from < 0 || from + pat.len() > w.len()) && !occurs_at(w, pat, from) {
        lemma_occ_from_some(w, pat, from + 1);
    }
}

/// Number of non-overlapping occurrences of `pat` in `w` at or after `from`,
/// counted left to right.
pub open spec fn count_from(w: Seq<char>, pat: Seq<char>, from: int) -> nat
    decreases w.len() - from,
    via count_from_dec
{
    if pat.len() == 0 {
        0
    } else {
        match occ_from(w, pat, from) {
            None => 0,
            Some(i) => 1 + count_from(w, pat, i + pat.len()),
        }
    }
}

#[via_fn]
proof fn count_from_dec(w: Seq<char>, pat: Seq<char>, from: int) {
    if pat.len() > 0 && occ_from(w, pat, from) is Some {
        lemma_occ_from_some(w, pat, from);
    }
}

/// `w` with its first occurrence of `pat` (if any) replaced by `rep`.
pub open spec fn replace_first_s(w: Seq<char>, pat: Seq<char>, rep: Seq<char>) -> Seq<char> {
    match occ_from(w, pat, 0) {
        None => w,
        Some(i) => w.take(i) + rep + w.skip(i + pat.len()),
    }
}

/// Does `pat` occur in `w` at position `i`?
fn match_at(w: &Vec<char>, pat: &Vec<char>, i: usize) -> (r: bool)
    requires
        i + pat@.len() <= w@.len(),
    ensures
        r == occurs_at(w@, pat@, i as int),
{
    let n = pat.len();
    let wn = w.len();
    let mut k: usize = 0;
    while k < n
        invariant
            n == pat@.len(),
            wn == w@.len(),
            i + n <= wn,
            k <= n,
            forall|m: int| 0 <= m < k ==> w@[i + m] == pat@[m],
        decreases n - k,
    {
        if w[i + k] != pat[k] {
            assert(w@.subrange(i as int, i + pat@.len())[k as int] != pat@[k as int]);
            return false;
        }
        k += 1;
    }
    assert(w@.subrange(i as int, i + pat@.len()) =~= pat@);
    true
}

/// First occurrence of `pat` in `w` at or after `from`, if any.
pub fn find_from(w: &Vec<char>, pat: &Vec<char>, from: usize) -> (r: Option<usize>)
    requires
        from <= w@.len(),
    ensures
        match r {
            Some(i) => occ_from(w@, pat@, from as int) == Some(i as int),
            None => occ_from(w@, pat@, from as int) is None,
        },
{
    let mut i = from;
    while pat.len() <= w.len() - i
        invariant
            from <= i <= w@.len(),
            occ_from(w@, pat@, from as int) == occ_from(w@, pat@, i as int),
        decreases w@.len() - i,
    {
        if match_at(w, pat, i) {
            return Some(i);
        }
        if pat.len() == 0 {
            // an empty literal occurs everywhere, so the branch above returned
            assert(w@.subrange(i as int, i as int) =~= pat@);
            assert(false);
        }
        i += 1;
    }
    None
}

/// Number of non-overlapping occurrences of `pat` in `w`, left to right.
pub fn count_occurrences(w: &Vec<char>, pat: &Vec<char>) -> (r: usize)
    requires
        pat@.len() > 0,
    ensures
        r as nat == count_from(w@, pat@, 0),
{
    let wn = w.len();
    let mut cnt: usize = 0;
    let mut pos: usize = 0;
    loop
        invariant
            pat@.len() > 0,
            wn == w@.len(),
            pos <= wn,
            cnt <= pos,
            cnt + count_from(w@, pat@, pos as int) == count_from(w@, pat@, 0),
        decreases w@.len() - pos + 1,
    {
        match find_from(w, pat, pos) {
            None => {
                return cnt;
            },
            Some(i) => {
                proof {
                    lemma_occ_from_some(w@, pat@, pos as int);
                }
                cnt += 1;
                pos = i + pat.len();
            },
        }
    }
}

/// The elements of `w` from `i` (inclusive) to `j` (exclusive), as a new vector.
pub fn subvec(w: &Vec<char>, i: usize, j: usize) -> (r: Vec<char>)
    requires
        i <= j <= w@.len(),
    ensures
        r@ == w@.subrange(i as int, j as int),
{
    let mut out: Vec<char> = Vec::new();
    let mut k = i;
    while k < j
        invariant
            i <= k <= j <= w@.len(),
            out@ == w@.subrange(i as int, k as int),
        decreases j - k,
    {
        out.push(w[k]);
        assert(w@.subrange(i as int, k + 1) =~= w@.subrange(i as int, k as int).push(w@[k as int]));
        k += 1;
    }
    out
}

/// Appends all elements of `src` to `dst`.
pub fn append_chars(dst: &mut Vec<char>, src: &Vec<char>)
    ensures
        final(dst)@ == old(dst)@ + src@,
{
    let mut k: usize = 0;
    while k < src.len()
        invariant
            k <= src@.len(),
            dst@ == old(dst)@ + src@.take(k as int),
        decreases src@.len() - k,
    {
        dst.push(src[k]);
        assert(old(dst)@ + src@.take(k + 1) =~= (old(dst)@ + src@.take(k as int)).push(src@[k as int]));
        k += 1;
    }
    assert(src@.take(src@.len() as int) =~= src@);
}

/// A copy of `v`.
pub fn copy_chars(v: &Vec<char>) -> (r: Vec<char>)
    ensures
        r@ == v@,
{
    let mut out: Vec<char> = Vec::new();
    append_chars(&mut out, v);
    assert(out@ =~= v@);
    out
}

/// `w` with its first occurrence of `pat` (if any) replaced by `rep`.
pub fn replace_first(w: Vec<char>, pat: &Vec<char>, rep: &Vec<char>) -> (r: Vec<char>)
    ensures
        r@ == replace_first_s(w@, pat@, rep@),
{
    match find_from(&w, pat, 0) {
        None => w,
        Some(i) => {
            proof {
                lemma_occ_from_some(w@, pat@, 0);
            }
            let wn = w.len();
            let mut out = subvec(&w, 0, i);
            append_chars(&mut out, rep);
            let tail = subvec(&w, i + pat.len(), wn);
            append_chars(&mut out, &tail);
            assert(out@ =~= w@.take(i as int) + rep@ + w@.skip(i + pat@.len()));
            out
        },
    }
}

/// The decimal digit `d` as a character.
pub open spec fn digit_char(d: nat) -> char {
    if d == 0 {
        '0'
    } else if d == 1 {
        '1'
    } else if d == 2 {
        '2'
    } else if d == 3 {
        '3'
    } else if d == 4 {
        '4'
    } else if d == 5 {
        '5'
    } else if d == 6 {
        '6'
    } else if d == 7 {
        '7'
    } else if d == 8 {
        '8'
    } else {
        '9'
    }
}

/// The decimal rendering of `n`, most significant digit first.
pub open spec fn dec_rep(n: nat) -> Seq<char>
    decreases n,
{
    if n < 10 {
        seq![digit_char(n)]
    } else {
        dec_rep(n / 10).push(digit_char(n % 10))
    }
}

fn digit_of(n: usize) -> (c: char)
    requires
        n < 10,
    ensures
        c == digit_char(n as nat),
{
    if n == 0 {
        '0'
    } else if n == 1 {
        '1'
    } else if n == 2 {
        '2'
    } else if n == 3 {
        '3'
    } else if n == 4 {
        '4'
    } else if n == 5 {
        '5'
    } else if n == 6 {
        '6'
    } else if n == 7 {
        '7'
    } else if n == 8 {
        '8'
    } else {
        '9'
    }
}

/// Appends the decimal rendering of `n` to `out`.
pub fn push_dec(n: usize, out: &mut Vec<char>)
    ensures
        final(out)@ == old(out)@ + dec_rep(n as nat),
    decreases n,
{
    if n < 10 {
        out.push(digit_of(n));
        assert(out@ =~= old(out)@ + dec_rep(n as nat));
    } else {
        push_dec(n / 10, out);
        out.push(digit_of(n % 10));
        assert(out@ =~= old(out)@ + dec_rep(n as nat));
    }
}

pub proof fn lemma_dec_rep_len(n: nat)
    ensures
        dec_rep(n).len() >= 1,
    decreases n,
{
    if n >= 10 {
        lemma_dec_rep_len(n / 10);
    }
}

/// Distinct numbers render as distinct digit strings.
pub proof fn lemma_dec_rep_injective(a: nat, b: nat)
    requires
        dec_rep(a) == dec_rep(b),
    ensures
        a == b,
    decreases a,
{
    if a < 10 && b < 10 {
        assert(dec_rep(a) == seq![digit_char(a)]);
        assert(dec_rep(b) == seq![digit_char(b)]);
        assert(seq![digit_char(a)][0] == digit_char(a));
        assert(seq![digit_char(b)][0] == digit_char(b));
        assert(digit_char(a) == digit_char(b));
        assert(a == b);
    } else if a < 10 {
        lemma_dec_rep_len(b / 10);
        assert(dec_rep(b).len() >= 2);
    } else if b < 10 {
        lemma_dec_rep_len(a / 10);
        assert(dec_rep(a).len() >= 2);
    } else {
        let ra = dec_rep(a / 10);
        let rb = dec_rep(b / 10);
        let pa = ra.push(digit_char(a % 10));
        let pb = rb.push(digit_char(b % 10));
        assert(pa == dec_rep(a));
        assert(pb == dec_rep(b));
        assert(pa[pa.len() - 1] == digit_char(a % 10));
        assert(pb[pb.len() - 1] == digit_char(b % 10));
        assert(a % 10 == b % 10);
        assert(ra.len() == rb.len());
        assert forall|i: int| 0 <= i < ra.len() implies ra[i] == rb[i] by {
            assert(pa[i] == ra[i]);
            assert(pb[i] == rb[i]);
        }
        assert(ra =~= rb);
        lemma_dec_rep_injective(a / 10, b / 10);
        vstd::arithmetic::div_mod::lemma_fundamental_div_mod(a as int, 10);
        vstd::arithmetic::div_mod::lemma_fundamental_div_mod(b as int, 10);
    }
}

} // verus!
